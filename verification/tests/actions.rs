use dual_deck::actions::{
    check_delay, check_run, check_steps, plan_action, plan_webhook, validate_active_binding, webhook_response,
    ActionPlan, Effect, StepsRun,
};
use dual_deck::domain::{
    ActionDefinition, ActionStep, ControllerButton, ControllerInput, ExecutionOutcome, InputBinding,
    Timestamp, Trigger, WebhookMethod, WebhookRequest,
};
use dual_deck::error::CommandError;
use dual_deck::validation::validated_web_url;

fn webhook(url: &str, headers: Vec<(String, String)>, body: Option<String>, timeout_ms: u64) -> WebhookRequest {
    WebhookRequest { url: url.into(), method: WebhookMethod::Post, headers, body, timeout_ms }
}

fn failure(code: &str) -> CommandError {
    CommandError { code: code.into(), message: "failed".into() }
}

#[test]
fn accepts_only_http_urls() {
    assert!(validated_web_url("https://example.com/hook").is_ok());
    assert!(validated_web_url("file:///C:/Windows/System32").is_err());
    assert!(validated_web_url("javascript:alert(1)").is_err());
}

#[test]
fn rejects_excessive_delays() {
    assert!(check_delay(86_400_001).is_err());
}

// ----- Further cases -----

#[test]
fn a_day_long_delay_is_allowed() {
    assert!(check_delay(86_400_000).is_ok());
    assert_eq!(check_delay(86_400_001).unwrap_err().code, "delayTooLong");
}

#[test]
fn urls_are_trimmed_and_serialised() {
    assert_eq!(validated_web_url("  https://example.com  ").unwrap(), "https://example.com/");
    let error = validated_web_url("not a url").unwrap_err();
    assert_eq!(error.code, "invalidUrl");
    assert_eq!(error.message, "relative URL without a base");
    assert_eq!(validated_web_url("ftp://example.com").unwrap_err().message, "Only HTTP and HTTPS URLs are supported");
}

#[test]
fn runs_need_an_enabled_mapping_of_the_active_profile() {
    let mut binding = InputBinding {
        id: 1,
        profile_id: 2,
        input: ControllerInput::Button(ControllerButton::Cross),
        trigger: Trigger::Press,
        action: ActionDefinition::Delay { duration_ms: 0 },
        label: "Wait".into(),
        enabled: true,
        created_at: Timestamp { seconds: 0, nanos: 0 },
        updated_at: Timestamp { seconds: 0, nanos: 0 },
    };
    assert!(validate_active_binding(&binding, 2).is_ok());
    assert_eq!(validate_active_binding(&binding, 3).unwrap_err().code, "mappingInactive");
    assert_eq!(check_run(true, &binding, 2).unwrap_err().code, "mappingsPaused");
    binding.enabled = false;
    assert_eq!(validate_active_binding(&binding, 2).unwrap_err().code, "mappingDisabled");
}

#[test]
fn plans_follow_the_action() {
    match plan_action(&ActionDefinition::OpenUrl { url: " https://example.com/a ".into() }, 0).unwrap() {
        ActionPlan::Call { effect: Effect::OpenUrl { url } } => assert_eq!(url, "https://example.com/a"),
        _ => panic!("expected an URL to open"),
    }
    match plan_action(&ActionDefinition::SwitchProfile { profile_id: 5 }, 0).unwrap() {
        ActionPlan::Call { effect: Effect::SwitchProfile { profile_id } } => assert_eq!(profile_id, 5),
        _ => panic!("expected a profile switch"),
    }
    let multi = ActionDefinition::MultiAction {
        steps: vec![ActionStep { action: ActionDefinition::Delay { duration_ms: 5 }, delay_after_ms: 0 }],
        stop_on_error: false,
    };
    match plan_action(&multi, 3).unwrap() {
        ActionPlan::Steps { stop_on_error, depth } => {
            assert!(!stop_on_error);
            assert_eq!(depth, 4);
        },
        _ => panic!("expected steps"),
    }
    assert_eq!(plan_action(&multi, 17).err().unwrap().code, "actionNestingTooDeep");
    let incomplete = ActionDefinition::Incomplete { action_id: "x".into(), configuration: "{}".into() };
    assert_eq!(plan_action(&incomplete, 0).err().unwrap().code, "incompleteAction");
    assert_eq!(plan_action(&ActionDefinition::Delay { duration_ms: 86_400_001 }, 0).err().unwrap().code, "delayTooLong");
}

#[test]
fn multi_actions_refuse_empty_lists_and_profile_switches() {
    assert_eq!(check_steps(&Vec::new()).unwrap_err().code, "invalidMultiAction");
    let switch = vec![ActionStep { action: ActionDefinition::SwitchProfile { profile_id: 1 }, delay_after_ms: 0 }];
    assert_eq!(check_steps(&switch).unwrap_err().code, "profileSwitchInMultiAction");
}

#[test]
fn webhooks_are_checked_before_sending() {
    let call = plan_webhook(&webhook("https://example.com/hook", vec![("X-Key".into(), "v".into())], None, 100)).unwrap();
    assert_eq!(call.timeout_ms, 500);
    assert_eq!(call.url, "https://example.com/hook");
    assert_eq!(plan_webhook(&webhook("https://example.com", Vec::new(), None, 90_000)).unwrap().timeout_ms, 60_000);
    let bad_name = plan_webhook(&webhook("https://example.com", vec![("bad name".into(), "v".into())], None, 1_000));
    let error = bad_name.err().unwrap();
    assert_eq!(error.code, "invalidWebhookHeader");
    assert_eq!(error.message, "invalid HTTP header name");
    let bad_value = plan_webhook(&webhook("https://example.com", vec![("x".into(), "a\nb".into())], None, 1_000));
    assert_eq!(bad_value.err().unwrap().message, "failed to parse header value");
    let many: Vec<(String, String)> = (0..33).map(|i| (format!("x-{i}"), "v".to_string())).collect();
    assert_eq!(plan_webhook(&webhook("https://example.com", many, None, 1_000)).err().unwrap().code, "tooManyHeaders");
    let body = Some("x".repeat(1_048_577));
    assert_eq!(plan_webhook(&webhook("https://example.com", Vec::new(), body, 1_000)).err().unwrap().code, "webhookBodyTooLarge");
}

#[test]
fn webhook_answers_are_judged_by_status() {
    assert!(webhook_response(204).is_ok());
    let error = webhook_response(404).unwrap_err();
    assert_eq!(error.code, "webhookRejected");
    assert_eq!(error.message, "The webhook returned HTTP 404");
}

#[test]
fn without_stop_on_error_one_success_is_enough() {
    let mut run = StepsRun::new(false);
    assert!(run.record(Err(failure("openFailed"))).is_ok());
    assert!(run.record(Ok(ExecutionOutcome { completed_steps: 1, profile_switched_to: None })).is_ok());
    let outcome = run.finish().unwrap();
    assert_eq!(outcome.completed_steps, 1);

    let mut failing = StepsRun::new(false);
    failing.record(Err(failure("first"))).unwrap();
    failing.record(Err(failure("second"))).unwrap();
    assert_eq!(failing.finish().unwrap_err().code, "second");
}

#[test]
fn stop_on_error_stops_at_the_first_failure() {
    let mut run = StepsRun::new(true);
    assert!(run.record(Ok(ExecutionOutcome { completed_steps: 2, profile_switched_to: Some(7) })).is_ok());
    assert_eq!(run.record(Err(failure("first"))).unwrap_err().code, "first");
    let mut later = StepsRun::new(true);
    later.record(Ok(ExecutionOutcome { completed_steps: 2, profile_switched_to: Some(7) })).unwrap();
    let outcome = later.finish().unwrap();
    assert_eq!(outcome.profile_switched_to, Some(7));
    assert_eq!(StepsRun::wait_after(0).unwrap(), None);
    assert_eq!(StepsRun::wait_after(10).unwrap(), Some(10));
    assert!(StepsRun::wait_after(86_400_001).is_err());
}
