//! The decisions of running a mapping: whether it may run, what each node of
//! its action amounts to, how the steps of a multi-action combine, and what
//! a webhook request carries. The calls into the desktop, the network and
//! the clock are made by the caller, one at a time, as these functions say.
use vstd::prelude::*;
use crate::domain::{
    self, ActionDefinition, ActionStep, ExecutionOutcome, Hotkey, InputBinding, MediaCommand,
    VolumeCommand, WebhookMethod, WebhookRequest,
};
use crate::error::{CommandError, Fault};
use crate::validation::{self, validated_web_url};
use crate::web::{self, header_name_check, header_value_check};

verus! {

/// Actions that may run at the same time.
pub const MAX_CONCURRENT_ACTIONS: usize = 16;

/// Actions that may run or wait at the same time.
pub const MAX_PENDING_ACTIONS: usize = 64;

/// The longest delay, in milliseconds: 24 hours.
pub const MAX_DELAY_MS: u64 = 86_400_000;

/// The outcome of one action that ran.
pub fn completed() -> (o: ExecutionOutcome)
    ensures
        o == (ExecutionOutcome { completed_steps: 1, profile_switched_to: None }),
{
    ExecutionOutcome { completed_steps: 1, profile_switched_to: None }
}

/// A wait of `duration_ms` may start only when it is at most 24 hours.
pub fn check_delay(duration_ms: u64) -> (r: Result<(), CommandError>)
    ensures
        duration_ms <= MAX_DELAY_MS ==> r is Ok,
        duration_ms > MAX_DELAY_MS ==> (r matches Err(e) && e.is(Fault::DelayTooLong)),
{
    if duration_ms > MAX_DELAY_MS {
        Err(Fault::DelayTooLong.error())
    } else {
        Ok(())
    }
}

/// A stored mapping may run only while it is enabled and belongs to the
/// active profile.
pub fn validate_active_binding(binding: &InputBinding, active_profile_id: u128) -> (r: Result<
    (),
    CommandError,
>)
    ensures
        !binding.enabled ==> (r matches Err(e) && e.is(Fault::MappingDisabled)),
        binding.enabled && binding.profile_id != active_profile_id ==> (r matches Err(e) && e.is(
            Fault::MappingInactive,
        )),
        binding.enabled && binding.profile_id == active_profile_id ==> r is Ok,
{
    if !binding.enabled {
        return Err(Fault::MappingDisabled.error());
    }
    if binding.profile_id != active_profile_id {
        return Err(Fault::MappingInactive.error());
    }
    Ok(())
}

/// A run about to start: mappings must not be paused, and the mapping must
/// be enabled and in the active profile.
pub fn check_run(mappings_paused: bool, binding: &InputBinding, active_profile_id: u128) -> (r: Result<
    (),
    CommandError,
>)
    ensures
        mappings_paused ==> (r matches Err(e) && e.is(Fault::MappingsPaused)),
        !mappings_paused && !binding.enabled ==> (r matches Err(e) && e.is(Fault::MappingDisabled)),
        !mappings_paused && binding.enabled && binding.profile_id != active_profile_id ==> (r matches Err(
            e,
        ) && e.is(Fault::MappingInactive)),
        !mappings_paused && binding.enabled && binding.profile_id == active_profile_id ==> r is Ok,
{
    if mappings_paused {
        return Err(Fault::MappingsPaused.error());
    }
    validate_active_binding(binding, active_profile_id)
}

// ----- Webhooks -----

/// A webhook request ready to send.
pub struct WebhookCall {
    pub method: WebhookMethod,
    /// The serialised URL.
    pub url: String,
    /// Between 500 ms and 60 s.
    pub timeout_ms: u64,
    pub headers: Vec<(String, String)>,
    pub body: Option<String>,
}

/// The timeout of a webhook request: the requested one, kept between 500
/// ms and 60 s.
pub open spec fn clamped_timeout(ms: u64) -> u64 {
    if ms < 500 {
        500
    } else if ms > 60_000 {
        60_000
    } else {
        ms
    }
}

/// The timeout a webhook call gets is the requested one held to the range
/// 500 ms to 60 s: a request inside the range is kept as it is, one outside
/// gets the nearer bound, and a longer request never gets a shorter
/// timeout.
pub proof fn lemma_timeout_kept_in_range(ms: u64, longer: u64)
    ensures
        500 <= clamped_timeout(ms) <= 60_000,
        500 <= ms <= 60_000 ==> clamped_timeout(ms) == ms,
        ms < 500 ==> clamped_timeout(ms) == 500,
        ms > 60_000 ==> clamped_timeout(ms) == 60_000,
        ms <= longer ==> clamped_timeout(ms) <= clamped_timeout(longer),
{
}

/// The first header from index `i` on whose name or value HTTP refuses, by
/// the message of the refusal.
pub open spec fn header_refusal(h: Seq<(String, String)>, i: int) -> Option<Seq<char>>
    decreases h.len() - i,
{
    if i < 0 || i >= h.len() {
        None
    } else if !web::valid_header_name(vstd::utf8::encode_utf8(h[i].0@)) {
        Some("invalid HTTP header name"@)
    } else if !web::valid_header_value(vstd::utf8::encode_utf8(h[i].1@)) {
        Some("failed to parse header value"@)
    } else {
        header_refusal(h, i + 1)
    }
}

/// Why a webhook cannot be sent, in the order of the checks: its URL, more
/// than 32 headers, a body over 1 MiB, a header HTTP refuses.
pub open spec fn webhook_refusal(r: WebhookRequest) -> Option<Result<validation::Problem, Seq<char>>> {
    match validation::web_url_check(r.url@) {
        Err(p) => Some(Ok(p)),
        Ok(_) => if r.headers@.len() > 32 {
            Some(Ok(validation::Problem::Rule(Fault::TooManyHeaders)))
        } else if r.body is Some && validation::byte_len(r.body->0@) > 1_048_576 {
            Some(Ok(validation::Problem::Rule(Fault::WebhookBodyTooLarge)))
        } else {
            match header_refusal(r.headers@, 0) {
                Some(m) => Some(Err(m)),
                None => None,
            }
        },
    }
}

/// Prepares the request a webhook action sends, or says why it cannot be
/// sent. A header refusal is reported under the code
/// `invalidWebhookHeader` with HTTP's message.
pub fn plan_webhook(request: &WebhookRequest) -> (r: Result<WebhookCall, CommandError>)
    ensures
        match webhook_refusal(*request) {
            Some(Ok(p)) => r matches Err(e) && e.reports(p),
            Some(Err(m)) => r matches Err(e) && e.code@ == "invalidWebhookHeader"@ && e.message@ == m,
            None => r matches Ok(call) && {
                &&& validation::web_url_check(request.url@) == Ok::<_, validation::Problem>(call.url@)
                &&& call.method == request.method
                &&& call.timeout_ms == clamped_timeout(request.timeout_ms)
                &&& domain::same_headers(call.headers@, request.headers@)
                &&& validation::header_names_ascending(call.headers@)
                    == validation::header_names_ascending(request.headers@)
                &&& domain::opt_view(call.body) == domain::opt_view(request.body)
            },
        },
{
    let url = validated_web_url(request.url.as_str())?;
    if request.headers.len() > 32 {
        return Err(Fault::TooManyHeaders.error());
    }
    let body_too_large = match &request.body {
        Some(body) => body.as_str().len() > 1_048_576,
        None => false,
    };
    if body_too_large {
        return Err(Fault::WebhookBodyTooLarge.error());
    }
    let h = &request.headers;
    let mut i: usize = 0;
    while i < h.len()
        invariant
            i <= h@.len(),
            h@ == request.headers@,
            validation::web_url_check(request.url@) == Ok::<_, validation::Problem>(url@),
            request.headers@.len() <= 32,
            !(request.body is Some && validation::byte_len(request.body->0@) > 1_048_576),
            header_refusal(h@, 0) == header_refusal(h@, i as int),
        decreases h@.len() - i,
    {
        if let Err(message) = header_name_check(h[i].0.as_str()) {
            return Err(CommandError { code: "invalidWebhookHeader".to_owned(), message });
        }
        if let Err(message) = header_value_check(h[i].1.as_str()) {
            return Err(CommandError { code: "invalidWebhookHeader".to_owned(), message });
        }
        i += 1;
    }
    let timeout_ms = if request.timeout_ms < 500 {
        500
    } else if request.timeout_ms > 60_000 {
        60_000
    } else {
        request.timeout_ms
    };
    let headers = domain::copy_headers(&request.headers);
    proof {
        validation::lemma_same_headers_ascending(headers@, request.headers@);
    }
    Ok(
        WebhookCall {
            method: request.method,
            url,
            timeout_ms,
            headers,
            body: domain::copy_text_opt(&request.body),
        },
    )
}

/// What the server's answer means: success for a 2xx status, otherwise a
/// refusal that names the status.
pub fn webhook_response(status: u16) -> (r: Result<(), CommandError>)
    ensures
        200 <= status <= 299 ==> r is Ok,
        !(200 <= status <= 299) ==> (r matches Err(e) && e.is(Fault::WebhookRejected(status))),
{
    if 200 <= status && status <= 299 {
        Ok(())
    } else {
        Err(Fault::WebhookRejected(status).error())
    }
}

// ----- One action node -----

/// A call to make for one action; each completes one step.
pub enum Effect {
    LaunchApplication { path: String, arguments: Vec<String>, working_directory: Option<String> },
    OpenPath { path: String },
    /// Opens the serialised, checked URL.
    OpenUrl { url: String },
    SendHotkey { hotkey: Hotkey },
    TypeText { text: String },
    Media { command: MediaCommand },
    Volume { command: VolumeCommand },
    PlaySound { path: String },
    Webhook { call: WebhookCall },
    CloseApplication { executable_name: String },
    /// Makes the profile active; the run then reports the switch.
    SwitchProfile { profile_id: u128 },
    Wait { duration_ms: u64 },
}

/// What running one action node amounts to.
pub enum ActionPlan {
    /// One call.
    Call { effect: Effect },
    /// The steps of a multi-action, in order, each run at `depth`.
    Steps { stop_on_error: bool, depth: usize },
}

/// Some step switches profiles.
pub open spec fn has_switch_step(s: Seq<ActionStep>) -> bool {
    exists|i: int| 0 <= i < s.len() && (#[trigger] s[i]).action is SwitchProfile
}

/// The steps of a multi-action may run: 1 to 100 of them, none switching
/// profiles.
pub fn check_steps(steps: &Vec<ActionStep>) -> (r: Result<(), CommandError>)
    ensures
        (steps@.len() == 0 || steps@.len() > 100) ==> (r matches Err(e) && e.is(Fault::InvalidMultiAction)),
        !(steps@.len() == 0 || steps@.len() > 100) && has_switch_step(steps@) ==> (r matches Err(e) && e.is(
            Fault::ProfileSwitchInMultiAction,
        )),
        !(steps@.len() == 0 || steps@.len() > 100) && !has_switch_step(steps@) ==> r is Ok,
{
    if steps.len() == 0 || steps.len() > 100 {
        return Err(Fault::InvalidMultiAction.error());
    }
    let mut i: usize = 0;
    while i < steps.len()
        invariant
            1 <= steps@.len() <= 100,
            i <= steps@.len(),
            forall|k: int| 0 <= k < i ==> !((#[trigger] steps@[k]).action is SwitchProfile),
        decreases steps@.len() - i,
    {
        if let ActionDefinition::SwitchProfile { .. } = &steps[i].action {
            assert(steps@[i as int].action is SwitchProfile);
            return Err(Fault::ProfileSwitchInMultiAction.error());
        }
        i += 1;
    }
    Ok(())
}

/// Why an action node at nesting `depth` cannot run, when it cannot: too
/// deep, incomplete, a URL or webhook that is refused, a delay over 24
/// hours, or a multi-action whose steps are refused. `Err` carries the
/// message of an HTTP header refusal.
pub open spec fn plan_refusal(a: ActionDefinition, depth: usize) -> Option<Result<validation::Problem, Seq<char>>> {
    if depth > 16 {
        Some(Ok(validation::Problem::Rule(Fault::ActionNestingTooDeep)))
    } else {
        match a {
            ActionDefinition::Incomplete { .. } => Some(Ok(validation::Problem::Rule(Fault::IncompleteAction))),
            ActionDefinition::OpenUrl { url } => match validation::web_url_check(url@) {
                Err(p) => Some(Ok(p)),
                Ok(_) => None,
            },
            ActionDefinition::Webhook { request } => webhook_refusal(request),
            ActionDefinition::Delay { duration_ms } => if duration_ms > MAX_DELAY_MS {
                Some(Ok(validation::Problem::Rule(Fault::DelayTooLong)))
            } else {
                None
            },
            ActionDefinition::MultiAction { steps, .. } => if steps@.len() == 0 || steps@.len() > 100 {
                Some(Ok(validation::Problem::Rule(Fault::InvalidMultiAction)))
            } else if has_switch_step(steps@) {
                Some(Ok(validation::Problem::Rule(Fault::ProfileSwitchInMultiAction)))
            } else {
                None
            },
            _ => None,
        }
    }
}

/// The call an action stands for (`None` for a multi-action), given the
/// call made.
pub open spec fn plans_call(a: ActionDefinition, e: Effect) -> bool {
    match a {
        ActionDefinition::OpenApplication { path, arguments, working_directory } => e matches Effect::LaunchApplication {
            path: p,
            arguments: args,
            working_directory: w,
        } && p@ == path@ && domain::same_texts(args@, arguments@) && domain::opt_view(w)
            == domain::opt_view(working_directory),
        ActionDefinition::OpenPath { path } => e matches Effect::OpenPath { path: p } && p@ == path@,
        ActionDefinition::OpenUrl { url } => e matches Effect::OpenUrl { url: u }
            && validation::web_url_check(url@) == Ok::<_, validation::Problem>(u@),
        ActionDefinition::Hotkey { hotkey } => e matches Effect::SendHotkey { hotkey: h }
            && domain::same_hotkey(h, hotkey),
        ActionDefinition::TypeText { text } => e matches Effect::TypeText { text: t } && t@ == text@,
        ActionDefinition::Media { command } => e == Effect::Media { command },
        ActionDefinition::Volume { command } => e == Effect::Volume { command },
        ActionDefinition::PlaySound { path } => e matches Effect::PlaySound { path: p } && p@ == path@,
        ActionDefinition::Webhook { request } => e matches Effect::Webhook { call: c } && {
            &&& validation::web_url_check(request.url@) == Ok::<_, validation::Problem>(c.url@)
            &&& c.method == request.method
            &&& c.timeout_ms == clamped_timeout(request.timeout_ms)
            &&& domain::same_headers(c.headers@, request.headers@)
            &&& domain::opt_view(c.body) == domain::opt_view(request.body)
        },
        ActionDefinition::CloseApplication { executable_name } => e matches Effect::CloseApplication {
            executable_name: x,
        } && x@ == executable_name@,
        ActionDefinition::SwitchProfile { profile_id } => e == Effect::SwitchProfile { profile_id },
        ActionDefinition::Delay { duration_ms } => e == Effect::Wait { duration_ms },
        _ => false,
    }
}

/// Decides what running `action` at nesting `depth` amounts to: one call, or
/// the steps of a multi-action one level deeper; or why it cannot run.
pub fn plan_action(action: &ActionDefinition, depth: usize) -> (r: Result<ActionPlan, CommandError>)
    ensures
        match plan_refusal(*action, depth) {
            Some(Ok(p)) => r matches Err(e) && e.reports(p),
            Some(Err(m)) => r matches Err(e) && e.code@ == "invalidWebhookHeader"@ && e.message@ == m,
            None => match *action {
                ActionDefinition::MultiAction { stop_on_error, .. } => r == Ok::<_, CommandError>(
                    ActionPlan::Steps { stop_on_error, depth: (depth + 1) as usize },
                ),
                _ => r matches Ok(ActionPlan::Call { effect }) && plans_call(*action, effect),
            },
        },
{
    if depth > 16 {
        return Err(Fault::ActionNestingTooDeep.error());
    }
    let effect = match action {
        ActionDefinition::Incomplete { .. } => {
            return Err(Fault::IncompleteAction.error());
        },
        ActionDefinition::OpenApplication { path, arguments, working_directory } => Effect::LaunchApplication {
            path: path.clone(),
            arguments: domain::copy_texts(arguments),
            working_directory: domain::copy_text_opt(working_directory),
        },
        ActionDefinition::OpenPath { path } => Effect::OpenPath { path: path.clone() },
        ActionDefinition::OpenUrl { url } => Effect::OpenUrl { url: validated_web_url(url.as_str())? },
        ActionDefinition::Hotkey { hotkey } => Effect::SendHotkey { hotkey: hotkey.duplicate() },
        ActionDefinition::TypeText { text } => Effect::TypeText { text: text.clone() },
        ActionDefinition::Media { command } => Effect::Media { command: *command },
        ActionDefinition::Volume { command } => Effect::Volume { command: *command },
        ActionDefinition::PlaySound { path } => Effect::PlaySound { path: path.clone() },
        ActionDefinition::Webhook { request } => Effect::Webhook { call: plan_webhook(request)? },
        ActionDefinition::CloseApplication { executable_name } => Effect::CloseApplication {
            executable_name: executable_name.clone(),
        },
        ActionDefinition::SwitchProfile { profile_id } => Effect::SwitchProfile { profile_id: *profile_id },
        ActionDefinition::Delay { duration_ms } => {
            check_delay(*duration_ms)?;
            Effect::Wait { duration_ms: *duration_ms }
        },
        ActionDefinition::MultiAction { steps, stop_on_error } => {
            check_steps(steps)?;
            return Ok(ActionPlan::Steps { stop_on_error: *stop_on_error, depth: depth + 1 });
        },
    };
    Ok(ActionPlan::Call { effect })
}

/// The outcome of a call that succeeded: one step, and the profile switched
/// to for a switch.
pub fn call_outcome(effect: &Effect) -> (o: ExecutionOutcome)
    ensures
        o.completed_steps == 1,
        o.profile_switched_to == match *effect {
            Effect::SwitchProfile { profile_id } => Some(profile_id),
            _ => None,
        },
{
    match effect {
        Effect::SwitchProfile { profile_id } => ExecutionOutcome {
            completed_steps: 1,
            profile_switched_to: Some(*profile_id),
        },
        _ => completed(),
    }
}

// ----- Multi-actions -----

/// A multi-action in progress: the steps completed so far (counted to the
/// top of the range), the latest profile switch, and the latest error.
pub struct StepsRun {
    pub stop_on_error: bool,
    pub outcome: ExecutionOutcome,
    pub last_error: Option<CommandError>,
}

/// The progress as numbers: steps completed, latest switch, latest error.
pub type RunProgress = (nat, Option<u128>, Option<CommandError>);

/// The progress after one more step result, or the error that stops the
/// run: with `stop_on_error` the first failing step stops it.
pub open spec fn step_progress(p: RunProgress, stop_on_error: bool, result: Result<ExecutionOutcome, CommandError>) -> Result<
    RunProgress,
    CommandError,
> {
    match result {
        Ok(o) => Ok(
            (
                if p.0 + o.completed_steps > usize::MAX {
                    usize::MAX as nat
                } else {
                    (p.0 + o.completed_steps) as nat
                },
                if o.profile_switched_to is Some {
                    o.profile_switched_to
                } else {
                    p.1
                },
                p.2,
            ),
        ),
        Err(e) => if stop_on_error {
            Err(e)
        } else {
            Ok((p.0, p.1, Some(e)))
        },
    }
}

/// The progress after a sequence of step results.
pub open spec fn steps_progress(stop_on_error: bool, results: Seq<Result<ExecutionOutcome, CommandError>>) -> Result<
    RunProgress,
    CommandError,
>
    decreases results.len(),
{
    if results.len() == 0 {
        Ok((0, None, None))
    } else {
        match steps_progress(stop_on_error, results.drop_last()) {
            Err(e) => Err(e),
            Ok(p) => step_progress(p, stop_on_error, results.last()),
        }
    }
}

/// The result of a multi-action whose steps all ran: an error only when no
/// step completed and some step failed, the latest error then.
pub open spec fn finished(p: RunProgress) -> Result<ExecutionOutcome, CommandError> {
    if p.0 == 0 && p.2 is Some {
        Err(p.2->0)
    } else {
        Ok(ExecutionOutcome { completed_steps: p.0 as usize, profile_switched_to: p.1 })
    }
}

impl StepsRun {
    /// The progress so far.
    pub open spec fn progress(&self) -> RunProgress {
        (self.outcome.completed_steps as nat, self.outcome.profile_switched_to, self.last_error)
    }

    /// A multi-action before its first step.
    pub fn new(stop_on_error: bool) -> (r: StepsRun)
        ensures
            r.stop_on_error == stop_on_error,
            r.progress() == (0nat, None::<u128>, None::<CommandError>),
    {
        StepsRun {
            stop_on_error,
            outcome: ExecutionOutcome { completed_steps: 0, profile_switched_to: None },
            last_error: None,
        }
    }

    /// Records the result of a step; `Err` when the run stops here.
    pub fn record(&mut self, result: Result<ExecutionOutcome, CommandError>) -> (r: Result<(), CommandError>)
        ensures
            final(self).stop_on_error == old(self).stop_on_error,
            match step_progress(old(self).progress(), old(self).stop_on_error, result) {
                Ok(p) => r is Ok && final(self).progress() == p,
                Err(e) => r == Err::<(), _>(e),
            },
    {
        match result {
            Ok(step) => {
                self.outcome.completed_steps = self.outcome.completed_steps.saturating_add(
                    step.completed_steps,
                );
                if step.profile_switched_to.is_some() {
                    self.outcome.profile_switched_to = step.profile_switched_to;
                }
                Ok(())
            },
            Err(error) => {
                if self.stop_on_error {
                    Err(error)
                } else {
                    self.last_error = Some(error);
                    Ok(())
                }
            },
        }
    }

    /// The wait after a step: none for 0, refused over 24 hours.
    pub fn wait_after(delay_after_ms: u64) -> (r: Result<Option<u64>, CommandError>)
        ensures
            delay_after_ms == 0 ==> r == Ok::<_, CommandError>(None::<u64>),
            0 < delay_after_ms <= MAX_DELAY_MS ==> r == Ok::<_, CommandError>(Some(delay_after_ms)),
            delay_after_ms > MAX_DELAY_MS ==> (r matches Err(e) && e.is(Fault::DelayTooLong)),
    {
        if delay_after_ms == 0 {
            Ok(None)
        } else {
            check_delay(delay_after_ms)?;
            Ok(Some(delay_after_ms))
        }
    }

    /// The result once every step ran.
    pub fn finish(self) -> (r: Result<ExecutionOutcome, CommandError>)
        ensures
            r == finished(self.progress()),
    {
        if self.outcome.completed_steps == 0 {
            if let Some(error) = self.last_error {
                return Err(error);
            }
        }
        Ok(self.outcome)
    }
}

/// With `stop_on_error`, the first failing step decides the result: the run
/// stops with its error.
pub proof fn lemma_first_error_stops(results: Seq<Result<ExecutionOutcome, CommandError>>, k: int)
    requires
        0 <= k < results.len(),
        results[k] is Err,
        forall|j: int| 0 <= j < k ==> (#[trigger] results[j]) is Ok,
    ensures
        steps_progress(true, results) == Err::<RunProgress, _>(results[k]->Err_0),
    decreases results.len(),
{
    if k < results.len() - 1 {
        lemma_first_error_stops(results.drop_last(), k);
    } else {
        lemma_no_error_progress(true, results.drop_last());
    }
}

/// Without errors, a run never stops.
proof fn lemma_no_error_progress(stop_on_error: bool, results: Seq<Result<ExecutionOutcome, CommandError>>)
    requires
        forall|j: int| 0 <= j < results.len() ==> (#[trigger] results[j]) is Ok,
    ensures
        steps_progress(stop_on_error, results) is Ok,
    decreases results.len(),
{
    if results.len() > 0 {
        lemma_no_error_progress(stop_on_error, results.drop_last());
    }
}

/// Without `stop_on_error` every step runs, and the multi-action succeeds
/// as soon as one step completed something.
pub proof fn lemma_one_success_suffices(results: Seq<Result<ExecutionOutcome, CommandError>>, k: int)
    requires
        0 <= k < results.len(),
        results[k] matches Ok(o) && o.completed_steps > 0,
    ensures
        steps_progress(false, results) is Ok,
        finished(steps_progress(false, results)->Ok_0) is Ok,
    decreases results.len(),
{
    lemma_never_stops(results);
    lemma_count_positive(results, k);
}

/// Without `stop_on_error` a run never stops early.
proof fn lemma_never_stops(results: Seq<Result<ExecutionOutcome, CommandError>>)
    ensures
        steps_progress(false, results) is Ok,
    decreases results.len(),
{
    if results.len() > 0 {
        lemma_never_stops(results.drop_last());
    }
}

/// Once a step completed something, the count stays positive.
proof fn lemma_count_positive(results: Seq<Result<ExecutionOutcome, CommandError>>, k: int)
    requires
        0 <= k < results.len(),
        results[k] matches Ok(o) && o.completed_steps > 0,
    ensures
        steps_progress(false, results)->Ok_0.0 > 0,
    decreases results.len(),
{
    lemma_never_stops(results);
    lemma_never_stops(results.drop_last());
    if k < results.len() - 1 {
        lemma_count_positive(results.drop_last(), k);
    }
}

} // verus!
