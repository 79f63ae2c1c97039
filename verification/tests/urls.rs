use dual_deck::validation::{check_parsed_url, validate_webhook};
use dual_deck::web::ParsedUrl;

fn parsed(scheme: &str, host: Option<&str>, serialization: &str) -> Result<ParsedUrl, String> {
    Ok(ParsedUrl {
        scheme: scheme.to_string(),
        host: host.map(str::to_string),
        serialization: serialization.to_string(),
    })
}

#[test]
fn parsed_web_urls_keep_their_serialisation() {
    assert_eq!(
        check_parsed_url(parsed("https", Some("example.com"), "https://example.com/")).unwrap(),
        "https://example.com/"
    );
    assert_eq!(check_parsed_url(parsed("http", Some("10.0.0.1"), "http://10.0.0.1/x")).unwrap(), "http://10.0.0.1/x");
}

#[test]
fn other_parse_results_are_refused() {
    let error = check_parsed_url(parsed("ftp", Some("example.com"), "ftp://example.com/")).unwrap_err();
    assert_eq!(error.code, "invalidUrl");
    assert_eq!(error.message, "Only HTTP and HTTPS URLs are supported");
    let error = check_parsed_url(parsed("http", None, "http:/relative")).unwrap_err();
    assert_eq!(error.message, "Only HTTP and HTTPS URLs are supported");
    let error = check_parsed_url(Err("relative URL without a base".to_string())).unwrap_err();
    assert_eq!(error.code, "invalidUrl");
    assert_eq!(error.message, "relative URL without a base");
}

fn webhook(headers: &[(&str, &str)]) -> dual_deck::domain::WebhookRequest {
    dual_deck::domain::WebhookRequest {
        url: "https://example.com/hook".to_string(),
        method: dual_deck::domain::WebhookMethod::Post,
        headers: headers.iter().map(|(n, v)| (n.to_string(), v.to_string())).collect(),
        body: None,
        timeout_ms: 5_000,
    }
}

#[test]
fn webhook_headers_must_be_named_in_ascending_order() {
    assert!(validate_webhook(&webhook(&[("Accept", "*/*"), ("X-Token", "a"), ("X-Trace", "b")])).is_ok());
    assert!(validate_webhook(&webhook(&[])).is_ok());
    let error = validate_webhook(&webhook(&[("X-Trace", "b"), ("X-Token", "a")])).unwrap_err();
    assert_eq!(error.code, "invalidWebhook");
    let error = validate_webhook(&webhook(&[("X-Token", "a"), ("X-Token", "b")])).unwrap_err();
    assert_eq!(error.code, "invalidWebhook");
}
