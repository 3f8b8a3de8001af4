use mtga_tauri::step::{fields_stop_stream, should_stop_proxy_step, StepFields};
use mtga_tauri::text::text_equals;

fn fields(step: &str, status: &str) -> Option<StepFields> {
    Some(StepFields { step: step.to_string(), status: status.to_string() })
}

#[test]
fn stop_on_failed_status() {
    assert!(should_stop_proxy_step(r#"{"step":"dns","status":"failed","detail":1}"#));
}

#[test]
fn stop_on_proxy_step() {
    assert!(should_stop_proxy_step(r#" {"status":"ok","step":"proxy"} "#));
}

#[test]
fn no_stop_on_other_records() {
    assert!(!should_stop_proxy_step(r#"{"step":"dns","status":"ok"}"#));
    assert!(!should_stop_proxy_step(r#"{"step":"Proxy","status":"FAILED"}"#));
}

#[test]
fn no_stop_on_malformed_records() {
    assert!(!should_stop_proxy_step(""));
    assert!(!should_stop_proxy_step("{"));
    assert!(!should_stop_proxy_step(r#"{"step":"proxy"}"#));
    assert!(!should_stop_proxy_step(r#"{"step":null,"status":"failed"}"#));
    assert!(!should_stop_proxy_step(r#""failed""#));
}

#[test]
fn stop_rule_on_decoded_fields() {
    assert!(fields_stop_stream(&fields("proxy", "ok")));
    assert!(fields_stop_stream(&fields("dns", "failed")));
    assert!(!fields_stop_stream(&fields("dns", "ok")));
    assert!(!fields_stop_stream(&fields("proxyx", "failedx")));
    assert!(!fields_stop_stream(&None));
}

#[test]
fn text_equality() {
    assert!(text_equals("abc", "abc"));
    assert!(text_equals("", ""));
    assert!(!text_equals("abc", "abd"));
    assert!(!text_equals("ab", "abc"));
    assert!(text_equals("héllo", "héllo"));
}
