use vstd::prelude::*;

use crate::text::text_equals;

verus! {

/// The two string members of a step/status record that the stop rule reads.
#[derive(Debug, Clone)]
pub struct StepFields {
    pub step: String,
    pub status: String,
}

/// The `step` and `status` members that serde_json finds in `payload`, or
/// `None` when `payload` is not a JSON object holding both as strings.
pub uninterp spec fn step_fields_of(payload: Seq<char>) -> Option<(Seq<char>, Seq<char>)>;

/// Relies on `serde_json::from_str` to parse `payload` as a JSON value; the
/// string members `step` and `status` of that value (through `Value::get` and
/// `Value::as_str`) are copied out.
#[verifier::external_body]
fn decode_step_fields(payload: &str) -> (r: Option<StepFields>)
    ensures
        match r {
            Some(f) => step_fields_of(payload@) == Some((f.step@, f.status@)),
            None => step_fields_of(payload@) is None,
        },
{
    let value: serde_json::Value = serde_json::from_str(payload).ok()?;
    let step = value.get("step")?.as_str()?;
    let status = value.get("status")?.as_str()?;
    Some(StepFields { step: step.to_string(), status: status.to_string() })
}

/// A record ends a proxy-step session when the stage failed or when the proxy
/// stage itself reported.
pub open spec fn fields_end_session(step: Seq<char>, status: Seq<char>) -> bool {
    status == "failed"@ || step == "proxy"@
}

/// Whether the event text `payload` ends a proxy-step session; text that does
/// not parse as such a record never does.
pub open spec fn ends_proxy_session(payload: Seq<char>) -> bool {
    match step_fields_of(payload) {
        Some((step, status)) => fields_end_session(step, status),
        None => false,
    }
}

/// The stop rule on already decoded fields: `None` (a record that did not
/// decode) never stops the stream.
pub fn fields_stop_stream(fields: &Option<StepFields>) -> (r: bool)
    ensures
        r == match fields {
            Some(f) => fields_end_session(f.step@, f.status@),
            None => false,
        },
{
    match fields {
        Some(f) => text_equals(f.status.as_str(), "failed") || text_equals(f.step.as_str(), "proxy"),
        None => false,
    }
}

/// Whether the proxy-step event `payload` ends its stream.
pub fn should_stop_proxy_step(payload: &str) -> (r: bool)
    ensures
        r == ends_proxy_session(payload@),
{
    let fields = decode_step_fields(payload);
    fields_stop_stream(&fields)
}

} // verus!
