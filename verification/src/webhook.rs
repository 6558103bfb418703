use vstd::prelude::*;

verus! {

/// What the `action` member of a JSON request body holds: the string value
/// of that field when the body parses as JSON carrying one, `None` for a
/// malformed body, a body without the field, or a non-string field. A
/// function of the bytes alone.
pub uninterp spec fn json_action_of(body: Seq<u8>) -> Option<Seq<char>>;

/// Relies on serde_json::from_slice::<Value>, Value::get and Value::as_str:
/// parses the body as JSON and hands back the string value of its `action`
/// field. serde_json computes it from the bytes alone; a parse failure, a
/// missing field and a non-string field all come back as `None`.
#[verifier::external_body]
fn parse_action_field(body: &Vec<u8>) -> (r: Option<String>)
    ensures
        match r {
            Some(s) => json_action_of(body@) == Some(s@),
            None => json_action_of(body@) is None,
        },
{
    serde_json::from_slice::<serde_json::Value>(body.as_slice()).ok().and_then(
        |v| v.get("action").and_then(|a| a.as_str()).map(|s| s.to_string()),
    )
}

/// Only a `push` action asks for a mirror refresh.
pub open spec fn spec_action_triggers(action: Option<Seq<char>>) -> bool {
    action matches Some(a) && a == "push"@
}

/// Whether a parsed webhook action asks for a refresh.
pub fn action_triggers_refresh(action: &Option<String>) -> (r: bool)
    ensures
        r == spec_action_triggers(
            match *action {
                Some(s) => Some(s@),
                None => None,
            },
        ),
{
    match action {
        Some(s) => s.eq(&String::from_str("push")),
        None => false,
    }
}

/// Decides one inbound webhook request body: a refresh signal goes out
/// exactly when the body's `action` field is `push`. Anything else — another
/// action, a missing field, malformed JSON — produces no signal.
pub fn webhook_signal(body: &Vec<u8>) -> (r: bool)
    ensures
        r == spec_action_triggers(json_action_of(body@)),
{
    let action = parse_action_field(body);
    action_triggers_refresh(&action)
}

/// The plain-text response body. The handler answers 200 to every request,
/// recognized or not, so the sender never retries a benign rejection; only
/// the body text tells the two apart.
pub fn webhook_response_body(signal: bool) -> (r: String)
    ensures
        signal ==> r@ == "yippee :)"@,
        !signal ==> r@ == "ur not a webhook, shoo!"@,
{
    if signal {
        String::from_str("yippee :)")
    } else {
        String::from_str("ur not a webhook, shoo!")
    }
}

/// Law: a request whose action is anything but `push` — a `pull_request`,
/// a missing field, or a body that did not parse — produces no refresh
/// signal.
pub proof fn lemma_non_push_never_signals(action: Option<Seq<char>>)
    requires
        action is None || (action matches Some(a) && a != "push"@),
    ensures
        !spec_action_triggers(action),
{
}

} // verus!
