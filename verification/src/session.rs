use vstd::prelude::*;
use crate::message::Message;

verus! {

/// The author and content strings of a well-formed inbound frame, if the
/// text is one: the result of parsing the text as JSON and reading its
/// "author" and "content" string members, which depends on the text alone.
pub uninterp spec fn frame_of(s: Seq<char>) -> Option<(Seq<char>, Seq<char>)>;

/// Relies on `serde_json::from_str` (to a `serde_json::Value`),
/// `Value::get` and `Value::as_str`: yields the "author" and "content"
/// string members of the frame when it is a JSON object carrying both, and
/// nothing otherwise.
#[verifier::external_body]
fn decode_frame(s: &str) -> (r: Option<(String, String)>)
    ensures
        r matches Some(p) ==> frame_of(s@) == Some((p.0@, p.1@)),
        r is None ==> frame_of(s@) is None,
{
    let v: serde_json::Value = serde_json::from_str(s).ok()?;
    let author = v.get("author")?.as_str()?;
    let content = v.get("content")?.as_str()?;
    Some((author.to_string(), content.to_string()))
}

/// Validates and stamps one inbound text frame: a well-formed
/// `{author, content}` frame becomes a message carrying `now_ms` as its
/// acceptance time, to be posted to the room; anything else yields nothing
/// and is to be dropped with the connection left open.
pub fn handle_inbound(text: &str, now_ms: u128) -> (r: Option<Message>)
    ensures
        r is Some <==> frame_of(text@) is Some,
        r matches Some(m) ==> frame_of(text@) == Some((m.author@, m.content@)) && m.time
            == now_ms,
{
    match decode_frame(text) {
        Some(p) => Some(Message { author: p.0, time: now_ms, content: p.1 }),
        None => None,
    }
}

} // verus!
