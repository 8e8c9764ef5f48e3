use vstd::prelude::*;
use vstd::string::StringExecFns;
use crate::codec::format_u128;
use crate::codec::json_encode_str;
use crate::codec::json_str_of;
use crate::codec::spec_dec;

verus! {

/// A chat message as relayed to every participant of a room. `time` is the
/// server-assigned wall-clock timestamp, in milliseconds since the epoch,
/// stamped when the message was accepted. Immutable once created.
pub struct Message {
    pub author: String,
    pub time: u128,
    pub content: String,
}

/// The outbound wire frame of a message:
/// `{"author":<author>,"time":<time>,"content":<content>}`, the two strings
/// JSON-encoded and the timestamp in decimal.
pub open spec fn spec_message_json(author: Seq<char>, time: nat, content: Seq<char>) -> Seq<char> {
    "{\"author\":"@ + json_str_of(author) + ",\"time\":"@ + spec_dec(time) + ",\"content\":"@
        + json_str_of(content) + "}"@
}

/// Encodes a message as its outbound JSON text frame.
pub fn encode_message(m: &Message) -> (r: String)
    ensures
        r@ == spec_message_json(m.author@, m.time as nat, m.content@),
{
    let mut r = String::from_str("{\"author\":");
    let author = json_encode_str(m.author.as_str());
    r.append(author.as_str());
    r.append(",\"time\":");
    let time = format_u128(m.time);
    r.append(time.as_str());
    r.append(",\"content\":");
    let content = json_encode_str(m.content.as_str());
    r.append(content.as_str());
    r.append("}");
    proof {
        assert(r@ =~= spec_message_json(m.author@, m.time as nat, m.content@));
    }
    r
}

} // verus!
