//! Relaying the model's streamed answer. The model's reply arrives as server-sent events, one
//! line at a time; each `data: ` line carries a JSON event. Text deltas are forwarded to the
//! browser as they come, and the stream ends at `[DONE]` or at a `message_stop` event. The
//! application reads the lines from the connection and sends what this module decides.

use vstd::prelude::*;

use crate::text::{chars_of, push_char, same_text};

verus! {

/// What to do with one line of the event stream.
#[derive(Debug, Clone)]
pub enum RelayAction {
    /// Nothing to forward: read the next line.
    Skip,
    /// The answer is complete.
    Stop,
    /// A piece of the answer's text, to forward.
    Token(String),
}

/// What a streamed event's JSON holds that the relay reads: its `type` and its `delta.text`,
/// each when present as a string; `None` when the data is not JSON.
pub uninterp spec fn event_fields(data: Seq<char>) -> Option<(Option<Seq<char>>, Option<Seq<char>>)>;

/// The text of an optional string.
pub open spec fn opt_text(o: Option<String>) -> Option<Seq<char>> {
    match o {
        Some(s) => Some(s@),
        None => None,
    }
}

/// `serde_json::from_str::<serde_json::Value>`, then the event's `type` and `delta.text`
/// (`Value::as_str` on each).
#[verifier::external_body]
fn read_event(data: &str) -> (r: Option<(Option<String>, Option<String>)>)
    ensures
        r is None <==> event_fields(data@) is None,
        r matches Some((t, x)) ==> event_fields(data@) == Some((opt_text(t), opt_text(x))),
{
    let v: serde_json::Value = serde_json::from_str(data).ok()?;
    Some((v["type"].as_str().map(String::from), v["delta"]["text"].as_str().map(String::from)))
}

/// The data of an event line: what follows its `data: ` prefix.
pub open spec fn line_data(line: Seq<char>) -> Option<Seq<char>> {
    if line.len() >= 6 && line.take(6) == "data: "@ {
        Some(line.skip(6))
    } else {
        None
    }
}

/// `a` is what the relay does with `line`: lines without data are skipped; `[DONE]` stops; a
/// text delta is forwarded; `message_stop` stops; anything else (other events, data that is
/// not JSON, a delta without text) is skipped.
pub open spec fn relays(a: RelayAction, line: Seq<char>) -> bool {
    match line_data(line) {
        None => a is Skip,
        Some(data) => if data == "[DONE]"@ {
            a is Stop
        } else {
            match event_fields(data) {
                Some((Some(t), x)) => if t == "content_block_delta"@ {
                    match x {
                        Some(text) => a matches RelayAction::Token(s) && s@ == text,
                        None => a is Skip,
                    }
                } else if t == "message_stop"@ {
                    a is Stop
                } else {
                    a is Skip
                },
                _ => a is Skip,
            }
        },
    }
}

/// The type of the event a line carries, when it is a data line whose JSON has a string `type`.
pub open spec fn line_event_type(line: Seq<char>) -> Option<Seq<char>> {
    match line_data(line) {
        Some(d) => match event_fields(d) {
            Some((Some(t), _)) => Some(t),
            _ => None,
        },
        None => None,
    }
}

/// The `delta.text` of the event a line carries, when present as a string.
pub open spec fn line_event_text(line: Seq<char>) -> Option<Seq<char>> {
    match line_data(line) {
        Some(d) => match event_fields(d) {
            Some((_, Some(x))) => Some(x),
            _ => None,
        },
        None => None,
    }
}

/// The relay stops only at a `[DONE]` data line or at an event whose type is exactly
/// `message_stop`; it forwards text only from a `content_block_delta` event, exactly that
/// event's `delta.text`; and any other event (such as `message_start` or `ping`) is skipped.
pub proof fn lemma_relay_stops_only_at_the_end(a: RelayAction, line: Seq<char>)
    requires
        relays(a, line),
    ensures
        a is Stop ==> (line_data(line) == Some("[DONE]"@) || line_event_type(line) == Some(
            "message_stop"@,
        )),
        a matches RelayAction::Token(s) ==> (line_event_type(line) == Some("content_block_delta"@)
            && line_event_text(line) == Some(s@)),
        (line_data(line) != Some("[DONE]"@) && line_event_type(line) is Some && line_event_type(line)
            != Some("message_stop"@) && line_event_type(line) != Some("content_block_delta"@))
            ==> a is Skip,
        line_data(line) is None ==> a is Skip,
{
}

/// Decide what to do with one line of the event stream.
pub fn relay_step(line: &str) -> (a: RelayAction)
    ensures
        relays(a, line@),
{
    let cs = chars_of(line);
    proof {
        reveal_strlit("data: ");
    }
    if cs.len() < 6 || cs[0] != 'd' || cs[1] != 'a' || cs[2] != 't' || cs[3] != 'a' || cs[4] != ':'
        || cs[5] != ' ' {
        proof {
            if cs@.len() >= 6 && cs@.take(6) == "data: "@ {
                assert(cs@.take(6)[0] == cs@[0] && cs@.take(6)[1] == cs@[1] && cs@.take(6)[2]
                    == cs@[2] && cs@.take(6)[3] == cs@[3] && cs@.take(6)[4] == cs@[4]
                    && cs@.take(6)[5] == cs@[5]);
            }
        }
        return RelayAction::Skip;
    }
    assert(cs@.take(6) =~= "data: "@);
    let mut data = String::new();
    let mut k: usize = 6;
    while k < cs.len()
        invariant
            6 <= k <= cs.len(),
            data@ == cs@.subrange(6, k as int),
        decreases cs.len() - k,
    {
        push_char(&mut data, cs[k]);
        assert(cs@.subrange(6, k + 1) =~= cs@.subrange(6, k as int).push(cs@[k as int]));
        k = k + 1;
    }
    assert(data@ =~= line@.skip(6));
    if same_text(data.as_str(), "[DONE]") {
        return RelayAction::Stop;
    }
    match read_event(data.as_str()) {
        Some((Some(t), x)) => {
            if same_text(t.as_str(), "content_block_delta") {
                match x {
                    Some(text) => RelayAction::Token(text),
                    None => RelayAction::Skip,
                }
            } else if same_text(t.as_str(), "message_stop") {
                RelayAction::Stop
            } else {
                RelayAction::Skip
            }
        },
        _ => RelayAction::Skip,
    }
}

} // verus!
