//! What the program makes of the language model's replies: the analysis
//! text of a commit, and when to retry, accept or give up a summary request.
use vstd::prelude::*;
use vstd::string::StringExecFns;
use crate::text::{contains_seq, trim, chars_of, contains_lit, trim_vec, string_from_chars};

verus! {

/// The text of a request to the model: the instructions `prompt`, a blank
/// line, then `lead` and the text the request is about.
pub open spec fn request_text_of(prompt: Seq<char>, lead: Seq<char>, body: Seq<char>) -> Seq<char> {
    prompt + "\n\n"@ + lead + body
}

/// The text of a request to the model about `body`.
pub fn request_text(prompt: &str, lead: &str, body: &str) -> (r: String)
    ensures
        r@ == request_text_of(prompt@, lead@, body@),
{
    let mut r = String::from_str(prompt);
    r.append("\n\n");
    r.append(lead);
    r.append(body);
    r
}

/// How many times a summary is requested before the request is given up.
pub const SUMMARY_ATTEMPTS: u32 = 50;

/// `str::trim`, returning an owned string.
pub fn trimmed(s: &str) -> (r: String)
    ensures
        r@ == trim(s@),
{
    let v = chars_of(s);
    let t = trim_vec(&v);
    string_from_chars(&t)
}

/// The message content of a chat-completion reply: the string at
/// `choices[0].message.content` of the JSON document `text`, when `text` is
/// one and that string is there.
pub uninterp spec fn json_message_content(text: Seq<char>) -> Option<Seq<char>>;

/// The view of an optional string.
pub open spec fn opt_text(o: Option<String>) -> Option<Seq<char>> {
    match o {
        Some(s) => Some(s@),
        None => None,
    }
}

/// Calls `serde_json::from_str::<serde_json::Value>` on `text`, then
/// `Value::get` with `"choices"`, `0`, `"message"`, `"content"` and
/// `Value::as_str`. Claimed: the result is `json_message_content` of the
/// text, a function of the text alone; nothing is claimed of which texts
/// `serde_json` reads.
#[verifier::external_body]
fn message_content(text: &str) -> (r: Option<String>)
    ensures
        opt_text(r) == json_message_content(text@),
{
    match serde_json::from_str::<serde_json::Value>(text) {
        Ok(v) => v.get("choices").and_then(|c| c.get(0)).and_then(|c| c.get("message")).and_then(
            |m| m.get("content"),
        ).and_then(|c| c.as_str()).map(|c| c.to_string()),
        Err(_) => None,
    }
}

/// The analysis text of a reply: the message content found in it, trimmed,
/// or else the whole reply, trimmed.
pub open spec fn reply_analysis(text: Seq<char>, content: Option<Seq<char>>) -> Seq<char> {
    match content {
        Some(c) => trim(c),
        None => trim(text),
    }
}

/// The analysis text of a reply whose JSON gave `content` as its message
/// content (`None` when the reply has none).
pub fn analysis_from_reply(text: &str, content: Option<&str>) -> (r: String)
    ensures
        r@ == reply_analysis(
            text@,
            match content {
                Some(c) => Some(c@),
                None => None,
            },
        ),
{
    match content {
        Some(c) => trimmed(c),
        None => trimmed(text),
    }
}

/// The analysis text of the reply `text` to an analysis request: its
/// message content, trimmed, or else the whole reply, trimmed.
pub fn analysis_of_reply(text: &str) -> (r: String)
    ensures
        r@ == reply_analysis(text@, json_message_content(text@)),
{
    let content = message_content(text);
    match &content {
        Some(c) => analysis_from_reply(text, Some(c.as_str())),
        None => analysis_from_reply(text, None),
    }
}

/// The outcome of one summary request.
pub enum Attempt {
    /// The request could not be sent, or its reply could not be read.
    Failed,
    /// The text of the reply, and the message content found in its JSON.
    Replied { text: String, content: Option<String> },
}

/// What to do after a summary request.
pub enum Step {
    /// Wait, then request again.
    Retry,
    /// The summary is this text.
    Done(String),
    /// Every attempt failed; `unreachable` tells whether some request could
    /// not be sent or its reply not be read.
    GiveUp { unreachable: bool },
}

/// How far a summary request has got: the requests made so far, and whether
/// one of them could not be sent or its reply not be read.
pub struct SummaryState {
    pub attempts: u32,
    pub unreachable: bool,
}

/// The state before the first summary request.
pub fn start_summary() -> (r: SummaryState)
    ensures
        r.attempts == 0,
        !r.unreachable,
{
    SummaryState { attempts: 0, unreachable: false }
}

/// The outcome of a summary request that was answered with `text`: the
/// reply and the message content found in it.
pub fn replied(text: String) -> (r: Attempt)
    ensures
        r matches Attempt::Replied { text: t, content: c } && t@ == text@ && opt_text(c)
            == json_message_content(text@),
{
    let content = message_content(text.as_str());
    Attempt::Replied { text, content }
}

/// A reply that reports a rate limit or an error.
pub open spec fn is_rejection(text: Seq<char>) -> bool {
    contains_seq(text, "ModelAccountTpmRateLimitExceeded"@) || contains_seq(text, "error"@)
}

/// The summary that an outcome provides: the trimmed message content of a
/// reply that reports no error.
pub open spec fn accepted_summary(outcome: Attempt) -> Option<Seq<char>> {
    match outcome {
        Attempt::Failed => None,
        Attempt::Replied { text, content } => if is_rejection(text@) {
            None
        } else {
            match content {
                Some(c) => Some(trim(c@)),
                None => None,
            }
        },
    }
}

/// The state and the step after one more summary request, which ended
/// with `outcome`: done with an accepted summary, else retry until the
/// last attempt, then give up.
pub fn next_summary_step(state: &SummaryState, outcome: &Attempt) -> (r: (SummaryState, Step))
    requires
        state.attempts < SUMMARY_ATTEMPTS,
    ensures
        r.0.attempts == state.attempts + 1,
        r.0.unreachable == (state.unreachable || outcome is Failed),
        accepted_summary(*outcome) matches Some(s) ==> (r.1 matches Step::Done(t) && t@ == s),
        accepted_summary(*outcome) is None && r.0.attempts < SUMMARY_ATTEMPTS ==> r.1 is Retry,
        accepted_summary(*outcome) is None && r.0.attempts == SUMMARY_ATTEMPTS ==> (r.1 matches Step::GiveUp {
            unreachable,
        } && unreachable == r.0.unreachable),
{
    let accepted = match outcome {
        Attempt::Failed => None,
        Attempt::Replied { text, content } => {
            let t = chars_of(text.as_str());
            if contains_lit(&t, "ModelAccountTpmRateLimitExceeded") || contains_lit(&t, "error") {
                None
            } else {
                match content {
                    Some(c) => Some(trimmed(c.as_str())),
                    None => None,
                }
            }
        },
    };
    let failed = match outcome {
        Attempt::Failed => true,
        Attempt::Replied { .. } => false,
    };
    let next = SummaryState { attempts: state.attempts + 1, unreachable: state.unreachable || failed };
    let step = match accepted {
        Some(s) => Step::Done(s),
        None => if next.attempts < SUMMARY_ATTEMPTS {
            Step::Retry
        } else {
            Step::GiveUp { unreachable: next.unreachable }
        },
    };
    (next, step)
}

} // verus!
