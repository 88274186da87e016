//! The line protocol read from stdin while a run is controlled: each line is
//! a JSON object whose `type` names the message, or bare text, which is a
//! user message.
use vstd::prelude::*;
use vstd::string::*;

use crate::error::opt_view;
use crate::runner::PermissionResponse;
use crate::text::{trim, trim_str};

verus! {

/// A decoded control message.
#[derive(Debug, PartialEq)]
pub enum ControlMessage {
    /// A new user prompt: `{"type":"user_message","text":"..."}`, or a bare
    /// non-JSON line.
    UserMessage(String),
    /// Graceful session close (`{"type":"end_session"}`).
    EndSession,
    /// HITL gate response (`{"type":"hitl_response","text":"..."}`).
    HitlResponse(String),
    /// Tool permission decision.
    PermissionResponse {
        response: PermissionResponse,
        /// When `true`, the tool is approved for the rest of the session.
        allow_for_session: bool,
    },
    Pause,
    Resume,
    Kill,
}

/// What the protocol reads of a JSON line: the string members `type`,
/// `text` and `reason` and the boolean members `allowed` and
/// `allow_for_session`, each `None` where absent or of another kind.
pub struct ControlFields {
    pub kind: Option<String>,
    pub text: Option<String>,
    pub allowed: Option<bool>,
    pub allow_for_session: Option<bool>,
    pub reason: Option<String>,
}

/// `ControlFields` with its strings as character sequences.
pub struct ControlFieldsView {
    pub kind: Option<Seq<char>>,
    pub text: Option<Seq<char>>,
    pub allowed: Option<bool>,
    pub allow_for_session: Option<bool>,
    pub reason: Option<Seq<char>>,
}

impl View for ControlFields {
    type V = ControlFieldsView;

    open spec fn view(&self) -> ControlFieldsView {
        ControlFieldsView {
            kind: opt_view(self.kind),
            text: opt_view(self.text),
            allowed: self.allowed,
            allow_for_session: self.allow_for_session,
            reason: opt_view(self.reason),
        }
    }
}

pub open spec fn fields_view(f: Option<ControlFields>) -> Option<ControlFieldsView> {
    match f {
        Some(x) => Some(x@),
        None => None,
    }
}

/// The members of `line` read as JSON; `None` when `line` is not JSON.
pub uninterp spec fn json_control_fields(line: Seq<char>) -> Option<ControlFieldsView>;

/// Calls `serde_json::from_str` on `line` and picks the members the protocol
/// reads. Its result is named, not stated: JSON is `serde_json`'s to define.
#[verifier::external_body]
fn decode_control_fields(line: &str) -> (r: Option<ControlFields>)
    ensures
        fields_view(r) == json_control_fields(line@),
{
    let v: serde_json::Value = serde_json::from_str(line).ok()?;
    Some(ControlFields {
        kind: v.get("type").and_then(|x| x.as_str()).map(|x| x.to_string()),
        text: v.get("text").and_then(|x| x.as_str()).map(|x| x.to_string()),
        allowed: v.get("allowed").and_then(|x| x.as_bool()),
        allow_for_session: v.get("allow_for_session").and_then(|x| x.as_bool()),
        reason: v.get("reason").and_then(|x| x.as_str()).map(|x| x.to_string()),
    })
}

/// A string member, or the empty string when it is missing.
pub open spec fn or_empty(s: Option<Seq<char>>) -> Seq<char> {
    match s {
        Some(x) => x,
        None => Seq::empty(),
    }
}

/// A boolean member, or `false` when it is missing.
pub open spec fn or_false(b: Option<bool>) -> bool {
    match b {
        Some(x) => x,
        None => false,
    }
}

/// The message a non-empty trimmed line gives, from what its JSON holds
/// (`None`: not JSON, a user message of the whole line).
pub open spec fn message_for(line: Seq<char>, fields: Option<ControlFieldsView>, m: Option<ControlMessage>) -> bool {
    match fields {
        None => m matches Some(ControlMessage::UserMessage(t)) && t@ == line,
        Some(f) => if f.kind == Some("user_message"@) {
            m matches Some(ControlMessage::UserMessage(t)) && t@ == or_empty(f.text)
        } else if f.kind == Some("end_session"@) {
            m matches Some(ControlMessage::EndSession)
        } else if f.kind == Some("hitl_response"@) {
            m matches Some(ControlMessage::HitlResponse(t)) && t@ == or_empty(f.text)
        } else if f.kind == Some("permission_response"@) {
            &&& m matches Some(ControlMessage::PermissionResponse { response, allow_for_session })
            &&& allow_for_session == or_false(f.allow_for_session)
            &&& if or_false(f.allowed) {
                response matches PermissionResponse::Allow
            } else {
                response matches PermissionResponse::Deny(reason) && reason@ == or_empty(f.reason)
            }
        } else if f.kind == Some("pause"@) {
            m matches Some(ControlMessage::Pause)
        } else if f.kind == Some("resume"@) {
            m matches Some(ControlMessage::Resume)
        } else if f.kind == Some("kill"@) {
            m matches Some(ControlMessage::Kill)
        } else {
            m is None
        },
    }
}

fn text_or_empty(s: Option<String>) -> (r: String)
    ensures
        r@ == or_empty(opt_view(s)),
{
    match s {
        Some(x) => x,
        None => String::new(),
    }
}

fn is_kind(kind: &Option<String>, name: &str) -> (b: bool)
    ensures
        b == (opt_view(*kind) == Some(name@)),
{
    match kind {
        Some(k) => crate::text::str_eq(k.as_str(), name),
        None => false,
    }
}

/// The message of a non-empty trimmed line, given what the line holds as
/// JSON (`None` when it is not JSON).
pub fn control_message_from(line: &str, fields: Option<ControlFields>) -> (m: Option<ControlMessage>)
    ensures
        message_for(line@, fields_view(fields), m),
{
    let f = match fields {
        None => return Some(ControlMessage::UserMessage(line.to_string())),
        Some(f) => f,
    };
    proof {
        reveal_strlit("user_message");
        reveal_strlit("end_session");
        reveal_strlit("hitl_response");
        reveal_strlit("permission_response");
        reveal_strlit("pause");
        reveal_strlit("resume");
        reveal_strlit("kill");
    }
    let ControlFields { kind, text, allowed, allow_for_session, reason } = f;
    if is_kind(&kind, "user_message") {
        Some(ControlMessage::UserMessage(text_or_empty(text)))
    } else if is_kind(&kind, "end_session") {
        Some(ControlMessage::EndSession)
    } else if is_kind(&kind, "hitl_response") {
        Some(ControlMessage::HitlResponse(text_or_empty(text)))
    } else if is_kind(&kind, "permission_response") {
        let allow_for_session = match allow_for_session {
            Some(b) => b,
            None => false,
        };
        let allowed = match allowed {
            Some(b) => b,
            None => false,
        };
        let response = if allowed {
            PermissionResponse::Allow
        } else {
            PermissionResponse::Deny(text_or_empty(reason))
        };
        Some(ControlMessage::PermissionResponse { response, allow_for_session })
    } else if is_kind(&kind, "pause") {
        Some(ControlMessage::Pause)
    } else if is_kind(&kind, "resume") {
        Some(ControlMessage::Resume)
    } else if is_kind(&kind, "kill") {
        Some(ControlMessage::Kill)
    } else {
        None
    }
}

/// The control stream's format: a line that is not JSON is a user message of
/// the whole line, and a JSON line whose type this protocol does not know
/// gives no message. `parse_control_message` gives, for a non-blank line,
/// a message that `message_for` accepts for the trimmed line, so this holds
/// of what it returns.
pub proof fn lemma_control_line_format(line: Seq<char>, fields: Option<ControlFieldsView>, m: Option<ControlMessage>)
    requires
        message_for(line, fields, m),
    ensures
        fields is None ==> (m matches Some(ControlMessage::UserMessage(t)) && t@ == line),
        (fields matches Some(f) && f.kind != Some("user_message"@) && f.kind != Some("end_session"@) && f.kind != Some(
            "hitl_response"@,
        ) && f.kind != Some("permission_response"@) && f.kind != Some("pause"@) && f.kind != Some("resume"@)
            && f.kind != Some("kill"@)) ==> m is None,
{
}

/// Parse one line of the control stream: `None` for a blank line or a JSON
/// message of a type this protocol does not know (left for later versions).
pub fn parse_control_message(line: &str) -> (m: Option<ControlMessage>)
    ensures
        trim(line@).len() == 0 ==> m is None,
        trim(line@).len() > 0 ==> message_for(trim(line@), json_control_fields(trim(line@)), m),
{
    let trimmed = trim_str(line);
    if trimmed.as_str().unicode_len() == 0 {
        return None;
    }
    let fields = decode_control_fields(trimmed.as_str());
    control_message_from(trimmed.as_str(), fields)
}

} // verus!
