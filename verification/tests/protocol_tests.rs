use ail_core::protocol::{control_message_from, parse_control_message, ControlFields, ControlMessage};
use ail_core::runner::PermissionResponse;

#[test]
fn empty_line_returns_none() {
    assert!(parse_control_message("").is_none());
    assert!(parse_control_message("   ").is_none());
}

#[test]
fn bare_non_json_line_becomes_user_message() {
    let msg = parse_control_message("hello world");
    assert_eq!(msg, Some(ControlMessage::UserMessage("hello world".to_string())));
}

#[test]
fn user_message_json_is_parsed() {
    let msg = parse_control_message(r#"{"type":"user_message","text":"do something"}"#);
    assert_eq!(msg, Some(ControlMessage::UserMessage("do something".to_string())));
}

#[test]
fn end_session_is_parsed() {
    let msg = parse_control_message(r#"{"type":"end_session"}"#);
    assert_eq!(msg, Some(ControlMessage::EndSession));
}

#[test]
fn hitl_response_is_parsed() {
    let msg = parse_control_message(r#"{"type":"hitl_response","text":"approved"}"#);
    assert_eq!(msg, Some(ControlMessage::HitlResponse("approved".to_string())));
}

#[test]
fn permission_response_allow_is_parsed() {
    let msg = parse_control_message(r#"{"type":"permission_response","allowed":true}"#);
    assert_eq!(
        msg,
        Some(ControlMessage::PermissionResponse { response: PermissionResponse::Allow, allow_for_session: false })
    );
}

#[test]
fn permission_response_allow_for_session_is_parsed() {
    let msg = parse_control_message(r#"{"type":"permission_response","allowed":true,"allow_for_session":true}"#);
    assert_eq!(
        msg,
        Some(ControlMessage::PermissionResponse { response: PermissionResponse::Allow, allow_for_session: true })
    );
}

#[test]
fn permission_response_deny_carries_reason() {
    let msg = parse_control_message(r#"{"type":"permission_response","allowed":false,"reason":"not safe"}"#);
    assert_eq!(
        msg,
        Some(ControlMessage::PermissionResponse {
            response: PermissionResponse::Deny("not safe".to_string()),
            allow_for_session: false,
        })
    );
}

#[test]
fn pause_resume_kill_are_parsed() {
    assert_eq!(parse_control_message(r#"{"type":"pause"}"#), Some(ControlMessage::Pause));
    assert_eq!(parse_control_message(r#"{"type":"resume"}"#), Some(ControlMessage::Resume));
    assert_eq!(parse_control_message(r#"{"type":"kill"}"#), Some(ControlMessage::Kill));
}

#[test]
fn unknown_type_returns_none() {
    assert!(parse_control_message(r#"{"type":"future_extension","data":42}"#).is_none());
}

#[test]
fn surrounding_whitespace_is_trimmed_before_parsing() {
    assert_eq!(parse_control_message("  {\"type\":\"kill\"}\n"), Some(ControlMessage::Kill));
    assert_eq!(parse_control_message("  hi there \n"), Some(ControlMessage::UserMessage("hi there".to_string())));
}

#[test]
fn user_message_without_text_is_empty() {
    assert_eq!(
        parse_control_message(r#"{"type":"user_message"}"#),
        Some(ControlMessage::UserMessage(String::new()))
    );
}

#[test]
fn json_that_is_not_an_object_is_ignored() {
    assert!(parse_control_message("42").is_none());
}

#[test]
fn fields_decide_the_message() {
    let fields = ControlFields {
        kind: Some("permission_response".to_string()),
        text: None,
        allowed: None,
        allow_for_session: Some(true),
        reason: None,
    };
    assert_eq!(
        control_message_from("{}", Some(fields)),
        Some(ControlMessage::PermissionResponse {
            response: PermissionResponse::Deny(String::new()),
            allow_for_session: true,
        })
    );
    assert_eq!(control_message_from("plain", None), Some(ControlMessage::UserMessage("plain".to_string())));
}
