use reforum::cookie::{decode, encode, session_from_cookie};
use reforum::role::UserRole;
use reforum::session::SessionData;

fn data(user_id: i64, session_id: &str, role: UserRole) -> SessionData {
    SessionData { user_id, session_id: session_id.to_string(), role }
}

fn round_trip(d: &SessionData) {
    let text = encode(d);
    let back = decode(&text).expect("payload decodes");
    assert_eq!(back.user_id, d.user_id);
    assert_eq!(back.session_id, d.session_id);
    assert_eq!(back.role, d.role);
}

#[test]
fn payload_is_json_of_the_session() {
    let d = data(42, "V1StGXR8_Z5jdHi6B-myT", UserRole::Moderator);
    assert_eq!(encode(&d), r#"{"user_id":42,"session_id":"V1StGXR8_Z5jdHi6B-myT","role":"Moderator"}"#);
    let parsed: serde_json::Value = serde_json::from_str(&encode(&d)).unwrap();
    assert_eq!(parsed["user_id"], 42);
    assert_eq!(parsed["session_id"], "V1StGXR8_Z5jdHi6B-myT");
    assert_eq!(parsed["role"], "Moderator");
}

#[test]
fn payload_round_trips() {
    round_trip(&data(1, "abc", UserRole::Admin));
    round_trip(&data(0, "", UserRole::Banned));
    round_trip(&data(-7, "quote\"and\\slash", UserRole::Viewer));
    round_trip(&data(i64::MAX, "x", UserRole::Author));
    round_trip(&data(i64::MIN, "\\\"", UserRole::Moderator));
    round_trip(&data(123, "ünïcødé ✓", UserRole::Author));
    round_trip(&data(8, "line\nbreak\ttab\u{0}nul\u{1f}", UserRole::Viewer));
}

#[test]
fn escapes_quotes_and_backslashes() {
    let d = data(5, "a\"b\\c", UserRole::Viewer);
    assert_eq!(encode(&d), r#"{"user_id":5,"session_id":"a\"b\\c","role":"Viewer"}"#);
}

#[test]
fn malformed_payload_is_anonymous() {
    for bad in [
        "",
        "not json",
        r#"{"user_id":5,"session_id":"a","role":"Owner"}"#,
        r#"{"user_id":05,"session_id":"a","role":"Author"}"#,
        r#"{"user_id":5,"session_id":"a","role":"Author"} "#,
        r#"{"user_id":99999999999999999999,"session_id":"a","role":"Author"}"#,
        r#"{"user_id":5,"session_id":"a,"role":"Author"}"#,
    ] {
        assert!(decode(bad).is_none(), "{bad}");
        assert!(session_from_cookie(Some(bad)).is_anonymous());
    }
    assert!(session_from_cookie(None).is_anonymous());
}

#[test]
fn cookie_gives_authenticated_handle() {
    let d = data(9, "sid", UserRole::Author);
    let text = encode(&d);
    let s = session_from_cookie(Some(&text));
    assert_eq!(s.user_id(), Some(9));
    assert!(s.is_author());
}

#[test]
fn control_characters_are_escaped_as_json_requires() {
    let d = data(2, "a\nb\u{1}", UserRole::Author);
    let text = encode(&d);
    assert_eq!(text, r#"{"user_id":2,"session_id":"a\u000ab\u0001","role":"Author"}"#);
    let parsed: serde_json::Value = serde_json::from_str(&text).unwrap();
    assert_eq!(parsed["session_id"], "a\nb\u{1}");
}

#[test]
fn raw_control_characters_are_not_a_payload() {
    let raw = "{\"user_id\":2,\"session_id\":\"a\nb\",\"role\":\"Author\"}";
    assert!(serde_json::from_str::<serde_json::Value>(raw).is_err());
    assert!(decode(raw).is_none());
    assert!(session_from_cookie(Some(raw)).is_anonymous());
    // other escapes than the ones the encoder writes are not accepted either
    assert!(decode(r#"{"user_id":2,"session_id":"a\u000Ab","role":"Author"}"#).is_none());
}
