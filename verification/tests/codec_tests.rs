use shoulders::codec::{complete_content, encode_message, execute_content, split_frames};
use shoulders::crypto::compute_signature;

#[test]
fn encode_lays_out_six_frames() {
    let msg = encode_message(
        "execute_request",
        "sess1",
        "mid1",
        "2024-01-02T03:04:05Z",
        "{}",
        "",
    );
    assert_eq!(msg.frames.len(), 6);
    assert_eq!(msg.frames[0], "<IDS|MSG>");
    assert_eq!(msg.frames[1], "");
    assert_eq!(
        msg.frames[2],
        "{\"msg_id\":\"mid1\",\"session\":\"sess1\",\"username\":\"shoulders\",\
         \"date\":\"2024-01-02T03:04:05Z\",\"msg_type\":\"execute_request\",\"version\":\"5.3\"}"
    );
    assert_eq!(msg.frames[3], "{}");
    assert_eq!(msg.frames[4], "{}");
    assert_eq!(msg.frames[5], "{}");
}

#[test]
fn execute_content_is_canonical() {
    assert_eq!(
        execute_content("print(1)"),
        "{\"allow_stdin\":false,\"code\":\"print(1)\",\"silent\":false,\
         \"stop_on_error\":true,\"store_history\":true,\"user_expressions\":{}}"
    );
}

#[test]
fn content_escapes_quotes_and_newlines() {
    assert_eq!(
        complete_content("ab\"c\nd", 3),
        "{\"code\":\"ab\\\"c\\nd\",\"cursor_pos\":3}"
    );
}

#[test]
fn signature_matches_published_hmac_vector() {
    // HMAC-SHA-256 with key "Jefe" over "what do ya want for nothing?",
    // here split across the four message parts.
    let sig = compute_signature("Jefe", "what do ya want ", "for nothing?", "", "");
    assert_eq!(
        sig,
        "5bdcc146bf60754e6a042426089575c75a003f089d2739839dec58b964ec3843"
    );
}

#[test]
fn empty_key_gives_empty_signature() {
    assert_eq!(compute_signature("", "a", "b", "c", "d"), "");
}

#[test]
fn signature_deterministic_for_equal_parts() {
    let a = encode_message("execute_request", "s", "m", "d", "{\"code\":\"x\"}", "secret");
    let b = encode_message("execute_request", "s", "m", "d", "{\"code\":\"x\"}", "secret");
    assert_eq!(a.frames[1], b.frames[1]);
    assert_eq!(a.frames[1].chars().count(), 64);
    let unsigned = encode_message("execute_request", "s", "m", "d", "{}", "");
    assert!(unsigned.frames[1].is_empty());
}

#[test]
fn encode_then_decode_round_trip() {
    let content = "{\"code\":\"print(\\\"hi\\\")\"}";
    let msg = encode_message("execute_request", "sess", "mid", "date", content, "key123");
    let parts = split_frames(&msg.frames).expect("decode");
    assert_eq!(parts.content, content);
    assert_eq!(parts.parent, "{}");
    assert_eq!(parts.metadata, "{}");
    assert_eq!(parts.header, msg.frames[2]);
    assert_eq!(parts.signature, msg.frames[1]);
    let msg_type = shoulders::jsonval::json_field_str(&parts.header, "msg_type");
    assert_eq!(msg_type.as_deref(), Some("execute_request"));
}

#[test]
fn split_skips_routing_frames() {
    let frames = vec![
        String::from("routing-id"),
        String::from("another"),
        String::from("<IDS|MSG>"),
        String::from("sig"),
        String::from("{\"msg_type\":\"status\"}"),
        String::from("{}"),
        String::from("{}"),
        String::from("{\"execution_state\":\"busy\"}"),
    ];
    let parts = split_frames(&frames).expect("decode");
    assert_eq!(parts.signature, "sig");
    assert_eq!(parts.content, "{\"execution_state\":\"busy\"}");
}

#[test]
fn split_rejects_missing_or_short_delimiter() {
    let frames = vec![String::from("a"), String::from("b")];
    assert!(split_frames(&frames).is_none());
    let short = vec![
        String::from("<IDS|MSG>"),
        String::from("sig"),
        String::from("{}"),
    ];
    assert!(split_frames(&short).is_none());
}
