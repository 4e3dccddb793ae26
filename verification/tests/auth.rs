use twitch_archiver::error::ErrorKind;
use twitch_archiver::twitch::{
    build_playlist_url, build_token_payload, get_auth_outcome, manifest_fetch_outcome, Twitch,
    VODAuthentication, GQL_PAYLOAD_PREFIX, GQL_PAYLOAD_SUFFIX,
};
use twitch_archiver::util::u64_to_decimal;

#[test]
fn successful_response_yields_signature_and_value() {
    let body = r#"{"data":{"videoPlaybackAccessToken":{"signature":"S","value":"V"}}}"#;
    let auth = get_auth_outcome(200, body).unwrap();
    assert_eq!(auth.signature, "S");
    assert_eq!(auth.auth_token, "V");
}

#[test]
fn unauthorized_status_fails_the_request() {
    let body = r#"{"error":"Unauthorized"}"#;
    let e = get_auth_outcome(401, body).unwrap_err();
    assert_eq!(e.kind, ErrorKind::AuthRequestFailed);
    assert!(e.message.contains("401"));
    assert!(e.message.contains("Unauthorized"));
}

#[test]
fn missing_signature_is_malformed() {
    let body = r#"{"data":{"videoPlaybackAccessToken":{"value":"V"}}}"#;
    let e = get_auth_outcome(200, body).unwrap_err();
    assert_eq!(e.kind, ErrorKind::MalformedAuthResponse);
    assert_eq!(e.message, "Auth signature was not present in response!");
}

#[test]
fn missing_value_is_malformed() {
    let body = r#"{"data":{"videoPlaybackAccessToken":{"signature":"S"}}}"#;
    let e = get_auth_outcome(200, body).unwrap_err();
    assert_eq!(e.kind, ErrorKind::MalformedAuthResponse);
    assert_eq!(e.message, "Auth value was not present in response!");
}

#[test]
fn non_string_fields_are_malformed() {
    let body = r#"{"data":{"videoPlaybackAccessToken":{"signature":7,"value":"V"}}}"#;
    let e = get_auth_outcome(200, body).unwrap_err();
    assert_eq!(e.kind, ErrorKind::MalformedAuthResponse);
}

#[test]
fn missing_token_object_is_malformed() {
    let body = r#"{"data":{}}"#;
    let e = get_auth_outcome(200, body).unwrap_err();
    assert_eq!(e.kind, ErrorKind::MalformedAuthResponse);
}

#[test]
fn invalid_json_is_malformed() {
    let e = get_auth_outcome(200, "not json at all").unwrap_err();
    assert_eq!(e.kind, ErrorKind::MalformedAuthResponse);
}

#[test]
fn payload_substitutes_the_video_id() {
    let p = build_token_payload("123");
    assert_eq!(p, format!("{}{}{}", GQL_PAYLOAD_PREFIX, "123", GQL_PAYLOAD_SUFFIX));
    assert!(p.contains(r#""vodID":"123""#));
    assert!(p.contains("PlaybackAccessToken_Template"));
}

#[test]
fn auth_header_prefers_the_override() {
    let tw = Twitch::new("cid".to_string(), Some("stored".to_string()));
    assert_eq!(tw.auth_header(Some("given")), "OAuth given");
    assert_eq!(tw.auth_header(None), "OAuth stored");
}

#[test]
fn auth_header_without_any_token_is_the_sentinel() {
    let tw = Twitch::new("cid".to_string(), None);
    assert_eq!(tw.auth_header(None), "undefined");
}

#[test]
fn stored_token_can_be_replaced() {
    let mut tw = Twitch::new("cid".to_string(), None);
    tw.set_auth_token(Some("t2".to_string()));
    assert_eq!(tw.auth_header(None), "OAuth t2");
    tw.set_auth_token(None);
    assert_eq!(tw.auth_header(None), "undefined");
    assert_eq!(tw.client_id, "cid");
}

#[test]
fn playlist_url_encodes_the_token() {
    let auth = VODAuthentication {
        signature: "abc".to_string(),
        auth_token: "a,b".to_string(),
    };
    let url = build_playlist_url("1", &auth);
    assert_eq!(
        url,
        "https://usher.ttvnw.net/vod/1.m3u8?allow_source=true&sig=abc&token=a%2Cb"
    );
}

#[test]
fn manifest_fetch_success_statuses() {
    assert!(manifest_fetch_outcome(200, "").is_ok());
    assert!(manifest_fetch_outcome(299, "").is_ok());
}

#[test]
fn manifest_fetch_failure_keeps_the_detail() {
    let e = manifest_fetch_outcome(403, "geo restricted").unwrap_err();
    assert_eq!(e.kind, ErrorKind::ManifestFetchFailed);
    assert!(e.message.contains("403"));
    assert!(e.message.contains("geo restricted"));
    let e = manifest_fetch_outcome(404, "").unwrap_err();
    assert_eq!(e.kind, ErrorKind::ManifestFetchFailed);
}

#[test]
fn decimal_rendering_is_exact() {
    assert_eq!(u64_to_decimal(0), "0");
    assert_eq!(u64_to_decimal(7), "7");
    assert_eq!(u64_to_decimal(401), "401");
    assert_eq!(u64_to_decimal(u64::MAX), "18446744073709551615");
}
