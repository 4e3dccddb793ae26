use twitch_archiver::error::ErrorKind;
use twitch_archiver::twitch::Twitch;

#[test]
fn url_with_scheme_and_www() {
    let r = Twitch::parse_id_from_url("https://www.twitch.tv/videos/1234").unwrap();
    assert_eq!(r, "1234");
}

#[test]
fn url_plain_http() {
    let r = Twitch::parse_id_from_url("http://twitch.tv/videos/987654321").unwrap();
    assert_eq!(r, "987654321");
}

#[test]
fn url_http_with_www() {
    let r = Twitch::parse_id_from_url("http://www.twitch.tv/videos/42").unwrap();
    assert_eq!(r, "42");
}

#[test]
fn url_https_without_www() {
    let r = Twitch::parse_id_from_url("https://twitch.tv/videos/7").unwrap();
    assert_eq!(r, "7");
}

#[test]
fn url_with_trailing_text_is_rejected() {
    let e = Twitch::parse_id_from_url("https://www.twitch.tv/videos/55?t=1h2m3s").unwrap_err();
    assert_eq!(e.kind, ErrorKind::InvalidIdentifier);
    let e = Twitch::parse_id_from_url("https://twitch.tv/videos/1a").unwrap_err();
    assert_eq!(e.kind, ErrorKind::InvalidIdentifier);
}

#[test]
fn bare_numeric_id_is_returned_unchanged() {
    let r = Twitch::parse_id_from_url("123456").unwrap();
    assert_eq!(r, "123456");
}

#[test]
fn zero_is_a_valid_id() {
    let r = Twitch::parse_id_from_url("0").unwrap();
    assert_eq!(r, "0");
}

#[test]
fn numeric_ids_have_no_magnitude_bound() {
    let r = Twitch::parse_id_from_url("18446744073709551616").unwrap();
    assert_eq!(r, "18446744073709551616");
    let huge = "9".repeat(100);
    let r = Twitch::parse_id_from_url(&huge).unwrap();
    assert_eq!(r, huge);
}

#[test]
fn leading_zeros_are_kept() {
    let r = Twitch::parse_id_from_url("000123").unwrap();
    assert_eq!(r, "000123");
}

#[test]
fn plain_word_is_rejected() {
    let e = Twitch::parse_id_from_url("hello").unwrap_err();
    assert_eq!(e.kind, ErrorKind::InvalidIdentifier);
}

#[test]
fn empty_input_is_rejected() {
    let e = Twitch::parse_id_from_url("").unwrap_err();
    assert_eq!(e.kind, ErrorKind::InvalidIdentifier);
}

#[test]
fn mixed_digits_and_letters_are_rejected() {
    let e = Twitch::parse_id_from_url("12a3").unwrap_err();
    assert_eq!(e.kind, ErrorKind::InvalidIdentifier);
}

#[test]
fn url_without_digits_is_rejected() {
    let e = Twitch::parse_id_from_url("https://www.twitch.tv/videos/").unwrap_err();
    assert_eq!(e.kind, ErrorKind::InvalidIdentifier);
}

#[test]
fn url_without_scheme_is_rejected() {
    let e = Twitch::parse_id_from_url("twitch.tv/videos/123").unwrap_err();
    assert_eq!(e.kind, ErrorKind::InvalidIdentifier);
}

#[test]
fn other_host_is_rejected() {
    let e = Twitch::parse_id_from_url("https://example.com/videos/123").unwrap_err();
    assert_eq!(e.kind, ErrorKind::InvalidIdentifier);
}

#[test]
fn invalid_identifier_message_names_both_forms() {
    let e = Twitch::parse_id_from_url("nonsense").unwrap_err();
    assert_eq!(e.message, "Please enter a valid url or vod ID.");
}

#[test]
fn signs_and_spaces_are_not_digits() {
    let e = Twitch::parse_id_from_url("+1").unwrap_err();
    assert_eq!(e.kind, ErrorKind::InvalidIdentifier);
    let e = Twitch::parse_id_from_url("1 2").unwrap_err();
    assert_eq!(e.kind, ErrorKind::InvalidIdentifier);
}
