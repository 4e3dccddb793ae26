use twitch_archiver::util::make_string_url_friendly;

#[test]
fn every_reserved_character_gets_its_escape() {
    let table = [
        ("!", "%21"),
        ("\"", "%22"),
        ("$", "%24"),
        ("'", "%27"),
        ("(", "%28"),
        (")", "%29"),
        ("*", "%2A"),
        ("+", "%2B"),
        (",", "%2C"),
        ("-", "%2D"),
        (".", "%2E"),
        ("/", "%2F"),
        (":", "%3A"),
        (";", "%3B"),
        ("@", "%40"),
        ("[", "%5B"),
        ("\\", "%5C"),
        ("]", "%5D"),
        ("{", "%7B"),
        ("}", "%7D"),
    ];
    for (input, expected) in table {
        assert_eq!(make_string_url_friendly(input), expected);
    }
}

#[test]
fn the_whole_reserved_table_in_one_string() {
    assert_eq!(
        make_string_url_friendly("!\"$'()*+,-./:;@[\\]{}"),
        "%21%22%24%27%28%29%2A%2B%2C%2D%2E%2F%3A%3B%40%5B%5C%5D%7B%7D"
    );
}

#[test]
fn unreserved_characters_pass_through() {
    assert_eq!(make_string_url_friendly("abc XYZ 019"), "abc XYZ 019");
    assert_eq!(make_string_url_friendly("&="), "&=");
    assert_eq!(make_string_url_friendly(""), "");
    assert_eq!(make_string_url_friendly("caf\u{e9}\u{1f600}"), "caf\u{e9}\u{1f600}");
}

#[test]
fn encoding_is_idempotent_without_reserved_characters() {
    let once = make_string_url_friendly("token ABC 123 &=?");
    let twice = make_string_url_friendly(&once);
    assert_eq!(once, twice);
    assert_eq!(once, "token ABC 123 &=?");
}

#[test]
fn mixed_input_encodes_only_the_table() {
    assert_eq!(make_string_url_friendly("a,b/c:d"), "a%2Cb%2Fc%3Ad");
    assert_eq!(
        make_string_url_friendly("{\"sig\":\"x.y\"}"),
        "%7B%22sig%22%3A%22x%2Ey%22%7D"
    );
}
