//! Resolving a user-supplied identifier into a canonical numeric video ID.
//!
//! An input is accepted either as a video URL that is exactly
//! `http(s)://[www.]twitch.tv/videos/<digits>` — the digits are extracted —
//! or, failing that, as a bare string of decimal digits, taken as the
//! identifier itself. Anything else is rejected. The URL form is tried
//! first; the numeric reading is only a fallback, so failure messages speak
//! of both.

use vstd::prelude::*;
use vstd::string::*;
use crate::error::{ErrorKind, TwitchError};
use crate::json::{auth_sig_of, auth_val_of, extract_auth_fields};
use crate::util::{dec_chars, encode_seq, make_string_url_friendly, u64_to_decimal};

verus! {

/// The endpoint the token request is posted to.
pub const TWITCH_GQL: &'static str = "https://gql.twitch.tv/gql";

/// What comes before the video ID in the fixed GraphQL request body.
pub const GQL_PAYLOAD_PREFIX: &'static str = r#"{"operationName":"PlaybackAccessToken_Template","query":"query PlaybackAccessToken_Template($login: String!, $isLive: Boolean!, $vodID: ID!, $isVod: Boolean!, $playerType: String!) {  streamPlaybackAccessToken(channelName: $login, params: {platform: \"web\", playerBackend: \"mediaplayer\", playerType: $playerType}) @include(if: $isLive) {    value    signature    __typename  }  videoPlaybackAccessToken(id: $vodID, params: {platform: \"web\", playerBackend: \"mediaplayer\", playerType: $playerType}) @include(if: $isVod) {    value    signature    __typename  }}","variables":{"isLive":false,"login":"","isVod":true,"vodID":""#;

/// What comes after the video ID in the fixed GraphQL request body.
pub const GQL_PAYLOAD_SUFFIX: &'static str = r#"","playerType":"site"}}"#;

/// Base of the signed playlist URL.
pub const TWITCH_VOD: &'static str = "https://usher.ttvnw.net/vod/";

/// A decimal digit.
pub open spec fn is_digit(c: char) -> bool {
    '0' <= c && c <= '9'
}

/// Every character of the string is a decimal digit.
pub open spec fn all_digits(s: Seq<char>) -> bool {
    forall|i: int| 0 <= i < s.len() ==> is_digit(#[trigger] s[i])
}

/// Where the scheme part of a video URL ends: after `https://` or `http://`,
/// the secure form tried first; negative when neither is present.
pub open spec fn scheme_prefix_len(s: Seq<char>) -> int {
    if "https://"@.is_prefix_of(s) {
        "https://"@.len() as int
    } else if "http://"@.is_prefix_of(s) {
        "http://"@.len() as int
    } else {
        -1
    }
}

/// Where the host part starts, skipping an optional `www.` after position `i`.
pub open spec fn after_www(s: Seq<char>, i: int) -> int {
    if "www."@.is_prefix_of(s.skip(i)) {
        i + "www."@.len()
    } else {
        i
    }
}

/// Where the identifier's digits begin in a video URL; negative when the
/// string does not carry the `http(s)://[www.]twitch.tv/videos/` shape.
pub open spec fn vod_id_start(s: Seq<char>) -> int {
    let sl = scheme_prefix_len(s);
    if sl < 0 {
        -1
    } else {
        let h = after_www(s, sl);
        if "twitch.tv/videos/"@.is_prefix_of(s.skip(h)) {
            h + "twitch.tv/videos/"@.len()
        } else {
            -1
        }
    }
}

/// The string is a video URL: the pattern's prefix is present and the whole
/// rest of the string is its identifier, at least one decimal digit.
pub open spec fn is_vod_url(s: Seq<char>) -> bool {
    let d = vod_id_start(s);
    0 <= d < s.len() && all_digits(s.skip(d))
}

/// The digits a video URL carries: everything after the prefix.
pub open spec fn vod_url_id(s: Seq<char>) -> Seq<char> {
    s.skip(vod_id_start(s))
}

/// What a video URL resolves to is a well-formed identifier: a non-empty
/// string of decimal digits.
pub proof fn lemma_vod_url_id_digits(s: Seq<char>)
    requires
        is_vod_url(s),
    ensures
        vod_url_id(s).len() > 0,
        all_digits(vod_url_id(s)),
{
}

/// Whether `pat` occurs in `s` starting at character position `i`.
fn starts_with_at(s: &str, i: usize, pat: &str) -> (b: bool)
    requires
        i <= s@.len(),
    ensures
        b == pat@.is_prefix_of(s@.skip(i as int)),
{
    let n = s.unicode_len();
    let m = pat.unicode_len();
    if n - i < m {
        return false;
    }
    let mut j: usize = 0;
    while j < m
        invariant
            j <= m,
            m == pat@.len(),
            n == s@.len(),
            i + m <= n,
            forall|k: int| 0 <= k < j ==> s@[i + k] == pat@[k],
        decreases m - j,
    {
        if s.get_char(i + j) != pat.get_char(j) {
            proof {
                assert(s@.skip(i as int)[j as int] != pat@[j as int]);
            }
            return false;
        }
        j += 1;
    }
    proof {
        assert(pat@ =~= s@.skip(i as int).subrange(0, m as int));
    }
    true
}

/// Whether the character of `s` at position `i` is a decimal digit.
fn digit_at(s: &str, i: usize) -> (b: bool)
    requires
        i < s@.len(),
    ensures
        b == is_digit(s@[i as int]),
{
    let c = s.get_char(i);
    '0' <= c && c <= '9'
}

/// Whether everything from position `from` to the end of `s` is decimal
/// digits, with at least one present.
fn digits_to_end(s: &str, from: usize) -> (b: bool)
    requires
        from <= s@.len(),
    ensures
        b == (from < s@.len() && all_digits(s@.skip(from as int))),
{
    let n = s.unicode_len();
    if from == n {
        return false;
    }
    let mut j = from;
    while j < n
        invariant
            from <= j <= n,
            n == s@.len(),
            forall|k: int| from <= k < j ==> is_digit(#[trigger] s@[k]),
        decreases n - j,
    {
        if !digit_at(s, j) {
            proof {
                assert(s@.skip(from as int)[j - from] == s@[j as int]);
            }
            return false;
        }
        j += 1;
    }
    proof {
        assert forall|k: int| 0 <= k < s@.skip(from as int).len() implies is_digit(
            #[trigger] s@.skip(from as int)[k],
        ) by {
            assert(s@.skip(from as int)[k] == s@[from + k]);
        }
    }
    true
}

/// A signed playback authorization: the signature and the token value the
/// platform answers a token request with.
#[derive(Debug)]
pub struct VODAuthentication {
    pub signature: String,
    pub auth_token: String,
}

/// Per-request configuration of the platform client: the client ID sent with
/// every token request, and an optional stored bearer token.
pub struct Twitch {
    pub client_id: String,
    pub auth_token: Option<String>,
}

impl Twitch {
    /// Resolves a raw identifier or a video URL to the canonical numeric ID.
    ///
    /// A URL that is exactly `http(s)://[www.]twitch.tv/videos/<digits>`
    /// yields those digits; otherwise a nonempty string of decimal digits is
    /// returned unchanged; anything else is rejected as an invalid
    /// identifier.
    pub fn parse_id_from_url<'a>(url: &'a str) -> (r: Result<&'a str, TwitchError>)
        ensures
            is_vod_url(url@) ==> (r matches Ok(id) && id@ == vod_url_id(url@)),
            !is_vod_url(url@) && url@.len() > 0 && all_digits(url@) ==> (r matches Ok(id) && id@
                == url@),
            !is_vod_url(url@) && !(url@.len() > 0 && all_digits(url@)) ==> (r matches Err(e)
                && e.kind == ErrorKind::InvalidIdentifier && e.message@
                == "Please enter a valid url or vod ID."@),
    {
        let n = url.unicode_len();
        proof {
            assert(url@.skip(0) =~= url@);
        }
        let mut pos: usize = 0;
        let mut scheme_ok = false;
        if starts_with_at(url, 0, "https://") {
            scheme_ok = true;
            pos = "https://".unicode_len();
        } else if starts_with_at(url, 0, "http://") {
            scheme_ok = true;
            pos = "http://".unicode_len();
        }
        if scheme_ok {
            proof {
                assert(pos == scheme_prefix_len(url@));
                assert(pos <= url@.len());
            }
            if starts_with_at(url, pos, "www.") {
                pos = pos + "www.".unicode_len();
            }
            proof {
                assert(pos == after_www(url@, scheme_prefix_len(url@)));
                assert(pos <= url@.len());
            }
            if starts_with_at(url, pos, "twitch.tv/videos/") {
                pos = pos + "twitch.tv/videos/".unicode_len();
                proof {
                    assert(pos == vod_id_start(url@));
                }
                if digits_to_end(url, pos) {
                    let id = url.substring_char(pos, n);
                    proof {
                        assert(url@.subrange(pos as int, n as int) =~= url@.skip(pos as int));
                    }
                    return Ok(id);
                }
            }
        }
        if digits_to_end(url, 0) {
            Ok(url)
        } else {
            Err(
                TwitchError::with_msg(
                    ErrorKind::InvalidIdentifier,
                    String::from_str("Please enter a valid url or vod ID."),
                ),
            )
        }
    }
}

/// The `Authorization` header value: `OAuth <token>` when a bearer token is
/// available — a per-call override winning over the stored one — and the
/// explicit sentinel `undefined` when none is.
pub open spec fn auth_header_spec(
    bearer_override: Option<Seq<char>>,
    stored: Option<Seq<char>>,
) -> Seq<char> {
    match bearer_override {
        Some(t) => "OAuth "@ + t,
        None => match stored {
            Some(t) => "OAuth "@ + t,
            None => "undefined"@,
        },
    }
}

/// The fixed GraphQL request body with the video ID substituted.
pub open spec fn token_payload(id: Seq<char>) -> Seq<char> {
    GQL_PAYLOAD_PREFIX@ + id + GQL_PAYLOAD_SUFFIX@
}

impl Twitch {
    /// A client with the given client ID and optional stored bearer token.
    pub fn new(client_id: String, auth_token: Option<String>) -> (r: Twitch)
        ensures
            r.client_id == client_id,
            r.auth_token == auth_token,
    {
        Twitch { client_id, auth_token }
    }

    /// Replaces the stored bearer token.
    pub fn set_auth_token(&mut self, auth_token: Option<String>)
        ensures
            final(self).auth_token == auth_token,
            final(self).client_id == old(self).client_id,
    {
        self.auth_token = auth_token;
    }

    /// Builds the `Authorization` header for a token request.
    pub fn auth_header(&self, bearer_override: Option<&str>) -> (r: String)
        ensures
            r@ == auth_header_spec(
                match bearer_override {
                    Some(t) => Some(t@),
                    None => None,
                },
                match self.auth_token {
                    Some(t) => Some(t@),
                    None => None,
                },
            ),
    {
        match bearer_override {
            Some(t) => {
                let mut s = String::from_str("OAuth ");
                s.append(t);
                s
            },
            None => match &self.auth_token {
                Some(t) => {
                    let mut s = String::from_str("OAuth ");
                    s.append(t.as_str());
                    s
                },
                None => String::from_str("undefined"),
            },
        }
    }
}

/// Builds the fixed GraphQL request body with the video ID substituted into
/// the `vodID` variable.
pub fn build_token_payload(vod_id: &str) -> (r: String)
    ensures
        r@ == token_payload(vod_id@),
{
    let mut s = String::from_str(GQL_PAYLOAD_PREFIX);
    s.append(vod_id);
    s.append(GQL_PAYLOAD_SUFFIX);
    proof {
        assert(s@ =~= token_payload(vod_id@));
    }
    s
}

/// Builds a playback authorization from the two extracted response fields;
/// fails exactly when one is missing, naming the first missing field.
pub fn authorization_from_fields(
    signature: Option<String>,
    value: Option<String>,
) -> (r: Result<VODAuthentication, TwitchError>)
    ensures
        signature matches Some(s) ==> (value matches Some(v) ==> (r matches Ok(a) && a.signature
            == s && a.auth_token == v)),
        signature is None ==> (r matches Err(e) && e.kind == ErrorKind::MalformedAuthResponse
            && e.message@ == "Auth signature was not present in response!"@),
        signature is Some && value is None ==> (r matches Err(e) && e.kind
            == ErrorKind::MalformedAuthResponse && e.message@
            == "Auth value was not present in response!"@),
{
    match signature {
        None => Err(
            TwitchError::with_msg(
                ErrorKind::MalformedAuthResponse,
                String::from_str("Auth signature was not present in response!"),
            ),
        ),
        Some(s) => match value {
            None => Err(
                TwitchError::with_msg(
                    ErrorKind::MalformedAuthResponse,
                    String::from_str("Auth value was not present in response!"),
                ),
            ),
            Some(v) => Ok(VODAuthentication { signature: s, auth_token: v }),
        },
    }
}

/// Locates `data.videoPlaybackAccessToken.{signature,value}` in the token
/// endpoint's answer: the authorization exactly when both named fields are
/// present, else the specific missing-field error.
pub fn parse_auth_response(body: &str) -> (r: Result<VODAuthentication, TwitchError>)
    ensures
        (r is Ok) <==> (auth_sig_of(body@) is Some && auth_val_of(body@) is Some),
        r matches Ok(a) ==> auth_sig_of(body@) == Some(a.signature@) && auth_val_of(body@)
            == Some(a.auth_token@),
        auth_sig_of(body@) is None ==> (r matches Err(e) && e.kind
            == ErrorKind::MalformedAuthResponse && e.message@
            == "Auth signature was not present in response!"@),
        auth_sig_of(body@) is Some && auth_val_of(body@) is None ==> (r matches Err(e) && e.kind
            == ErrorKind::MalformedAuthResponse && e.message@
            == "Auth value was not present in response!"@),
{
    let (signature, value) = extract_auth_fields(body);
    authorization_from_fields(signature, value)
}

/// The message of a failed token request, carrying the upstream status and
/// body detail.
pub open spec fn auth_failed_message(status: nat, detail: Seq<char>) -> Seq<char> {
    "Token request failed with status "@ + dec_chars(status) + ":\n"@ + detail
}

/// Whether an HTTP status means success.
pub open spec fn status_success(status: u16) -> bool {
    200 <= status < 300
}

/// Interprets the token endpoint's answer: a non-success status fails with
/// the status and body folded into the message; a success answer is parsed
/// for the signature/value pair, which is returned exactly when both named
/// fields are present in the body.
pub fn get_auth_outcome(status: u16, body: &str) -> (r: Result<VODAuthentication, TwitchError>)
    ensures
        !status_success(status) ==> (r matches Err(e) && e.kind == ErrorKind::AuthRequestFailed
            && e.message@ == auth_failed_message(status as nat, body@)),
        status_success(status) ==> ((r is Ok) <==> (auth_sig_of(body@) is Some && auth_val_of(
            body@,
        ) is Some)),
        status_success(status) ==> (r matches Ok(a) ==> auth_sig_of(body@) == Some(a.signature@)
            && auth_val_of(body@) == Some(a.auth_token@)),
        status_success(status) ==> (r matches Err(e) ==> e.kind
            == ErrorKind::MalformedAuthResponse),
{
    if !(200 <= status && status < 300) {
        let mut m = String::from_str("Token request failed with status ");
        let d = u64_to_decimal(status as u64);
        m.append(d.as_str());
        m.append(":\n");
        m.append(body);
        proof {
            assert(m@ =~= auth_failed_message(status as nat, body@));
        }
        return Err(TwitchError::with_msg(ErrorKind::AuthRequestFailed, m));
    }
    parse_auth_response(body)
}

/// The signed playlist URL: base, ID, fixed query flags, the signature, and
/// the URL-safe encoding of the token value.
pub open spec fn playlist_url(id: Seq<char>, sig: Seq<char>, token: Seq<char>) -> Seq<char> {
    TWITCH_VOD@ + id + ".m3u8?allow_source=true&sig="@ + sig + "&token="@ + encode_seq(token)
}

/// Constructs the signed playlist URL for a video and its authorization.
pub fn build_playlist_url(id: &str, auth: &VODAuthentication) -> (r: String)
    ensures
        r@ == playlist_url(id@, auth.signature@, auth.auth_token@),
{
    let mut s = String::from_str(TWITCH_VOD);
    s.append(id);
    s.append(".m3u8?allow_source=true&sig=");
    s.append(auth.signature.as_str());
    s.append("&token=");
    let tok = make_string_url_friendly(auth.auth_token.as_str());
    s.append(tok.as_str());
    proof {
        assert(s@ =~= playlist_url(id@, auth.signature@, auth.auth_token@));
    }
    s
}

/// The message of a failed playlist fetch, carrying the upstream status and
/// a body snippet.
pub open spec fn manifest_failed_message(status: nat, detail: Seq<char>) -> Seq<char> {
    "Could not download VOD. Error: status "@ + dec_chars(status) + "\n"@ + detail
}

/// Interprets the playlist fetch's status: success passes, anything else
/// fails with the upstream status and body detail kept in the message.
pub fn manifest_fetch_outcome(status: u16, detail: &str) -> (r: Result<(), TwitchError>)
    ensures
        (r is Ok) <==> status_success(status),
        r matches Err(e) ==> e.kind == ErrorKind::ManifestFetchFailed && e.message@
            == manifest_failed_message(status as nat, detail@),
{
    if 200 <= status && status < 300 {
        Ok(())
    } else {
        let mut m = String::from_str("Could not download VOD. Error: status ");
        let d = u64_to_decimal(status as u64);
        m.append(d.as_str());
        m.append("\n");
        m.append(detail);
        proof {
            assert(m@ =~= manifest_failed_message(status as nat, detail@));
        }
        Err(TwitchError::with_msg(ErrorKind::ManifestFetchFailed, m))
    }
}

} // verus!
