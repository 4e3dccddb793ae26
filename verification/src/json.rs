//! Trusted access to the token endpoint's JSON answer.
//!
//! The answer is parsed and navigated through serde_json. What that chain
//! extracts is a function of the body text alone, so the two fields are
//! given names here; the callers state their contracts over those names, and
//! verified code decides what each combination of fields yields.

use vstd::prelude::*;

verus! {

/// The string under `data.videoPlaybackAccessToken.signature` in the body,
/// read as a JSON document; `None` when the body does not parse, the path is
/// absent, or the field is not a string.
pub uninterp spec fn auth_sig_of(body: Seq<char>) -> Option<Seq<char>>;

/// The string under `data.videoPlaybackAccessToken.value`, likewise.
pub uninterp spec fn auth_val_of(body: Seq<char>) -> Option<Seq<char>>;

/// Relies on serde_json's from_str, Value::get and Value::as_str: parses the
/// body and extracts `data.videoPlaybackAccessToken.{signature,value}`. A
/// field is `None` when the body is not JSON that serde_json accepts (it
/// also cuts off overly deep nesting), the path is absent, or the field is
/// not a string; the result depends on the body text alone.
#[verifier::external_body]
pub(crate) fn extract_auth_fields(body: &str) -> (r: (Option<String>, Option<String>))
    ensures
        (r.0 is Some) == (auth_sig_of(body@) is Some),
        r.0 matches Some(s) ==> auth_sig_of(body@) == Some(s@),
        (r.1 is Some) == (auth_val_of(body@) is Some),
        r.1 matches Some(v) ==> auth_val_of(body@) == Some(v@),
{
    let root: serde_json::Value = match serde_json::from_str(body) {
        Ok(v) => v,
        Err(_) => return (None, None),
    };
    let access = match root.get("data").and_then(|d| d.get("videoPlaybackAccessToken")) {
        Some(a) => a,
        None => return (None, None),
    };
    let sig = access.get("signature").and_then(|s| s.as_str()).map(str::to_owned);
    let val = access.get("value").and_then(|v| v.as_str()).map(str::to_owned);
    (sig, val)
}

} // verus!
