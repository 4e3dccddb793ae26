//! Rewriting the fetched HLS manifest so no rendition is excluded.
//!
//! The platform marks alternate renditions `AUTOSELECT=NO,DEFAULT=NO`, which
//! makes the downstream converter ignore them. Every occurrence of that exact
//! byte sequence is replaced with `AUTOSELECT=YES,DEFAULT=YES`. This is a
//! literal substring substitution on the manifest bytes; the playlist grammar
//! is deliberately not parsed.

use vstd::prelude::*;

verus! {

/// The byte sequence that marks a rendition as excluded:
/// `AUTOSELECT=NO,DEFAULT=NO`.
pub open spec fn patch_from() -> Seq<u8> {
    seq![
        'A' as u8, 'U' as u8, 'T' as u8, 'O' as u8, 'S' as u8, 'E' as u8, 'L' as u8, 'E' as u8,
        'C' as u8, 'T' as u8, '=' as u8, 'N' as u8, 'O' as u8, ',' as u8, 'D' as u8, 'E' as u8,
        'F' as u8, 'A' as u8, 'U' as u8, 'L' as u8, 'T' as u8, '=' as u8, 'N' as u8, 'O' as u8,
    ]
}

/// What it is replaced with: `AUTOSELECT=YES,DEFAULT=YES`.
pub open spec fn patch_to() -> Seq<u8> {
    seq![
        'A' as u8, 'U' as u8, 'T' as u8, 'O' as u8, 'S' as u8, 'E' as u8, 'L' as u8, 'E' as u8,
        'C' as u8, 'T' as u8, '=' as u8, 'Y' as u8, 'E' as u8, 'S' as u8, ',' as u8, 'D' as u8,
        'E' as u8, 'F' as u8, 'A' as u8, 'U' as u8, 'L' as u8, 'T' as u8, '=' as u8, 'Y' as u8,
        'E' as u8, 'S' as u8,
    ]
}

/// The manifest after patching: every occurrence of the excluded-rendition
/// marker replaced, scanning left to right without overlap.
pub open spec fn patched(s: Seq<u8>) -> Seq<u8>
    decreases s.len(),
{
    if patch_from().is_prefix_of(s) {
        patch_to() + patched(s.skip(patch_from().len() as int))
    } else if s.len() == 0 {
        s
    } else {
        seq![s[0]] + patched(s.skip(1))
    }
}

/// The marker occurs somewhere in the manifest.
pub open spec fn has_excluded_marker(s: Seq<u8>) -> bool {
    exists|i: int| 0 <= i < s.len() && patch_from().is_prefix_of(#[trigger] s.skip(i))
}

/// Patching a manifest without the marker is a no-op.
pub proof fn lemma_patch_noop(s: Seq<u8>)
    requires
        !has_excluded_marker(s),
    ensures
        patched(s) == s,
    decreases s.len(),
{
    if s.len() == 0 {
    } else {
        assert(s.skip(0) =~= s);
        assert(!patch_from().is_prefix_of(s.skip(0)));
        assert(forall|i: int|
            0 <= i < s.skip(1).len() ==> #[trigger] s.skip(1).skip(i) =~= s.skip(i + 1));
        assert(!has_excluded_marker(s.skip(1)));
        lemma_patch_noop(s.skip(1));
        assert(seq![s[0]] + s.skip(1) =~= s);
    }
}

/// Whether `pat` occurs in `v` starting at position `i`.
fn bytes_match_at(v: &Vec<u8>, i: usize, pat: &Vec<u8>) -> (b: bool)
    requires
        i <= v@.len(),
    ensures
        b == pat@.is_prefix_of(v@.skip(i as int)),
{
    let n = v.len();
    let m = pat.len();
    if n - i < m {
        return false;
    }
    let mut j: usize = 0;
    while j < m
        invariant
            j <= m,
            m == pat@.len(),
            n == v@.len(),
            i + m <= n,
            forall|k: int| 0 <= k < j ==> v@[i + k] == pat@[k],
        decreases m - j,
    {
        if v[i + j] != pat[j] {
            proof {
                assert(v@.skip(i as int)[j as int] != pat@[j as int]);
            }
            return false;
        }
        j += 1;
    }
    proof {
        assert(pat@ =~= v@.skip(i as int).subrange(0, m as int));
    }
    true
}

/// The excluded-rendition marker as bytes.
fn patch_from_vec() -> (v: Vec<u8>)
    ensures
        v@ == patch_from(),
{
    let v: Vec<u8> = vec![
        'A' as u8, 'U' as u8, 'T' as u8, 'O' as u8, 'S' as u8, 'E' as u8, 'L' as u8, 'E' as u8,
        'C' as u8, 'T' as u8, '=' as u8, 'N' as u8, 'O' as u8, ',' as u8, 'D' as u8, 'E' as u8,
        'F' as u8, 'A' as u8, 'U' as u8, 'L' as u8, 'T' as u8, '=' as u8, 'N' as u8, 'O' as u8,
    ];
    proof {
        assert(v@ =~= patch_from());
    }
    v
}

/// Its replacement as bytes.
fn patch_to_vec() -> (v: Vec<u8>)
    ensures
        v@ == patch_to(),
{
    let v: Vec<u8> = vec![
        'A' as u8, 'U' as u8, 'T' as u8, 'O' as u8, 'S' as u8, 'E' as u8, 'L' as u8, 'E' as u8,
        'C' as u8, 'T' as u8, '=' as u8, 'Y' as u8, 'E' as u8, 'S' as u8, ',' as u8, 'D' as u8,
        'E' as u8, 'F' as u8, 'A' as u8, 'U' as u8, 'L' as u8, 'T' as u8, '=' as u8, 'Y' as u8,
        'E' as u8, 'S' as u8,
    ];
    proof {
        assert(v@ =~= patch_to());
    }
    v
}

/// Rewrites the manifest so every rendition stays selectable: a literal
/// replacement of each occurrence of `AUTOSELECT=NO,DEFAULT=NO` with
/// `AUTOSELECT=YES,DEFAULT=YES`.
pub fn patch_manifest(input: &Vec<u8>) -> (r: Vec<u8>)
    ensures
        r@ == patched(input@),
{
    let from = patch_from_vec();
    let to = patch_to_vec();
    let n = input.len();
    let mut out: Vec<u8> = Vec::new();
    let mut i: usize = 0;
    proof {
        assert(input@.skip(0) =~= input@);
        assert(out@ + patched(input@) =~= patched(input@));
    }
    while i < n
        invariant
            i <= n,
            n == input@.len(),
            from@ == patch_from(),
            to@ == patch_to(),
            patched(input@) == out@ + patched(input@.skip(i as int)),
        decreases n - i,
    {
        let ghost rest = input@.skip(i as int);
        let ghost out_before = out@;
        if bytes_match_at(input, i, &from) {
            out.extend_from_slice(to.as_slice());
            proof {
                assert(rest.skip(patch_from().len() as int) =~= input@.skip(
                    i + patch_from().len()));
                assert(patched(rest) == patch_to() + patched(
                    input@.skip(i + patch_from().len())));
                assert((out_before + patch_to()) + patched(input@.skip(i + patch_from().len()))
                    =~= out_before + (patch_to() + patched(input@.skip(i + patch_from().len()))));
            }
            i = i + from.len();
        } else {
            out.push(input[i]);
            proof {
                assert(rest.len() > 0);
                assert(rest[0] == input@[i as int]);
                assert(rest.skip(1) =~= input@.skip(i + 1));
                assert(patched(rest) == seq![input@[i as int]] + patched(input@.skip(i + 1)));
                assert(out_before.push(input@[i as int]) =~= out_before + seq![
                    input@[i as int]]);
                assert((out_before + seq![input@[i as int]]) + patched(input@.skip(i + 1))
                    =~= out_before + (seq![input@[i as int]] + patched(input@.skip(i + 1))));
            }
            i = i + 1;
        }
    }
    proof {
        assert(input@.skip(n as int) =~= Seq::<u8>::empty());
        assert(out@ + patched(Seq::<u8>::empty()) =~= out@);
    }
    out
}

} // verus!
