//! URL-safe encoding of token payloads, and decimal rendering for messages.
//!
//! The platform's access-token value is placed into a query string, so a
//! small fixed set of characters it is observed to contain is percent-encoded.
//! This is deliberately a narrow allow-list translation, not a general
//! percent-encoder: every character outside the table passes through
//! unchanged, including ones a general encoder would escape.

use vstd::prelude::*;
use vstd::string::*;

verus! {

/// The characters the encoder translates.
pub open spec fn is_reserved(c: char) -> bool {
    c == '!' || c == '"' || c == '$' || c == '\'' || c == '(' || c == ')' || c == '*' || c == '+'
        || c == ',' || c == '-' || c == '.' || c == '/' || c == ':' || c == ';' || c == '@'
        || c == '[' || c == '\\' || c == ']' || c == '{' || c == '}'
}

/// What one character becomes: its escape from the fixed table, or itself.
pub open spec fn encode_char(c: char) -> Seq<char> {
    match c {
        '!' => "%21"@,
        '"' => "%22"@,
        '$' => "%24"@,
        '\'' => "%27"@,
        '(' => "%28"@,
        ')' => "%29"@,
        '*' => "%2A"@,
        '+' => "%2B"@,
        ',' => "%2C"@,
        '-' => "%2D"@,
        '.' => "%2E"@,
        '/' => "%2F"@,
        ':' => "%3A"@,
        ';' => "%3B"@,
        '@' => "%40"@,
        '[' => "%5B"@,
        '\\' => "%5C"@,
        ']' => "%5D"@,
        '{' => "%7B"@,
        '}' => "%7D"@,
        _ => seq![c],
    }
}

/// The encoding of a whole string: each character's translation, concatenated.
pub open spec fn encode_seq(s: Seq<char>) -> Seq<char>
    decreases s.len(),
{
    if s.len() == 0 {
        Seq::empty()
    } else {
        encode_char(s[0]) + encode_seq(s.skip(1))
    }
}

/// Relies on String::push: appends the given character to the end of the string.
#[verifier::external_body]
pub(crate) fn push_char(s: &mut String, c: char)
    ensures
        final(s)@ == old(s)@.push(c),
{
    s.push(c);
}

/// The encoding distributes over concatenation.
pub proof fn lemma_encode_seq_append(a: Seq<char>, b: Seq<char>)
    ensures
        encode_seq(a + b) == encode_seq(a) + encode_seq(b),
    decreases a.len(),
{
    if a.len() == 0 {
        assert(a + b =~= b);
        assert(encode_seq(a) + encode_seq(b) =~= encode_seq(b));
    } else {
        assert((a + b).skip(1) =~= a.skip(1) + b);
        lemma_encode_seq_append(a.skip(1), b);
        assert((a + b)[0] == a[0]);
        assert(encode_char(a[0]) + (encode_seq(a.skip(1)) + encode_seq(b)) =~= (encode_char(a[0])
            + encode_seq(a.skip(1))) + encode_seq(b));
    }
}

/// A single character encodes to exactly its table entry.
pub proof fn lemma_encode_single(c: char)
    ensures
        encode_seq(seq![c]) == encode_char(c),
{
    assert(seq![c].skip(1) =~= Seq::<char>::empty());
    assert(encode_seq(Seq::<char>::empty()) == Seq::<char>::empty());
    assert(encode_seq(seq![c]) == encode_char(seq![c][0]) + encode_seq(seq![c].skip(1)));
    assert(seq![c][0] == c);
    assert(encode_char(c) + Seq::<char>::empty() =~= encode_char(c));
}

/// Each reserved character becomes a three-character escape: a percent sign
/// followed by two characters of its code from the fixed table.
pub proof fn lemma_encode_reserved_form(c: char)
    requires
        is_reserved(c),
    ensures
        encode_seq(seq![c]).len() == 3,
        encode_seq(seq![c])[0] == '%',
{
    lemma_encode_single(c);
    reveal_strlit("%21");
    reveal_strlit("%22");
    reveal_strlit("%24");
    reveal_strlit("%27");
    reveal_strlit("%28");
    reveal_strlit("%29");
    reveal_strlit("%2A");
    reveal_strlit("%2B");
    reveal_strlit("%2C");
    reveal_strlit("%2D");
    reveal_strlit("%2E");
    reveal_strlit("%2F");
    reveal_strlit("%3A");
    reveal_strlit("%3B");
    reveal_strlit("%40");
    reveal_strlit("%5B");
    reveal_strlit("%5C");
    reveal_strlit("%5D");
    reveal_strlit("%7B");
    reveal_strlit("%7D");
}

/// A string holding no reserved character is left unchanged by the encoder,
/// and the encoder is therefore idempotent on such strings.
pub proof fn lemma_encode_unreserved(s: Seq<char>)
    requires
        forall|i: int| 0 <= i < s.len() ==> !is_reserved(#[trigger] s[i]),
    ensures
        encode_seq(s) == s,
        encode_seq(encode_seq(s)) == encode_seq(s),
    decreases s.len(),
{
    if s.len() == 0 {
        assert(encode_seq(s) =~= s);
    } else {
        assert(forall|i: int|
            0 <= i < s.skip(1).len() ==> !is_reserved(#[trigger] s.skip(1)[i]));
        lemma_encode_unreserved(s.skip(1));
        assert(!is_reserved(s[0]));
        assert(encode_char(s[0]) =~= seq![s[0]]);
        assert(encode_seq(s) =~= seq![s[0]] + s.skip(1));
        assert(seq![s[0]] + s.skip(1) =~= s);
    }
}

/// The character of one decimal digit.
pub open spec fn dec_digit(d: nat) -> char {
    ((d + 48) as u8) as char
}

/// The decimal representation of a number, most significant digit first.
pub open spec fn dec_chars(n: nat) -> Seq<char>
    decreases n,
{
    if n < 10 {
        seq![dec_digit(n)]
    } else {
        dec_chars(n / 10).push(dec_digit(n % 10))
    }
}

/// Renders a number in decimal, for folding into messages.
pub fn u64_to_decimal(n: u64) -> (r: String)
    ensures
        r@ == dec_chars(n as nat),
    decreases n,
{
    if n < 10 {
        let mut s = String::new();
        push_char(&mut s, (n as u8 + 48) as char);
        proof {
            assert(Seq::<char>::empty().push(dec_digit(n as nat)) =~= seq![dec_digit(n as nat)]);
        }
        s
    } else {
        let mut s = u64_to_decimal(n / 10);
        push_char(&mut s, ((n % 10) as u8 + 48) as char);
        s
    }
}

/// Percent-encodes the fixed table of reserved characters and passes every
/// other character through unchanged.
pub fn make_string_url_friendly(input: &str) -> (r: String)
    ensures
        r@ == encode_seq(input@),
{
    let n = input.unicode_len();
    let mut out = String::new();
    let mut i: usize = 0;
    while i < n
        invariant
            i <= n,
            n == input@.len(),
            out@ == encode_seq(input@.take(i as int)),
        decreases n - i,
    {
        let c = input.get_char(i);
        match c {
            '!' => out.append("%21"),
            '"' => out.append("%22"),
            '$' => out.append("%24"),
            '\'' => out.append("%27"),
            '(' => out.append("%28"),
            ')' => out.append("%29"),
            '*' => out.append("%2A"),
            '+' => out.append("%2B"),
            ',' => out.append("%2C"),
            '-' => out.append("%2D"),
            '.' => out.append("%2E"),
            '/' => out.append("%2F"),
            ':' => out.append("%3A"),
            ';' => out.append("%3B"),
            '@' => out.append("%40"),
            '[' => out.append("%5B"),
            '\\' => out.append("%5C"),
            ']' => out.append("%5D"),
            '{' => out.append("%7B"),
            '}' => out.append("%7D"),
            _ => push_char(&mut out, c),
        }
        proof {
            let s = input@;
            assert(s.take(i + 1) =~= s.take(i as int) + seq![s[i as int]]);
            lemma_encode_seq_append(s.take(i as int), seq![s[i as int]]);
            lemma_encode_single(s[i as int]);
            assert(out@ =~= encode_seq(s.take(i as int)) + encode_char(s[i as int]));
        }
        i += 1;
    }
    proof {
        assert(input@.take(n as int) =~= input@);
    }
    out
}

} // verus!
