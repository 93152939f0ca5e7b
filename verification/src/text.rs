//! Strings as sequences of characters: comparison, trimming and number formatting.

use vstd::prelude::*;
use vstd::utf8::*;

verus! {

/// `String::push` appends one character.
pub assume_specification[ String::push ](s: &mut String, c: char)
    ensures
        final(s)@ == old(s)@.push(c),
;

/// `String::pop` removes and returns the last character, or returns `None` and changes nothing
/// when the string is empty.
pub assume_specification[ String::pop ](s: &mut String) -> (c: Option<char>)
    ensures
        old(s)@.len() == 0 ==> c == None::<char> && final(s)@ == old(s)@,
        old(s)@.len() > 0 ==> c == Some(old(s)@.last()) && final(s)@ == old(s)@.drop_last(),
;

/// `core::str::from_utf8` accepts exactly the well-formed UTF-8 byte strings and yields the
/// characters that they encode.
#[verifier::external_body]
fn str_from_utf8(bytes: &[u8]) -> (r: Option<&str>)
    ensures
        r is Some <==> valid_utf8(bytes@),
        r matches Some(s) ==> encode_utf8(s@) == bytes@,
{
    core::str::from_utf8(bytes).ok()
}

/// What `String::from_utf8_lossy` makes of a byte string.
pub uninterp spec fn utf8_lossy(bytes: Seq<u8>) -> Seq<char>;

/// The text of a byte string: what it encodes if it is UTF-8, else what the lossy conversion makes
/// of it.
pub open spec fn lossy_text(bytes: Seq<u8>) -> Seq<char> {
    if valid_utf8(bytes) {
        decode_utf8(bytes)
    } else {
        utf8_lossy(bytes)
    }
}

/// `String::from_utf8_lossy`: the characters of a well-formed byte string, unchanged. What stands
/// in for ill-formed input is named by `utf8_lossy` and not described further.
#[verifier::external_body]
fn string_from_utf8_lossy(bytes: &[u8]) -> (r: String)
    ensures
        r@ == utf8_lossy(bytes@),
        valid_utf8(bytes@) ==> r@ == decode_utf8(bytes@),
{
    String::from_utf8_lossy(bytes).into_owned()
}

/// Two strings with the same UTF-8 encoding are the same string.
pub proof fn lemma_utf8_injective(a: Seq<char>, b: Seq<char>)
    requires
        encode_utf8(a) == encode_utf8(b),
    ensures
        a == b,
{
    encode_utf8_decode_utf8(a);
    encode_utf8_decode_utf8(b);
}

/// Text survives encoding and lossy decoding.
pub proof fn lemma_lossy_round_trip(s: Seq<char>)
    ensures
        lossy_text(encode_utf8(s)) == s,
{
    encode_utf8_valid_utf8(s);
    encode_utf8_decode_utf8(s);
}

/// Whether two strings are equal.
pub fn same_text(a: &str, b: &str) -> (r: bool)
    ensures
        r == (a@ == b@),
{
    let r = crate::bytes::same_bytes(a.as_bytes(), b.as_bytes());
    proof {
        if r {
            lemma_utf8_injective(a@, b@);
        }
    }
    r
}

/// The text that `bytes` encodes, or `None` when they are not UTF-8.
pub fn text_from_utf8(bytes: &[u8]) -> (r: Option<String>)
    ensures
        r is Some <==> valid_utf8(bytes@),
        r matches Some(s) ==> encode_utf8(s@) == bytes@ && s@ == decode_utf8(bytes@),
{
    match str_from_utf8(bytes) {
        Some(s) => {
            proof {
                encode_utf8_decode_utf8(s@);
            }
            Some(s.to_owned())
        },
        None => None,
    }
}

/// The text that `bytes` encodes, with replacement characters where they are not UTF-8.
pub fn text_from_utf8_lossy(bytes: &[u8]) -> (r: String)
    ensures
        r@ == lossy_text(bytes@),
        valid_utf8(bytes@) ==> r@ == decode_utf8(bytes@),
        !valid_utf8(bytes@) ==> r@ == utf8_lossy(bytes@),
{
    string_from_utf8_lossy(bytes)
}

/// The characters of `s`.
pub fn chars_of(s: &str) -> (v: Vec<char>)
    ensures
        v@ == s@,
{
    let mut v: Vec<char> = Vec::new();
    for c in it: s.chars()
        invariant
            it.seq() == s@,
            v@ == s@.take(it.index() as int),
    {
        v.push(c);
        assert(v@ =~= s@.take(it.index() + 1));
    }
    assert(v@ =~= s@);
    v
}

/// The string made of `v[from..to]`.
pub fn string_of(v: &Vec<char>, from: usize, to: usize) -> (s: String)
    requires
        from <= to <= v@.len(),
    ensures
        s@ == v@.subrange(from as int, to as int),
{
    let mut s = String::new();
    let mut i: usize = from;
    while i < to
        invariant
            from <= i <= to <= v@.len(),
            s@ == v@.subrange(from as int, i as int),
        decreases to - i,
    {
        s.push(v[i]);
        i = i + 1;
        assert(s@ =~= v@.subrange(from as int, i as int));
    }
    s
}

/// Whether `c` has the Unicode `White_Space` property.
pub open spec fn is_space(c: char) -> bool {
    let u = c as u32;
    ||| 0x09 <= u <= 0x0d
    ||| u == 0x20
    ||| u == 0x85
    ||| u == 0xa0
    ||| u == 0x1680
    ||| 0x2000 <= u <= 0x200a
    ||| u == 0x2028
    ||| u == 0x2029
    ||| u == 0x202f
    ||| u == 0x205f
    ||| u == 0x3000
}

/// Whether `c` is white space.
pub fn is_white_space(c: char) -> (r: bool)
    ensures
        r == is_space(c),
{
    let u: u32 = c as u32;
    (0x09 <= u && u <= 0x0d) || u == 0x20 || u == 0x85 || u == 0xa0 || u == 0x1680 || (0x2000 <= u
        && u <= 0x200a) || u == 0x2028 || u == 0x2029 || u == 0x202f || u == 0x205f || u == 0x3000
}

/// `s` without the longest suffix made of characters that `drop` picks.
pub open spec fn trim_end(s: Seq<char>, drop: spec_fn(char) -> bool) -> Seq<char>
    decreases s.len(),
{
    if s.len() > 0 && drop(s.last()) {
        trim_end(s.drop_last(), drop)
    } else {
        s
    }
}

/// `s` without the longest prefix made of characters that `drop` picks.
pub open spec fn trim_start(s: Seq<char>, drop: spec_fn(char) -> bool) -> Seq<char>
    decreases s.len(),
{
    if s.len() > 0 && drop(s[0]) {
        trim_start(s.drop_first(), drop)
    } else {
        s
    }
}

/// `s` without leading and trailing white space.
pub open spec fn trimmed(s: Seq<char>) -> Seq<char> {
    trim_end(trim_start(s, |c: char| is_space(c)), |c: char| is_space(c))
}

/// Trimming at the end takes away exactly the characters that are to go: what stays is a prefix, it
/// does not end in one of them, and all that went is one of them.
pub proof fn law_trim_end_is_exact(s: Seq<char>, drop: spec_fn(char) -> bool)
    ensures
        ({
            let t = trim_end(s, drop);
            &&& t.len() <= s.len()
            &&& t == s.take(t.len() as int)
            &&& t.len() > 0 ==> !drop(t.last())
            &&& forall|i: int| t.len() <= i < s.len() ==> drop(#[trigger] s[i])
        }),
    decreases s.len(),
{
    if s.len() > 0 && drop(s.last()) {
        law_trim_end_is_exact(s.drop_last(), drop);
        let t = trim_end(s, drop);
        assert(t =~= s.take(t.len() as int));
        assert forall|i: int| t.len() <= i < s.len() implies drop(#[trigger] s[i]) by {
            if i < s.len() - 1 {
                assert(s.drop_last()[i] == s[i]);
            }
        }
    } else {
        assert(s =~= s.take(s.len() as int));
    }
}

/// Trimming at the start likewise: what stays is a suffix, it does not start with a character that is
/// to go, and all that went is one.
pub proof fn law_trim_start_is_exact(s: Seq<char>, drop: spec_fn(char) -> bool)
    ensures
        ({
            let t = trim_start(s, drop);
            &&& t.len() <= s.len()
            &&& t == s.skip(s.len() - t.len())
            &&& t.len() > 0 ==> !drop(t[0])
            &&& forall|i: int| 0 <= i < s.len() - t.len() ==> drop(#[trigger] s[i])
        }),
    decreases s.len(),
{
    if s.len() > 0 && drop(s[0]) {
        law_trim_start_is_exact(s.drop_first(), drop);
        let t = trim_start(s, drop);
        assert(t =~= s.skip(s.len() - t.len()));
        assert forall|i: int| 0 <= i < s.len() - t.len() implies drop(#[trigger] s[i]) by {
            if i > 0 {
                assert(s.drop_first()[i - 1] == s[i]);
            }
        }
    } else {
        assert(s =~= s.skip(0));
    }
}

/// Trimming white space leaves one piece of the text, with no white space at either end and nothing but
/// white space in front of it and behind it.
pub proof fn law_trimmed_is_exact(s: Seq<char>)
    ensures
        exists|from: int, to: int|
            0 <= from <= to <= s.len() && trimmed(s) == #[trigger] s.subrange(from, to) && (from < to ==> !is_space(
                s[from],
            ) && !is_space(s[to - 1])) && (forall|i: int| (0 <= i < from || to <= i < s.len()) ==> is_space(s[i])),
{
    let white = |c: char| is_space(c);
    let left = trim_start(s, white);
    law_trim_start_is_exact(s, white);
    law_trim_end_is_exact(left, white);
    let t = trimmed(s);
    let from = s.len() - left.len();
    let to = from + t.len();
    assert(t =~= s.subrange(from, to));
    if from < to {
        assert(t.last() == s[to - 1]);
        assert(left[0] == s[from]);
    }
    assert forall|i: int| (0 <= i < from || to <= i < s.len()) implies is_space(s[i]) by {
        if to <= i {
            assert(left[i - from] == s[i]);
            assert(white(left[i - from]));
        } else {
            assert(white(s[i]));
        }
    }
}

/// `s` without leading and trailing white space.
pub fn trim(s: &str) -> (r: String)
    ensures
        r@ == trimmed(s@),
{
    let v = chars_of(s);
    let ghost white = |c: char| is_space(c);
    let mut from: usize = 0;
    assert(v@.subrange(0, v@.len() as int) =~= v@);
    while from < v.len() && is_white_space(v[from])
        invariant
            v@ == s@,
            white == (|c: char| is_space(c)),
            from <= v@.len(),
            trim_start(v@.subrange(from as int, v@.len() as int), white) == trim_start(s@, white),
        decreases v@.len() - from,
    {
        proof {
            let rest = v@.subrange(from as int, v@.len() as int);
            assert(rest.drop_first() =~= v@.subrange(from + 1, v@.len() as int));
        }
        from = from + 1;
    }
    let mut to: usize = v.len();
    proof {
        let rest = v@.subrange(from as int, v@.len() as int);
        assert(trim_start(rest, white) == rest);
    }
    while to > from && is_white_space(v[to - 1])
        invariant
            white == (|c: char| is_space(c)),
            from <= to <= v@.len(),
            trim_end(v@.subrange(from as int, to as int), white) == trimmed(s@),
        decreases to - from,
    {
        proof {
            let rest = v@.subrange(from as int, to as int);
            assert(rest.drop_last() =~= v@.subrange(from as int, to - 1));
        }
        to = to - 1;
    }
    string_of(&v, from, to)
}

/// `s` without trailing occurrences of `a` and `b`.
pub fn trim_end_of(s: &str, a: char, b: char) -> (r: String)
    ensures
        r@ == trim_end(s@, |c: char| c == a || c == b),
{
    let v = chars_of(s);
    let ghost drop = |c: char| c == a || c == b;
    let mut to: usize = v.len();
    assert(v@.subrange(0, v@.len() as int) =~= v@);
    while to > 0 && (v[to - 1] == a || v[to - 1] == b)
        invariant
            drop == (|c: char| c == a || c == b),
            to <= v@.len(),
            trim_end(v@.subrange(0, to as int), drop) == trim_end(s@, drop),
        decreases to,
    {
        proof {
            let rest = v@.subrange(0, to as int);
            assert(rest.drop_last() =~= v@.subrange(0, to - 1));
        }
        to = to - 1;
    }
    string_of(&v, 0, to)
}

/// The decimal digit that denotes `d`.
pub open spec fn digit(d: nat) -> char {
    (0x30 + d) as char
}

/// The decimal notation of `n`.
pub open spec fn decimal(n: nat) -> Seq<char>
    decreases n,
{
    if n < 10 {
        seq![digit(n)]
    } else {
        decimal(n / 10).push(digit(n % 10))
    }
}

/// Decimal notation is made of the digits `0` to `9`, the least significant last and none too many:
/// without its last digit it is the notation of the tenth part.
pub proof fn law_decimal_digits(n: nat)
    ensures
        decimal(n).len() >= 1,
        decimal(n).last() as u32 == 0x30 + n % 10,
        n < 10 ==> decimal(n).len() == 1,
        n >= 10 ==> decimal(n).drop_last() == decimal(n / 10),
    decreases n,
{
    if n >= 10 {
        law_decimal_digits(n / 10);
        assert(decimal(n).drop_last() =~= decimal(n / 10));
    }
}

/// Different numbers have different notations.
pub proof fn law_decimal_is_unique(a: nat, b: nat)
    requires
        decimal(a) == decimal(b),
    ensures
        a == b,
    decreases a,
{
    law_decimal_digits(a);
    law_decimal_digits(b);
    if a >= 10 && b >= 10 {
        law_decimal_is_unique(a / 10, b / 10);
    } else {
        if a >= 10 {
            law_decimal_digits(a / 10);
        }
        if b >= 10 {
            law_decimal_digits(b / 10);
        }
    }
}

fn digit_char(d: u8) -> (c: char)
    requires
        d < 10,
    ensures
        c == digit(d as nat),
{
    (0x30 + d) as char
}

/// Append the decimal notation of `n` to `s`.
pub fn put_decimal(s: &mut String, n: u64)
    ensures
        final(s)@ == old(s)@ + decimal(n as nat),
    decreases n,
{
    if n >= 10 {
        put_decimal(s, n / 10);
    }
    s.push(digit_char((n % 10) as u8));
    assert(s@ =~= old(s)@ + decimal(n as nat));
}

/// The lower-case hexadecimal digit that denotes `d`.
pub open spec fn hex_digit(d: nat) -> char {
    if d < 10 {
        (0x30 + d) as char
    } else {
        (0x57 + d) as char
    }
}

/// `b` as `0x` and two hexadecimal digits.
pub open spec fn hex_byte(b: u8) -> Seq<char> {
    seq!['0', 'x', hex_digit((b / 16) as nat), hex_digit((b % 16) as nat)]
}

/// A byte is shown as `0x` and two digits, the high one first.
pub proof fn law_hex_digits(b: u8)
    ensures
        hex_byte(b).len() == 4,
        hex_byte(b)[0] == '0',
        hex_byte(b)[1] == 'x',
        b / 16 < 10 ==> hex_byte(b)[2] as u32 == 0x30 + b / 16,
        b / 16 >= 10 ==> hex_byte(b)[2] as u32 == 0x61 + (b / 16 - 10),
        b % 16 < 10 ==> hex_byte(b)[3] as u32 == 0x30 + b % 16,
        b % 16 >= 10 ==> hex_byte(b)[3] as u32 == 0x61 + (b % 16 - 10),
{
}

fn hex_char(d: u8) -> (c: char)
    requires
        d < 16,
    ensures
        c == hex_digit(d as nat),
{
    if d < 10 {
        (0x30 + d) as char
    } else {
        (0x57 + d) as char
    }
}

/// Append `b` to `s` as `0x` and two hexadecimal digits.
pub fn put_hex_byte(s: &mut String, b: u8)
    ensures
        final(s)@ == old(s)@ + hex_byte(b),
{
    s.push('0');
    s.push('x');
    s.push(hex_char(b / 16));
    s.push(hex_char(b % 16));
    assert(s@ =~= old(s)@ + hex_byte(b));
}

/// Append `more` to `s`.
pub fn put(s: &mut String, more: &str)
    ensures
        final(s)@ == old(s)@ + more@,
{
    s.append(more);
}

/// The concatenation of `a`, `b` and `c`.
pub fn join3(a: &str, b: &str, c: &str) -> (s: String)
    ensures
        s@ == a@ + b@ + c@,
{
    let mut s = a.to_owned();
    put(&mut s, b);
    put(&mut s, c);
    s
}

/// The concatenation of `a` and `b`.
pub fn join2(a: &str, b: &str) -> (s: String)
    ensures
        s@ == a@ + b@,
{
    let mut s = a.to_owned();
    put(&mut s, b);
    s
}

} // verus!
