//! Small text utilities the engine is built on: ASCII classification and
//! lowercasing, decimal and hexadecimal rendering of lengths, decimal
//! parsing for `Content-Length`, and the two conversions between raw bytes
//! and UTF-8 strings.

use vstd::prelude::*;
use vstd::utf8::valid_utf8;

verus! {

/// The characters an ASCII byte sequence decodes to: one character per byte.
pub open spec fn ascii_chars(b: Seq<u8>) -> Seq<char> {
    b.map_values(|x: u8| x as char)
}

/// Every byte is ASCII (fits in seven bits).
pub open spec fn all_ascii(b: Seq<u8>) -> bool {
    forall|i: int| 0 <= i < b.len() ==> b[i] < 0x80
}

/// ASCII uppercase letters map to lowercase; all else is unchanged.
pub open spec fn lower_char(c: char) -> char {
    if 0x41 <= c as int && c as int <= 0x5a {
        (c as int + 0x20) as char
    } else {
        c
    }
}

/// Character-wise ASCII lowercasing.
pub open spec fn lower_chars(s: Seq<char>) -> Seq<char> {
    s.map_values(|c: char| lower_char(c))
}

/// The decimal digit character for a value below ten.
pub open spec fn dec_digit(d: int) -> char {
    (d + 0x30) as char
}

/// The decimal rendering of a natural number, most significant digit first.
pub open spec fn dec_chars(n: int) -> Seq<char>
    decreases n,
{
    if n < 10 {
        seq![dec_digit(n)]
    } else {
        dec_chars(n / 10).push(dec_digit(n % 10))
    }
}

/// The uppercase hexadecimal digit character for a value below sixteen.
pub open spec fn hex_digit(d: int) -> char {
    if d < 10 {
        (d + 0x30) as char
    } else {
        (d - 10 + 0x41) as char
    }
}

/// The uppercase hexadecimal rendering of a natural number.
pub open spec fn hex_chars(n: int) -> Seq<char>
    decreases n,
{
    if n < 16 {
        seq![hex_digit(n)]
    } else {
        hex_chars(n / 16).push(hex_digit(n % 16))
    }
}

/// A decimal digit character.
pub open spec fn is_dec_digit(c: char) -> bool {
    0x30 <= c as int && c as int <= 0x39
}

/// The numeric value of a sequence of decimal digit characters.
pub open spec fn dec_value(s: Seq<char>) -> int
    decreases s.len(),
{
    if s.len() == 0 {
        0
    } else {
        dec_value(s.drop_last()) * 10 + (s.last() as int - 0x30)
    }
}

/// The single-character string for a decimal digit value.
fn dec_digit_str(d: u8) -> (r: &'static str)
    requires
        d < 10,
    ensures
        r@ =~= seq![dec_digit(d as int)],
{
    proof {
        reveal_strlit("0");
        reveal_strlit("1");
        reveal_strlit("2");
        reveal_strlit("3");
        reveal_strlit("4");
        reveal_strlit("5");
        reveal_strlit("6");
        reveal_strlit("7");
        reveal_strlit("8");
        reveal_strlit("9");
    }
    match d {
        0 => "0",
        1 => "1",
        2 => "2",
        3 => "3",
        4 => "4",
        5 => "5",
        6 => "6",
        7 => "7",
        8 => "8",
        _ => "9",
    }
}

/// The single-character string for a hexadecimal digit value (uppercase).
fn hex_digit_str(d: u8) -> (r: &'static str)
    requires
        d < 16,
    ensures
        r@ =~= seq![hex_digit(d as int)],
{
    proof {
        reveal_strlit("A");
        reveal_strlit("B");
        reveal_strlit("C");
        reveal_strlit("D");
        reveal_strlit("E");
        reveal_strlit("F");
    }
    if d < 10 {
        dec_digit_str(d)
    } else {
        match d {
            10 => "A",
            11 => "B",
            12 => "C",
            13 => "D",
            14 => "E",
            _ => "F",
        }
    }
}

/// Renders a number in decimal, as `Content-Length` and `retry:` need it.
pub fn dec_string(n: u64) -> (r: String)
    ensures
        r@ == dec_chars(n as int),
    decreases n,
{
    if n < 10 {
        dec_digit_str(n as u8).to_owned()
    } else {
        let mut s = dec_string(n / 10);
        s.append(dec_digit_str((n % 10) as u8));
        assert(s@ =~= dec_chars(n as int));
        s
    }
}

/// Renders a number in uppercase hexadecimal, as chunk framing needs it.
pub fn hex_string(n: u64) -> (r: String)
    ensures
        r@ == hex_chars(n as int),
    decreases n,
{
    if n < 16 {
        hex_digit_str(n as u8).to_owned()
    } else {
        let mut s = hex_string(n / 16);
        s.append(hex_digit_str((n % 16) as u8));
        assert(s@ =~= hex_chars(n as int));
        s
    }
}

/// Character-wise string equality, usable wherever two `&str` must be compared.
pub fn str_eq(a: &str, b: &str) -> (r: bool)
    ensures
        r == (a@ == b@),
{
    let an = a.unicode_len();
    let bn = b.unicode_len();
    if an != bn {
        assert(a@ != b@);
        return false;
    }
    let mut i: usize = 0;
    while i < an
        invariant
            an == a@.len(),
            an == b@.len(),
            0 <= i <= an,
            forall|j: int| 0 <= j < i ==> a@[j] == b@[j],
        decreases an - i,
    {
        if a.get_char(i) != b.get_char(i) {
            return false;
        }
        i += 1;
    }
    proof {
        assert(a@ =~= b@);
    }
    true
}

/// Relies on core::str::from_utf8: a sequence of ASCII bytes is valid UTF-8
/// and decodes to exactly the characters with those code points.
#[verifier::external_body]
pub fn ascii_to_str(b: &[u8]) -> (s: &str)
    requires
        all_ascii(b@),
    ensures
        s@ == ascii_chars(b@),
        s.is_ascii(),
{
    core::str::from_utf8(b).unwrap()
}

/// Relies on String::from_utf8: it succeeds exactly on valid UTF-8 input,
/// returning the string those bytes encode.
#[verifier::external_body]
pub fn utf8_string(b: Vec<u8>) -> (r: Option<String>)
    ensures
        match r {
            Some(s) => valid_utf8(b@) && s@ == vstd::utf8::decode_utf8(b@),
            None => !valid_utf8(b@),
        },
{
    String::from_utf8(b).ok()
}

/// ASCII lowercasing, as header names undergo at parse time. A string with
/// any character outside ASCII is returned unchanged.
pub fn ascii_lower(s: &str) -> (r: String)
    ensures
        r@ == if vstd::utf8::is_ascii_chars(s@) {
            lower_chars(s@)
        } else {
            s@
        },
{
    broadcast use vstd::string::is_ascii_spec_bytes;

    if !s.is_ascii() {
        return s.to_owned();
    }
    let b = s.as_bytes();
    let n = b.len();
    assert(b@ =~= Seq::new(s@.len(), |i: int| s@[i] as u8));
    let mut out: Vec<u8> = Vec::new();
    let mut i: usize = 0;
    while i < n
        invariant
            n == b@.len(),
            b@ == Seq::new(s@.len(), |j: int| s@[j] as u8),
            vstd::utf8::is_ascii_chars(s@),
            0 <= i <= n,
            out@.len() == i,
            forall|j: int| 0 <= j < i ==> out@[j] < 0x80,
            forall|j: int| 0 <= j < i ==> out@[j] as char == lower_char(s@[j]),
        decreases n - i,
    {
        let c = b[i];
        assert(c == s@[i as int] as u8);
        assert((s@[i as int] as int) < 0x80);
        assert(c as char == s@[i as int]);
        let lc: u8 = if 0x41 <= c && c <= 0x5a {
            c + 0x20
        } else {
            c
        };
        assert(lc as char == lower_char(s@[i as int]));
        out.push(lc);
        i += 1;
    }
    let t = ascii_to_str(out.as_slice());
    assert(t@ =~= lower_chars(s@));
    t.to_owned()
}

proof fn lemma_dec_value_nonneg(s: Seq<char>)
    requires
        forall|i: int| 0 <= i < s.len() ==> is_dec_digit(s[i]),
    ensures
        dec_value(s) >= 0,
    decreases s.len(),
{
    if s.len() > 0 {
        lemma_dec_value_nonneg(s.drop_last());
    }
}

proof fn lemma_dec_value_prefix(s: Seq<char>, i: int)
    requires
        forall|j: int| 0 <= j < s.len() ==> is_dec_digit(s[j]),
        0 <= i <= s.len(),
    ensures
        dec_value(s.take(i)) <= dec_value(s),
    decreases s.len() - i,
{
    if i < s.len() {
        lemma_dec_value_prefix(s, i + 1);
        let t = s.take(i + 1);
        assert(t.drop_last() =~= s.take(i));
        assert(forall|j: int| 0 <= j < t.len() ==> is_dec_digit(t[j]));
        lemma_dec_value_nonneg(s.take(i));
        assert(dec_value(t) == dec_value(s.take(i)) * 10 + (s[i] as int - 0x30));
    } else {
        assert(s.take(i) =~= s);
    }
}

/// Parses an unsigned decimal number, as `Content-Length` is parsed.
/// Fails exactly on an empty string, a non-digit character, or overflow.
pub fn parse_dec(s: &str) -> (r: Option<usize>)
    ensures
        match r {
            Some(n) => {
                &&& s@.len() > 0
                &&& forall|i: int| 0 <= i < s@.len() ==> is_dec_digit(s@[i])
                &&& n == dec_value(s@)
            },
            None => {
                ||| s@.len() == 0
                ||| (exists|i: int| 0 <= i < s@.len() && !is_dec_digit(s@[i]))
                ||| dec_value(s@) > usize::MAX
            },
        },
{
    let n = s.unicode_len();
    if n == 0 {
        return None;
    }
    let mut acc: usize = 0;
    let mut i: usize = 0;
    while i < n
        invariant
            n == s@.len(),
            0 <= i <= n,
            forall|j: int| 0 <= j < i ==> is_dec_digit(s@[j]),
            acc == dec_value(s@.take(i as int)),
        decreases n - i,
    {
        let c = s.get_char(i);
        let cv = c as u32;
        if cv < 0x30 || cv > 0x39 {
            assert(!is_dec_digit(s@[i as int]));
            return None;
        }
        let d: usize = (cv - 0x30) as usize;
        proof {
            assert(s@.take(i + 1).drop_last() =~= s@.take(i as int));
            assert(s@.take(i + 1).last() == s@[i as int]);
        }
        let step = match acc.checked_mul(10) {
            Some(m) => m.checked_add(d),
            None => None,
        };
        match step {
            Some(v) => {
                acc = v;
            },
            None => {
                proof {
                    assert(dec_value(s@.take(i + 1)) > usize::MAX);
                    if forall|j: int| 0 <= j < s@.len() ==> is_dec_digit(s@[j]) {
                        lemma_dec_value_prefix(s@, i + 1);
                    }
                }
                return None;
            },
        }
        i += 1;
    }
    proof {
        assert(s@.take(n as int) =~= s@);
    }
    Some(acc)
}

} // verus!
