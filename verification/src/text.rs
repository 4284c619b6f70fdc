//! Text helpers: decimal and quoted rendering, integer parsing, comparison.

use vstd::prelude::*;
use vstd::utf8::{decode_utf8, encode_utf8, valid_utf8};

verus! {

/// Appending a concatenation is appending its parts in turn.
pub broadcast proof fn lemma_concat_assoc(a: Seq<char>, b: Seq<char>, c: Seq<char>)
    ensures
        #[trigger] (a + (b + c)) == (a + b) + c,
{
    assert(a + (b + c) =~= (a + b) + c);
}

/// The character of a decimal digit `d` (`0 <= d <= 9`).
pub open spec fn digit_char(d: int) -> char {
    (d + 48) as char
}

/// Decimal digits of a natural number, most significant first.
pub open spec fn decimal_nat(n: nat) -> Seq<char>
    decreases n,
{
    if n < 10 {
        seq![digit_char(n as int)]
    } else {
        decimal_nat(n / 10).push(digit_char((n % 10) as int))
    }
}

/// The decimal rendering of an integer, as `Display` writes it.
pub open spec fn decimal_text(v: int) -> Seq<char> {
    if v < 0 {
        seq!['-'] + decimal_nat((-v) as nat)
    } else {
        decimal_nat(v as nat)
    }
}

/// Whether `c` is an ASCII decimal digit.
pub open spec fn is_digit(c: char) -> bool {
    '0' <= c && c <= '9'
}

/// Whether `s` is a non-empty run of ASCII decimal digits.
pub open spec fn is_digit_run(s: Seq<char>) -> bool {
    s.len() > 0 && forall|i: int| 0 <= i < s.len() ==> is_digit(#[trigger] s[i])
}

/// The value of a run of decimal digits.
pub open spec fn digits_value(s: Seq<char>) -> int
    decreases s.len(),
{
    if s.len() == 0 {
        0
    } else {
        digits_value(s.drop_last()) * 10 + (s.last() as int - 48)
    }
}

/// The integer that `s` denotes: an optional `+` or `-` followed by digits.
pub open spec fn int_text_value(s: Seq<char>) -> Option<int> {
    if s.len() > 0 && (s[0] == '+' || s[0] == '-') {
        let rest = s.drop_first();
        if is_digit_run(rest) {
            if s[0] == '-' {
                Some(-digits_value(rest))
            } else {
                Some(digits_value(rest))
            }
        } else {
            None
        }
    } else if is_digit_run(s) {
        Some(digits_value(s))
    } else {
        None
    }
}

/// What `s.parse::<i32>()` gives: the value of `s` when it fits.
pub open spec fn parsed_i32(s: Seq<char>) -> Option<i32> {
    match int_text_value(s) {
        Some(v) => if i32::MIN <= v <= i32::MAX {
            Some(v as i32)
        } else {
            None
        },
        None => None,
    }
}

/// What `s.parse::<i64>()` gives: the value of `s` when it fits.
pub open spec fn parsed_i64(s: Seq<char>) -> Option<i64> {
    match int_text_value(s) {
        Some(v) => if i64::MIN <= v <= i64::MAX {
            Some(v as i64)
        } else {
            None
        },
        None => None,
    }
}

/// What `format!("{:?}", s)` gives for a string `s`: the string in double
/// quotes, with the characters that `char::escape_debug` escapes escaped.
pub uninterp spec fn debug_quoted_text(s: Seq<char>) -> Seq<char>;

/// Calls `<str as FromStr>::from_str` for `i32` (`str::parse`). Its documentation:
/// an optional `+` or `-` sign followed by ASCII digits, the value in range.
#[verifier::external_body]
pub(crate) fn parse_i32(s: &str) -> (r: Option<i32>)
    ensures
        r == parsed_i32(s@),
{
    s.parse::<i32>().ok()
}

/// Calls `<str as FromStr>::from_str` for `i64` (`str::parse`), read as
/// `parse_i32` is.
#[verifier::external_body]
pub(crate) fn parse_i64(s: &str) -> (r: Option<i64>)
    ensures
        r == parsed_i64(s@),
{
    s.parse::<i64>().ok()
}

/// Calls `<i128 as ToString>::to_string`: the decimal rendering of `v`.
#[verifier::external_body]
pub(crate) fn int_text(v: i128) -> (r: String)
    ensures
        r@ == decimal_text(v as int),
{
    v.to_string()
}

/// Calls `<str as Debug>::fmt` through `format!("{:?}")`; the result is named
/// by `debug_quoted_text`.
#[verifier::external_body]
pub(crate) fn debug_quoted(s: &str) -> (r: String)
    ensures
        r@ == debug_quoted_text(s@),
{
    format!("{:?}", s)
}

/// Whether two strings hold the same characters.
pub fn text_eq(a: &str, b: &str) -> (r: bool)
    ensures
        r == (a@ == b@),
{
    let x = a.to_owned();
    let y = b.to_owned();
    x == y
}

/// The value of an ASCII hexadecimal digit byte.
pub open spec fn hex_value(b: u8) -> Option<u8> {
    if 48 <= b <= 57 {
        Some((b - 48) as u8)
    } else if 65 <= b <= 70 {
        Some((b - 55) as u8)
    } else if 97 <= b <= 102 {
        Some((b - 87) as u8)
    } else {
        None
    }
}

/// The bytes with each `%` followed by two hexadecimal digits replaced by the
/// byte they denote; any other byte, a lone `%` among them, is kept.
pub open spec fn percent_bytes(b: Seq<u8>) -> Seq<u8>
    decreases b.len(),
{
    if b.len() == 0 {
        Seq::empty()
    } else if b[0] == 37 && b.len() >= 3 && hex_value(b[1]) is Some && hex_value(b[2]) is Some {
        seq![(hex_value(b[1])->0 * 16 + hex_value(b[2])->0) as u8] + percent_bytes(b.skip(3))
    } else {
        seq![b[0]] + percent_bytes(b.skip(1))
    }
}

/// What `String::from_utf8_lossy` gives for the bytes `b`: their UTF-8
/// decoding, each invalid sequence replaced by U+FFFD.
pub uninterp spec fn utf8_lossy_text(b: Seq<u8>) -> Seq<char>;

/// A percent-encoded text decoded: its UTF-8 bytes percent-decoded, then read
/// back as UTF-8 with invalid sequences replaced.
pub open spec fn percent_decoded(s: Seq<char>) -> Seq<char> {
    utf8_lossy_text(percent_bytes(encode_utf8(s)))
}

/// Calls `String::from_utf8_lossy`. Its documentation: valid UTF-8 is
/// returned as it is; the rest is named by `utf8_lossy_text`.
#[verifier::external_body]
pub(crate) fn utf8_lossy(b: &[u8]) -> (r: String)
    ensures
        r@ == utf8_lossy_text(b@),
        valid_utf8(b@) ==> r@ == decode_utf8(b@),
{
    String::from_utf8_lossy(b).into_owned()
}

/// The value of an ASCII hexadecimal digit byte.
fn hex_digit(b: u8) -> (r: Option<u8>)
    ensures
        r == hex_value(b),
{
    if 48 <= b && b <= 57 {
        Some(b - 48)
    } else if 65 <= b && b <= 70 {
        Some(b - 55)
    } else if 97 <= b && b <= 102 {
        Some(b - 87)
    } else {
        None
    }
}

/// Bytes without `%` are kept as they are.
proof fn lemma_percent_bytes_plain(b: Seq<u8>)
    requires
        !b.contains(37),
    ensures
        percent_bytes(b) == b,
    decreases b.len(),
{
    if b.len() > 0 {
        assert(b[0] == b[0]);
        assert(!b.skip(1).contains(37)) by {
            if b.skip(1).contains(37) {
                let k = choose|k: int| 0 <= k < b.skip(1).len() && b.skip(1)[k] == 37;
                assert(b[k + 1] == 37);
            }
        }
        lemma_percent_bytes_plain(b.skip(1));
        assert(seq![b[0]] + b.skip(1) =~= b);
    }
}

/// Decodes `%XX` escapes in a URL taken from a layout; a text whose UTF-8
/// form holds no `%` comes back unchanged.
pub fn percent_decode(s: &str) -> (r: String)
    ensures
        r@ == percent_decoded(s@),
        !encode_utf8(s@).contains(37) ==> r@ == s@,
{
    let b = s.as_bytes();
    let n = b.len();
    let mut out: Vec<u8> = Vec::new();
    let mut i: usize = 0;
    assert(b@.skip(0) =~= b@);
    while i < n
        invariant
            n == b@.len(),
            i <= n,
            out@ + percent_bytes(b@.skip(i as int)) == percent_bytes(b@),
        decreases n - i,
    {
        let ghost rest = b@.skip(i as int);
        let c = b[i];
        assert(rest[0] == c);
        if c == 37 && n - i >= 3 {
            let h1 = hex_digit(b[i + 1]);
            let h2 = hex_digit(b[i + 2]);
            assert(rest[1] == b@[i + 1]);
            assert(rest[2] == b@[i + 2]);
            match (h1, h2) {
                (Some(x), Some(y)) => {
                    assert(rest.skip(3) =~= b@.skip(i + 3));
                    let v: u8 = x * 16 + y;
                    let ghost before = out@;
                    out.push(v);
                    assert(out@ + percent_bytes(b@.skip(i + 3)) =~= before + percent_bytes(rest));
                    i = i + 3;
                    continue;
                },
                _ => {},
            }
        }
        assert(rest.skip(1) =~= b@.skip(i + 1));
        let ghost before = out@;
        out.push(c);
        assert(out@ + percent_bytes(b@.skip(i + 1)) =~= before + percent_bytes(rest));
        i = i + 1;
    }
    assert(b@.skip(n as int) =~= Seq::<u8>::empty());
    assert(out@ =~= percent_bytes(b@));
    proof {
        broadcast use vstd::utf8::encode_utf8_valid_utf8, vstd::utf8::encode_utf8_decode_utf8;

        if !encode_utf8(s@).contains(37) {
            lemma_percent_bytes_plain(b@);
        }
    }
    utf8_lossy(out.as_slice())
}

} // verus!
