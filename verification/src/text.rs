use vstd::prelude::*;
use vstd::utf8::{valid_utf8, decode_utf8, encode_utf8};

verus! {

/// The upper-case hexadecimal digit of `d`.
pub open spec fn hex_digit(d: int) -> u8 {
    if d < 10 {
        (48 + d) as u8
    } else {
        (55 + d) as u8
    }
}

/// The `digits` lowest hexadecimal digits of `value`, most significant first,
/// zero-padded, upper case.
pub open spec fn hex_digits(value: nat, digits: nat) -> Seq<u8>
    decreases digits,
{
    if digits == 0 {
        Seq::empty()
    } else {
        hex_digits(value / 16, (digits - 1) as nat).push(hex_digit((value % 16) as int))
    }
}

/// Appends the `digits` lowest hexadecimal digits of `value`, most significant
/// first, zero-padded, upper case.
pub fn push_hex(out: &mut Vec<u8>, value: u64, digits: usize)
    requires
        digits <= 16,
    ensures
        final(out)@ == old(out)@ + hex_digits(value as nat, digits as nat),
    decreases digits,
{
    if digits == 0 {
        assert(old(out)@ + hex_digits(value as nat, 0) =~= old(out)@);
        return;
    }
    push_hex(out, value / 16, digits - 1);
    let d = (value % 16) as u8;
    let c = if d < 10 {
        48 + d
    } else {
        55 + d
    };
    out.push(c);
    proof {
        assert(out@ =~= old(out)@ + hex_digits(value as nat, digits as nat));
    }
}

/// Whether every byte is an ASCII character.
pub open spec fn all_ascii(bytes: Seq<u8>) -> bool {
    forall|i: int| 0 <= i < bytes.len() ==> bytes[i] < 128
}

/// The characters that ASCII bytes encode.
pub open spec fn ascii_chars(bytes: Seq<u8>) -> Seq<char> {
    bytes.map_values(|b: u8| b as char)
}

/// `String::from_utf8` on `bytes`, with `None` for its error: the bytes are
/// taken when they are valid UTF-8 and decode to the string's characters.
/// ASCII bytes are valid UTF-8 and decode to one character each.
#[verifier::external_body]
pub(crate) fn string_from_utf8(bytes: Vec<u8>) -> (r: Option<String>)
    ensures
        r is Some <==> valid_utf8(bytes@),
        r matches Some(s) ==> s@ == decode_utf8(bytes@),
        all_ascii(bytes@) ==> r is Some && r->Some_0@ == ascii_chars(bytes@),
{
    String::from_utf8(bytes).ok()
}

/// The string of ASCII bytes.
pub fn ascii_string(bytes: Vec<u8>) -> (s: String)
    requires
        all_ascii(bytes@),
    ensures
        s@ == ascii_chars(bytes@),
{
    let ghost b = bytes@;
    match string_from_utf8(bytes) {
        Some(s) => s,
        None => {
            assert(false);
            String::new()
        },
    }
}


/// Whether a code unit is a character of its own, not half of a surrogate pair.
pub open spec fn is_plain_unit(u: u16) -> bool {
    u < 0xD800 || u >= 0xE000
}

/// Whether `u` is the first half of a surrogate pair.
pub open spec fn is_high_surrogate(u: u16) -> bool {
    0xD800 <= u < 0xDC00
}

/// Whether `u` is the second half of a surrogate pair.
pub open spec fn is_low_surrogate(u: u16) -> bool {
    0xDC00 <= u < 0xE000
}

/// Whether `units` is well-formed UTF-16: every surrogate is half of a pair,
/// a high one directly followed by a low one.
#[verifier::opaque]
pub open spec fn valid_utf16(units: Seq<u16>) -> bool
    decreases units.len(),
{
    if units.len() == 0 {
        true
    } else if is_high_surrogate(units[0]) {
        units.len() >= 2 && is_low_surrogate(units[1]) && valid_utf16(units.skip(2))
    } else if is_low_surrogate(units[0]) {
        false
    } else {
        valid_utf16(units.skip(1))
    }
}

/// The character a surrogate pair stands for.
pub open spec fn pair_char(high: u16, low: u16) -> char {
    (0x10000 + (high - 0xD800) * 0x400 + (low - 0xDC00)) as char
}

/// The text that UTF-16 code units decode to, or `None` when they are not
/// well-formed: a unit outside the surrogate range is the character of the
/// same value, a high surrogate followed by a low one is one character, and
/// any other surrogate makes the units malformed.
pub open spec fn utf16_decode(units: Seq<u16>) -> Option<Seq<char>>
    decreases units.len(),
{
    if units.len() == 0 {
        Some(Seq::empty())
    } else if is_high_surrogate(units[0]) {
        if units.len() >= 2 && is_low_surrogate(units[1]) {
            match utf16_decode(units.skip(2)) {
                Some(rest) => Some(seq![pair_char(units[0], units[1])] + rest),
                None => None,
            }
        } else {
            None
        }
    } else if is_low_surrogate(units[0]) {
        None
    } else {
        match utf16_decode(units.skip(1)) {
            Some(rest) => Some(seq![units[0] as char] + rest),
            None => None,
        }
    }
}

/// Units decode exactly when they are well-formed UTF-16.
pub proof fn lemma_utf16_decode_valid(units: Seq<u16>)
    ensures
        utf16_decode(units) is Some <==> valid_utf16(units),
    decreases units.len(),
{
    reveal(valid_utf16);
    if units.len() >= 2 && is_high_surrogate(units[0]) {
        lemma_utf16_decode_valid(units.skip(2));
    } else if units.len() >= 1 && !is_high_surrogate(units[0]) {
        lemma_utf16_decode_valid(units.skip(1));
    }
}

/// `String::from_utf16` on `units`, with `None` for its error: it succeeds
/// exactly when the units are well-formed UTF-16, and then gives the text
/// they decode to.
#[verifier::external_body]
pub(crate) fn string_from_utf16(units: &[u16]) -> (r: Option<String>)
    ensures
        r is Some <==> utf16_decode(units@) is Some,
        r matches Some(s) ==> utf16_decode(units@) == Some(s@),
{
    String::from_utf16(units).ok()
}

/// Whether `c` is white space: a character with the Unicode `White_Space`
/// property.
pub open spec fn is_white_space(c: char) -> bool {
    let v = c as u32;
    ||| 0x09 <= v <= 0x0D
    ||| v == 0x20
    ||| v == 0x85
    ||| v == 0xA0
    ||| v == 0x1680
    ||| 0x2000 <= v <= 0x200A
    ||| v == 0x2028
    ||| v == 0x2029
    ||| v == 0x202F
    ||| v == 0x205F
    ||| v == 0x3000
}

/// `s` without its leading white space.
pub open spec fn trim_start(s: Seq<char>) -> Seq<char>
    decreases s.len(),
{
    if s.len() > 0 && is_white_space(s[0]) {
        trim_start(s.drop_first())
    } else {
        s
    }
}

/// `s` without its trailing white space.
pub open spec fn trim_end(s: Seq<char>) -> Seq<char>
    decreases s.len(),
{
    if s.len() > 0 && is_white_space(s.last()) {
        trim_end(s.drop_last())
    } else {
        s
    }
}

/// `s` without leading and trailing white space.
pub open spec fn trim(s: Seq<char>) -> Seq<char> {
    trim_end(trim_start(s))
}

/// `str::trim` on `s`, copied into a `String`: the text without leading and
/// trailing characters of the Unicode `White_Space` property, as the
/// documentation defines it.
#[verifier::external_body]
pub(crate) fn trimmed(s: &str) -> (r: String)
    ensures
        r@ == trim(s@),
{
    String::from(s.trim())
}

/// `s` with `c` inserted before the first character whose UTF-8 encoding
/// starts at byte `idx`.
pub open spec fn insert_at_byte(s: Seq<char>, idx: int, c: char) -> Seq<char> {
    let k = choose|k: int| 0 <= k <= s.len() && encode_utf8(s.take(k)).len() == idx;
    s.take(k).push(c) + s.skip(k)
}

/// `String::insert` of `c` at byte `idx`, which must be a character boundary
/// of the string (else the call panics).
#[verifier::external_body]
pub(crate) fn string_insert(s: &mut String, idx: usize, c: char)
    requires
        exists|k: int| 0 <= k <= old(s)@.len() && encode_utf8(old(s)@.take(k)).len() == idx,
    ensures
        final(s)@ == insert_at_byte(old(s)@, idx as int, c),
{
    s.insert(idx, c)
}

/// `String + &str`: `a`'s text followed by `b`'s.
#[verifier::external_body]
pub(crate) fn string_concat(a: String, b: &str) -> (r: String)
    ensures
        r@ == a@ + b@,
{
    a + b
}

/// The decimal digits of `n`, most significant first, as ASCII bytes.
pub open spec fn decimal_digits(n: nat) -> Seq<u8>
    decreases n,
{
    if n < 10 {
        seq![(48 + n) as u8]
    } else {
        decimal_digits(n / 10).push((48 + n % 10) as u8)
    }
}

pub(crate) proof fn lemma_decimal_digits_ascii(n: nat)
    ensures
        all_ascii(decimal_digits(n)),
        decimal_digits(n).len() <= 10 || n >= 10,
    decreases n,
{
    if n >= 10 {
        lemma_decimal_digits_ascii(n / 10);
    }
}

/// The decimal digits of `n`.
pub(crate) fn push_decimal(out: &mut Vec<u8>, n: u32)
    ensures
        final(out)@ == old(out)@ + decimal_digits(n as nat),
    decreases n,
{
    if n >= 10 {
        push_decimal(out, n / 10);
    }
    out.push(48 + (n % 10) as u8);
    proof {
        if n >= 10 {
            assert(final(out)@ =~= old(out)@ + decimal_digits(n as nat)) by {
                assert(decimal_digits(n as nat) == decimal_digits((n / 10) as nat).push(
                    (48 + n % 10) as u8,
                ));
            }
        } else {
            assert(out@ =~= old(out)@ + decimal_digits(n as nat));
        }
    }
}

/// `n` written in decimal.
pub fn decimal_string(n: u32) -> (s: String)
    ensures
        s@ == ascii_chars(decimal_digits(n as nat)),
{
    let mut digits: Vec<u8> = Vec::new();
    push_decimal(&mut digits, n);
    proof {
        assert(digits@ =~= decimal_digits(n as nat));
        lemma_decimal_digits_ascii(n as nat);
    }
    ascii_string(digits)
}

} // verus!
