//! Text building blocks: UTF-8 validation, decimal and hexadecimal digits.
use vstd::prelude::*;
use vstd::utf8::{encode_utf8, valid_utf8};

verus! {

/// `String::push` appends one character.
pub assume_specification[ std::string::String::push ](s: &mut std::string::String, c: char)
    ensures
        final(s)@ == old(s)@.push(c),
;

/// `std::str::from_utf8` accepts exactly the byte strings that are valid UTF-8, and hands back
/// the text that they encode.
#[verifier::external_body]
pub(crate) fn utf8_text(bytes: &[u8]) -> (text: Option<String>)
    ensures
        match text {
            Some(s) => valid_utf8(bytes@) && encode_utf8(s@) == bytes@,
            None => !valid_utf8(bytes@),
        },
{
    match std::str::from_utf8(bytes) {
        Ok(s) => Some(s.to_string()),
        Err(_) => None,
    }
}

/// The text that `String::from_utf8_lossy` makes of a byte string.
pub uninterp spec fn lossy(bytes: Seq<u8>) -> Seq<char>;

/// `String::from_utf8_lossy` hands back the text that valid UTF-8 encodes. What it puts in place of
/// anything else depends on the bytes alone.
#[verifier::external_body]
pub(crate) fn lossy_text(bytes: &[u8]) -> (text: String)
    ensures
        text@ == lossy(bytes@),
        valid_utf8(bytes@) ==> encode_utf8(text@) == bytes@,
{
    String::from_utf8_lossy(bytes).into_owned()
}

/// The text in quotes, with what is not printable escaped, as `{:?}` shows it.
pub uninterp spec fn quoted(text: Seq<char>) -> Seq<char>;

/// `format!` with `{:?}` puts a text in quotes and escapes what is not printable.
#[verifier::external_body]
pub(crate) fn quoted_text(text: &str) -> (shown: String)
    ensures
        shown@ == quoted(text@),
{
    format!("{:?}", text)
}

/// The character of a decimal or hexadecimal digit, lower case.
pub open spec fn digit_char(digit: nat) -> char {
    if digit < 10 {
        (48 + digit) as char
    } else {
        (87 + digit) as char
    }
}

/// The decimal digits of `n`, without leading zeros.
pub open spec fn decimal(n: nat) -> Seq<char>
    decreases n,
{
    if n < 10 {
        seq![digit_char(n)]
    } else {
        decimal(n / 10).push(digit_char(n % 10))
    }
}

/// The character of one hexadecimal digit.
pub fn digit(value: u8) -> (c: char)
    requires
        value < 16,
    ensures
        c == digit_char(value as nat),
{
    if value < 10 {
        (48 + value) as char
    } else {
        (87 + value) as char
    }
}

/// Appends the decimal digits of `n`.
pub fn push_decimal(out: &mut String, n: u64)
    ensures
        final(out)@ == old(out)@ + decimal(n as nat),
    decreases n,
{
    if n >= 10 {
        push_decimal(out, n / 10);
    }
    out.push(digit((n % 10) as u8));
    assert(out@ =~= old(out)@ + decimal(n as nat));
}

/// `prefix`, the decimal digits of `n`, `suffix`.
pub fn around(prefix: &str, n: u64, suffix: &str) -> (text: String)
    ensures
        text@ == prefix@ + decimal(n as nat) + suffix@,
{
    let mut text = String::from_str(prefix);
    push_decimal(&mut text, n);
    text.append(suffix);
    text
}

/// `prefix`, `rest`.
pub fn after(prefix: &str, rest: &str) -> (text: String)
    ensures
        text@ == prefix@ + rest@,
{
    let mut text = String::from_str(prefix);
    text.append(rest);
    text
}

/// `prefix`, `middle`, `suffix`.
pub fn between(prefix: &str, middle: &str, suffix: &str) -> (text: String)
    ensures
        text@ == prefix@ + middle@ + suffix@,
{
    let mut text = String::from_str(prefix);
    text.append(middle);
    text.append(suffix);
    text
}

/// The lower-case hexadecimal digits of a byte string, two to a byte.
pub open spec fn hex(bytes: Seq<u8>) -> Seq<char> {
    Seq::new(
        2 * bytes.len(),
        |k: int|
            digit_char(
                if k % 2 == 0 {
                    bytes[k / 2] as nat / 16
                } else {
                    bytes[k / 2] as nat % 16
                },
            ),
    )
}

/// The number that a hexadecimal digit stands for, lower case only; 16 for anything else.
pub open spec fn digit_number(c: char) -> nat {
    if '0' <= c <= '9' {
        (c as int - 48) as nat
    } else if 'a' <= c <= 'f' {
        (c as int - 87) as nat
    } else {
        16
    }
}

/// A digit and the number that it stands for determine each other.
pub proof fn lemma_digit_number(c: char, value: nat)
    requires
        value < 16,
    ensures
        digit_number(c) == value <==> c == digit_char(value),
{
}

/// Two byte strings with the same digits are equal.
pub proof fn law_hex_injective(a: Seq<u8>, b: Seq<u8>)
    requires
        hex(a) == hex(b),
    ensures
        a == b,
{
    assert(hex(a).len() == 2 * a.len());
    assert(hex(b).len() == 2 * b.len());
    assert forall|i: int| 0 <= i < a.len() implies a[i] == b[i] by {
        assert((2 * i) / 2 == i && (2 * i) % 2 == 0);
        assert((2 * i + 1) / 2 == i && (2 * i + 1) % 2 == 1);
        assert(hex(a)[2 * i] == hex(b)[2 * i]);
        assert(hex(a)[2 * i + 1] == hex(b)[2 * i + 1]);
        lemma_digit_number(hex(a)[2 * i], a[i] as nat / 16);
        lemma_digit_number(hex(a)[2 * i], b[i] as nat / 16);
        lemma_digit_number(hex(a)[2 * i + 1], a[i] as nat % 16);
        lemma_digit_number(hex(a)[2 * i + 1], b[i] as nat % 16);
    }
    assert(a =~= b);
}

/// The number that a hexadecimal digit stands for, lower case only; 16 for anything else.
fn digit_value(c: char) -> (v: u8)
    ensures
        v == digit_number(c),
{
    if '0' <= c && c <= '9' {
        (c as u32 - 48) as u8
    } else if 'a' <= c && c <= 'f' {
        (c as u32 - 87) as u8
    } else {
        16
    }
}

/// The lower-case hexadecimal digits of `bytes`.
pub fn to_hex(bytes: &[u8]) -> (digits: String)
    ensures
        digits@ == hex(bytes@),
{
    let mut digits = String::new();
    let total: usize = bytes.len();
    let mut i: usize = 0;
    while i < total
        invariant
            i <= total == bytes@.len(),
            digits@ == hex(bytes@.take(i as int)),
        decreases total - i,
    {
        let b: u8 = bytes[i];
        digits.push(digit(b / 16));
        digits.push(digit(b % 16));
        i += 1;
        assert(digits@ =~= hex(bytes@.take(i as int)));
    }
    assert(bytes@.take(total as int) =~= bytes@);
    digits
}

/// The byte string whose digits are `digits`, if there is one.
pub fn from_hex(digits: &str) -> (bytes: Option<Vec<u8>>)
    ensures
        match bytes {
            Some(b) => hex(b@) == digits@,
            None => forall|b: Seq<u8>| #[trigger] hex(b) != digits@,
        },
{
    let len: usize = digits.unicode_len();
    if len % 2 != 0 {
        return None;
    }
    let total: usize = len / 2;
    let mut out: Vec<u8> = Vec::new();
    let mut i: usize = 0;
    while i < total
        invariant
            i <= total,
            digits@.len() == len,
            len == 2 * total,
            out@.len() == i,
            forall|k: int| 0 <= k < 2 * i ==> #[trigger] hex(out@)[k] == digits@[k],
        decreases total - i,
    {
        let hi: u8 = digit_value(digits.get_char(2 * i));
        let lo: u8 = digit_value(digits.get_char(2 * i + 1));
        if hi == 16 || lo == 16 {
            proof {
                assert forall|b: Seq<u8>| #[trigger] hex(b) != digits@ by {
                    if hex(b) == digits@ {
                        assert(hex(b).len() == digits@.len());
                        lemma_digit_number(digits@[2 * i as int], b[i as int] as nat / 16);
                        lemma_digit_number(digits@[2 * i + 1], b[i as int] as nat % 16);
                    }
                }
            }
            return None;
        }
        let ghost before = out@;
        out.push(16 * hi + lo);
        proof {
            lemma_digit_number(digits@[2 * i as int], hi as nat);
            lemma_digit_number(digits@[2 * i + 1], lo as nat);
            assert forall|k: int| 0 <= k < 2 * (i + 1) implies #[trigger] hex(out@)[k]
                == digits@[k] by {
                if k < 2 * i {
                    assert(hex(before)[k] == digits@[k]);
                    assert(out@[k / 2] == before[k / 2]);
                } else {
                    assert(out@[k / 2] == 16 * hi + lo);
                }
            }
        }
        i += 1;
    }
    assert(hex(out@) =~= digits@);
    Some(out)
}

/// The characters of a text.
pub fn characters(s: &str) -> (list: Vec<char>)
    ensures
        list@ == s@,
{
    broadcast use vstd::string::axiom_spec_iter;

    let mut list: Vec<char> = Vec::new();
    for c in it: s.chars()
        invariant
            it.seq() == s@,
            list@ == it.seq().take(it.index()),
    {
        list.push(c);
        assert(list@ =~= it.seq().take(it.index() + 1));
    }
    assert(s@.take(s@.len() as int) =~= s@);
    list
}

/// Whether two texts are equal.
pub fn same_text(a: &str, b: &str) -> (same: bool)
    ensures
        same == (a@ == b@),
{
    let same = crate::octets::same_bytes(a.as_bytes(), b.as_bytes());
    proof {
        vstd::utf8::encode_utf8_decode_utf8(a@);
        vstd::utf8::encode_utf8_decode_utf8(b@);
    }
    same
}

/// The number that decimal digits stand for.
pub open spec fn number(digits: Seq<char>) -> nat
    decreases digits.len(),
{
    if digits.len() == 0 {
        0
    } else {
        (10 * number(digits.drop_last()) + (digits.last() as int - 48)) as nat
    }
}

/// The digits of a number stand for it, and there is no zero in front but for zero itself.
pub proof fn law_decimal_is_the_number(n: nat)
    ensures
        number(decimal(n)) == n,
        decimal(n).len() > 0,
        forall|i: int| 0 <= i < decimal(n).len() ==> '0' <= #[trigger] decimal(n)[i] <= '9',
        decimal(n)[0] == '0' ==> n == 0,
    decreases n,
{
    if n >= 10 {
        law_decimal_is_the_number(n / 10);
        let digits = decimal(n);
        assert(digits.drop_last() =~= decimal(n / 10));
        assert(digits.last() as int - 48 == n % 10);
        assert(digits[0] == decimal(n / 10)[0]);
    } else {
        let digits = decimal(n);
        assert(digits.drop_last() =~= Seq::empty());
        assert(number(digits.drop_last()) == 0);
        assert(digits.last() as int - 48 == n);
    }
}

} // verus!
