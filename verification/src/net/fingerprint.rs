//! Fingerprints: 32-byte digests that name devices and hosts, shown as base32 text.
//!
//! The text is that of RFC 4648, upper case and without padding. It is used as a token in subjects,
//! so it has one spelling only: nothing but the exact text of a fingerprint is read as one.
use crate::octets::{same_bytes, to_array_32};
use crate::text;
use vstd::prelude::*;

verus! {

/// Length of a fingerprint in bytes.
pub const FINGERPRINT_LEN: usize = 32;

/// Length of its text: five bits to a symbol, the last one filled up with zeros.
pub const TOKEN_LEN: usize = 52;

/// A 32-byte digest.
#[derive(Debug, Clone, Copy, Eq)]
pub struct Fingerprint {
    pub bytes: [u8; 32],
}

impl View for Fingerprint {
    type V = Seq<u8>;

    open spec fn view(&self) -> Seq<u8> {
        self.bytes@
    }
}

impl PartialEq for Fingerprint {
    fn eq(&self, other: &Fingerprint) -> (r: bool) {
        same_bytes(self.bytes.as_slice(), other.bytes.as_slice())
    }
}

impl vstd::std_specs::cmp::PartialEqSpecImpl for Fingerprint {
    open spec fn obeys_eq_spec() -> bool {
        true
    }

    open spec fn eq_spec(&self, other: &Fingerprint) -> bool {
        self@ == other@
    }
}

/// A byte string that is not a fingerprint, by its length.
#[derive(Debug, Clone, Copy, PartialEq, Eq, Structural)]
pub struct FingerprintError {
    pub actual: usize,
}

// ---- base32 ----

/// Bit `j` of a byte, the most significant first.
pub open spec fn bit_of(b: u8, j: int) -> bool {
    (b >> ((7 - j) as u8)) & 1 == 1
}

/// Bit `k` of a byte string, and `false` after its end.
pub open spec fn bit_at(bytes: Seq<u8>, k: int) -> bool {
    0 <= k < 8 * bytes.len() && bit_of(bytes[k / 8], k % 8)
}

/// The number whose five binary digits are given, the most significant first.
pub open spec fn quint(b0: bool, b1: bool, b2: bool, b3: bool, b4: bool) -> u8 {
    ((if b0 {
        16int
    } else {
        0
    }) + (if b1 {
        8int
    } else {
        0
    }) + (if b2 {
        4int
    } else {
        0
    }) + (if b3 {
        2int
    } else {
        0
    }) + (if b4 {
        1int
    } else {
        0
    })) as u8
}

/// The five bits that the symbol at `i` stands for.
pub open spec fn symbol_value(bytes: Seq<u8>, i: int) -> u8 {
    quint(
        bit_at(bytes, 5 * i),
        bit_at(bytes, 5 * i + 1),
        bit_at(bytes, 5 * i + 2),
        bit_at(bytes, 5 * i + 3),
        bit_at(bytes, 5 * i + 4),
    )
}

/// The base32 symbol of a number below 32: `A` to `Z`, then `2` to `7`.
pub open spec fn symbol(v: u8) -> char {
    if v < 26 {
        (65 + v) as char
    } else {
        (24 + v) as char
    }
}

/// The base32 text of a fingerprint.
pub open spec fn token(bytes: Seq<u8>) -> Seq<char> {
    Seq::new(TOKEN_LEN as nat, |i: int| symbol(symbol_value(bytes, i)))
}

/// The number that a symbol stands for; 32 for what is no symbol.
pub open spec fn value_of(c: char) -> u8 {
    if 'A' <= c <= 'Z' {
        (c as int - 65) as u8
    } else if '2' <= c <= '7' {
        (c as int - 24) as u8
    } else {
        32
    }
}

proof fn lemma_value_of_symbol(v: u8)
    requires
        v < 32,
    ensures
        value_of(symbol(v)) == v,
{
}

/// Bit `j` of a five-bit number, the most significant first.
pub open spec fn quint_bit(v: u8, j: int) -> bool {
    (v >> ((4 - j) as u8)) & 1 == 1
}

proof fn lemma_quint_bits(b0: bool, b1: bool, b2: bool, b3: bool, b4: bool)
    ensures
        quint(b0, b1, b2, b3, b4) < 32,
        quint_bit(quint(b0, b1, b2, b3, b4), 0) == b0,
        quint_bit(quint(b0, b1, b2, b3, b4), 1) == b1,
        quint_bit(quint(b0, b1, b2, b3, b4), 2) == b2,
        quint_bit(quint(b0, b1, b2, b3, b4), 3) == b3,
        quint_bit(quint(b0, b1, b2, b3, b4), 4) == b4,
{
    let v = quint(b0, b1, b2, b3, b4);
    assert(v < 32);
    let d0 = if b0 {
        1u8
    } else {
        0u8
    };
    let d1 = if b1 {
        1u8
    } else {
        0u8
    };
    let d2 = if b2 {
        1u8
    } else {
        0u8
    };
    let d3 = if b3 {
        1u8
    } else {
        0u8
    };
    let d4 = if b4 {
        1u8
    } else {
        0u8
    };
    assert(v == 16 * d0 + 8 * d1 + 4 * d2 + 2 * d3 + d4);
    assert((v >> 4) & 1 == d0 && (v >> 3) & 1 == d1 && (v >> 2) & 1 == d2 && (v >> 1) & 1 == d3
        && (v >> 0) & 1 == d4) by (bit_vector)
        requires
            v == 16 * d0 + 8 * d1 + 4 * d2 + 2 * d3 + d4,
            d0 <= 1,
            d1 <= 1,
            d2 <= 1,
            d3 <= 1,
            d4 <= 1,
    ;
}

/// A byte is determined by its bits.
pub proof fn lemma_byte_of_bits(a: u8, b: u8)
    requires
        forall|j: int| 0 <= j < 8 ==> #[trigger] bit_of(a, j) == bit_of(b, j),
    ensures
        a == b,
{
    assert(bit_of(a, 0) == bit_of(b, 0));
    assert(bit_of(a, 1) == bit_of(b, 1));
    assert(bit_of(a, 2) == bit_of(b, 2));
    assert(bit_of(a, 3) == bit_of(b, 3));
    assert(bit_of(a, 4) == bit_of(b, 4));
    assert(bit_of(a, 5) == bit_of(b, 5));
    assert(bit_of(a, 6) == bit_of(b, 6));
    assert(bit_of(a, 7) == bit_of(b, 7));
    assert(a == b) by (bit_vector)
        requires
            ((a >> 7) & 1 == 1) == ((b >> 7) & 1 == 1),
            ((a >> 6) & 1 == 1) == ((b >> 6) & 1 == 1),
            ((a >> 5) & 1 == 1) == ((b >> 5) & 1 == 1),
            ((a >> 4) & 1 == 1) == ((b >> 4) & 1 == 1),
            ((a >> 3) & 1 == 1) == ((b >> 3) & 1 == 1),
            ((a >> 2) & 1 == 1) == ((b >> 2) & 1 == 1),
            ((a >> 1) & 1 == 1) == ((b >> 1) & 1 == 1),
            ((a >> 0) & 1 == 1) == ((b >> 0) & 1 == 1),
    ;
}

/// The bit of a fingerprint that a symbol of its text holds.
proof fn lemma_bit_of_symbol(bytes: Seq<u8>, k: int)
    requires
        bytes.len() == FINGERPRINT_LEN,
        0 <= k < 256,
    ensures
        0 <= k / 5 < TOKEN_LEN,
        quint_bit(value_of(token(bytes)[k / 5]), k % 5) == bit_at(bytes, k),
{
    let i = k / 5;
    let v = symbol_value(bytes, i);
    lemma_quint_bits(
        bit_at(bytes, 5 * i),
        bit_at(bytes, 5 * i + 1),
        bit_at(bytes, 5 * i + 2),
        bit_at(bytes, 5 * i + 3),
        bit_at(bytes, 5 * i + 4),
    );
    lemma_value_of_symbol(v);
}

/// Two fingerprints with the same text are equal.
pub proof fn law_token_injective(a: Seq<u8>, b: Seq<u8>)
    requires
        a.len() == FINGERPRINT_LEN,
        b.len() == FINGERPRINT_LEN,
        token(a) == token(b),
    ensures
        a == b,
{
    assert forall|i: int| 0 <= i < a.len() implies a[i] == b[i] by {
        assert forall|j: int| 0 <= j < 8 implies #[trigger] bit_of(a[i], j) == bit_of(b[i], j) by {
            let k = 8 * i + j;
            lemma_bit_of_symbol(a, k);
            lemma_bit_of_symbol(b, k);
            assert(k / 8 == i && k % 8 == j);
        }
        lemma_byte_of_bits(a[i], b[i]);
    }
    assert(a =~= b);
}

/// No symbol is a dot, so a token is one token of a subject.
pub proof fn lemma_token_has_no_dot(bytes: Seq<u8>)
    ensures
        token(bytes).len() == TOKEN_LEN,
        forall|i: int| 0 <= i < TOKEN_LEN ==> #[trigger] token(bytes)[i] != '.',
{
    assert forall|i: int| 0 <= i < TOKEN_LEN implies #[trigger] token(bytes)[i] != '.' by {
        lemma_quint_bits(
            bit_at(bytes, 5 * i),
            bit_at(bytes, 5 * i + 1),
            bit_at(bytes, 5 * i + 2),
            bit_at(bytes, 5 * i + 3),
            bit_at(bytes, 5 * i + 4),
        );
    }
}

/// The value of bit `k` of `bytes`, as a number.
fn read_bit(bytes: &[u8], k: usize) -> (bit: u8)
    requires
        bytes@.len() == FINGERPRINT_LEN,
    ensures
        bit <= 1,
        (bit == 1) == bit_at(bytes@, k as int),
{
    if k >= 256 {
        return 0;
    }
    let b: u8 = bytes[k / 8];
    let shift: u8 = 7 - (k % 8) as u8;
    let bit: u8 = (b >> shift) & 1;
    assert(bit <= 1) by (bit_vector)
        requires
            bit == (b >> shift) & 1,
            shift <= 7,
    ;
    bit
}

/// The symbol of a number below 32.
fn symbol_char(v: u8) -> (c: char)
    requires
        v < 32,
    ensures
        c == symbol(v),
{
    if v < 26 {
        (65 + v) as char
    } else {
        (24 + v) as char
    }
}

/// The number that a symbol stands for; 32 for what is no symbol.
fn symbol_number(c: char) -> (v: u8)
    ensures
        v == value_of(c),
{
    if 'A' <= c && c <= 'Z' {
        (c as u32 - 65) as u8
    } else if '2' <= c && c <= '7' {
        (c as u32 - 24) as u8
    } else {
        32
    }
}

impl Fingerprint {
    /// The fingerprint with the given bytes.
    pub fn from_slice(bytes: &[u8]) -> (r: Result<Fingerprint, FingerprintError>)
        ensures
            match r {
                Ok(fp) => bytes@.len() == FINGERPRINT_LEN && fp@ == bytes@,
                Err(e) => bytes@.len() != FINGERPRINT_LEN && e.actual == bytes@.len(),
            },
    {
        let actual: usize = bytes.len();
        if actual != FINGERPRINT_LEN {
            return Err(FingerprintError { actual });
        }
        Ok(Fingerprint { bytes: to_array_32(bytes) })
    }

    /// The base32 text.
    pub fn to_string(&self) -> (s: String)
        ensures
            s@ == token(self@),
    {
        let mut out = String::new();
        let bytes = self.bytes.as_slice();
        let mut i: usize = 0;
        while i < TOKEN_LEN
            invariant
                i <= TOKEN_LEN,
                bytes@ == self@,
                bytes@.len() == FINGERPRINT_LEN,
                out@ == token(self@).take(i as int),
            decreases TOKEN_LEN - i,
        {
            let d0: u8 = read_bit(bytes, 5 * i);
            let d1: u8 = read_bit(bytes, 5 * i + 1);
            let d2: u8 = read_bit(bytes, 5 * i + 2);
            let d3: u8 = read_bit(bytes, 5 * i + 3);
            let d4: u8 = read_bit(bytes, 5 * i + 4);
            let v: u8 = 16 * d0 + 8 * d1 + 4 * d2 + 2 * d3 + d4;
            assert(v == symbol_value(bytes@, i as int));
            out.push(symbol_char(v));
            i += 1;
            assert(out@ =~= token(self@).take(i as int));
        }
        assert(token(self@).take(TOKEN_LEN as int) =~= token(self@));
        out
    }

    /// The fingerprint whose text is `s`, if there is one.
    pub fn parse(s: &str) -> (r: Option<Fingerprint>)
        ensures
            match r {
                Some(fp) => token(fp@) == s@,
                None => forall|b: Seq<u8>|
                    b.len() == FINGERPRINT_LEN ==> #[trigger] token(b) != s@,
            },
    {
        if s.unicode_len() != TOKEN_LEN {
            return None;
        }
        let mut values: Vec<u8> = Vec::new();
        let mut i: usize = 0;
        while i < TOKEN_LEN
            invariant
                i <= TOKEN_LEN,
                s@.len() == TOKEN_LEN,
                values@.len() == i,
                forall|j: int| 0 <= j < i ==> #[trigger] values@[j] == value_of(s@[j]),
            decreases TOKEN_LEN - i,
        {
            values.push(symbol_number(s.get_char(i)));
            i += 1;
        }
        let fp = Fingerprint { bytes: bytes_of_values(values.as_slice()) };
        proof {
            assert forall|b: Seq<u8>| b.len() == FINGERPRINT_LEN && #[trigger] token(b)
                == s@ implies fp@ == b by {
                assert forall|m: int| 0 <= m < 32 implies #[trigger] fp@[m] == b[m] by {
                    assert forall|j: int| 0 <= j < 8 implies #[trigger] bit_of(fp@[m], j) == bit_of(
                        b[m],
                        j,
                    ) by {
                        let k = 8 * m + j;
                        lemma_bit_of_symbol(b, k);
                        assert(k / 8 == m && k % 8 == j);
                        assert(bit_at(fp@, k) == quint_bit(values@[k / 5], k % 5));
                        assert(values@[k / 5] == value_of(s@[k / 5]));
                    }
                    lemma_byte_of_bits(fp@[m], b[m]);
                }
                assert(fp@ =~= b);
            }
        }
        let again = fp.to_string();
        if text::same_text(again.as_str(), s) {
            Some(fp)
        } else {
            None
        }
    }
}

/// The bit of `values`, five to a number, that becomes bit `k` of the bytes.
fn value_bit(values: &[u8], k: usize) -> (bit: u8)
    requires
        values@.len() == TOKEN_LEN,
        k < 256,
    ensures
        bit <= 1,
        (bit == 1) == quint_bit(values@[k as int / 5], k as int % 5),
{
    let v: u8 = values[k / 5];
    let shift: u8 = 4 - (k % 5) as u8;
    let bit: u8 = (v >> shift) & 1;
    assert(bit <= 1) by (bit_vector)
        requires
            bit == (v >> shift) & 1,
            shift <= 4,
    ;
    bit
}

/// The byte with the given bits, the most significant first.
fn byte_of(d: [u8; 8]) -> (b: u8)
    requires
        forall|j: int| 0 <= j < 8 ==> #[trigger] d@[j] <= 1,
    ensures
        forall|j: int| 0 <= j < 8 ==> #[trigger] bit_of(b, j) == (d@[j] == 1),
{
    let (d0, d1, d2, d3): (u8, u8, u8, u8) = (d[0], d[1], d[2], d[3]);
    let (d4, d5, d6, d7): (u8, u8, u8, u8) = (d[4], d[5], d[6], d[7]);
    assert(d@[0] <= 1 && d@[1] <= 1 && d@[2] <= 1 && d@[3] <= 1);
    assert(d@[4] <= 1 && d@[5] <= 1 && d@[6] <= 1 && d@[7] <= 1);
    let b: u8 = 128 * d0 + 64 * d1 + 32 * d2 + 16 * d3 + 8 * d4 + 4 * d5 + 2 * d6 + d7;
    assert((b >> 7) & 1 == d0 && (b >> 6) & 1 == d1 && (b >> 5) & 1 == d2 && (b >> 4) & 1 == d3 && (
    b >> 3) & 1 == d4 && (b >> 2) & 1 == d5 && (b >> 1) & 1 == d6 && (b >> 0) & 1 == d7)
        by (bit_vector)
        requires
            b == 128 * d0 + 64 * d1 + 32 * d2 + 16 * d3 + 8 * d4 + 4 * d5 + 2 * d6 + d7,
            d0 <= 1,
            d1 <= 1,
            d2 <= 1,
            d3 <= 1,
            d4 <= 1,
            d5 <= 1,
            d6 <= 1,
            d7 <= 1,
    ;
    assert forall|j: int| 0 <= j < 8 implies #[trigger] bit_of(b, j) == (d@[j] == 1) by {
        assert(j == 0 || j == 1 || j == 2 || j == 3 || j == 4 || j == 5 || j == 6 || j == 7);
    }
    b
}

/// The bytes whose bits `values` holds, five to a number.
fn bytes_of_values(values: &[u8]) -> (bytes: [u8; 32])
    requires
        values@.len() == TOKEN_LEN,
    ensures
        forall|k: int|
            0 <= k < 256 ==> #[trigger] bit_at(bytes@, k) == quint_bit(values@[k / 5], k % 5),
{
    let mut bytes: [u8; 32] = [0u8; 32];
    let mut m: usize = 0;
    while m < 32
        invariant
            m <= 32,
            bytes@.len() == 32,
            values@.len() == TOKEN_LEN,
            forall|k: int|
                0 <= k < 8 * m ==> #[trigger] bit_at(bytes@, k) == quint_bit(
                    values@[k / 5],
                    k % 5,
                ),
        decreases 32 - m,
    {
        let d: [u8; 8] = [
            value_bit(values, 8 * m),
            value_bit(values, 8 * m + 1),
            value_bit(values, 8 * m + 2),
            value_bit(values, 8 * m + 3),
            value_bit(values, 8 * m + 4),
            value_bit(values, 8 * m + 5),
            value_bit(values, 8 * m + 6),
            value_bit(values, 8 * m + 7),
        ];
        let b: u8 = byte_of(d);
        let ghost before = bytes@;
        bytes[m] = b;
        assert forall|k: int| 0 <= k < 8 * (m + 1) implies #[trigger] bit_at(bytes@, k)
            == quint_bit(values@[k / 5], k % 5) by {
            if k < 8 * m {
                assert(bit_at(before, k) == quint_bit(values@[k / 5], k % 5));
                assert(k / 8 != m);
            } else {
                let j = k - 8 * m;
                assert(k / 8 == m && k % 8 == j);
                assert(bit_of(b, j) == (d@[j] == 1));
            }
        }
        m += 1;
    }
    bytes
}

/// A byte is the sum of its bits, the first standing for 128.
pub proof fn law_byte_of_bits(b: u8)
    ensures
        b == (if bit_of(b, 0) {
            128int
        } else {
            0
        }) + (if bit_of(b, 1) {
            64int
        } else {
            0
        }) + (if bit_of(b, 2) {
            32int
        } else {
            0
        }) + (if bit_of(b, 3) {
            16int
        } else {
            0
        }) + (if bit_of(b, 4) {
            8int
        } else {
            0
        }) + (if bit_of(b, 5) {
            4int
        } else {
            0
        }) + (if bit_of(b, 6) {
            2int
        } else {
            0
        }) + (if bit_of(b, 7) {
            1int
        } else {
            0
        }),
{
    assert(b == 128 * ((b >> 7) & 1) + 64 * ((b >> 6) & 1) + 32 * ((b >> 5) & 1) + 16 * ((b >> 4)
        & 1) + 8 * ((b >> 3) & 1) + 4 * ((b >> 2) & 1) + 2 * ((b >> 1) & 1) + ((b >> 0) & 1)
        && (b >> 7) & 1 <= 1 && (b >> 6) & 1 <= 1 && (b >> 5) & 1 <= 1 && (b >> 4) & 1 <= 1 && (b
        >> 3) & 1 <= 1 && (b >> 2) & 1 <= 1 && (b >> 1) & 1 <= 1 && (b >> 0) & 1 <= 1)
        by (bit_vector);
}

/// The symbols are the capital letters and then the digits from 2 to 7.
pub proof fn law_alphabet(v: u8)
    requires
        v < 32,
    ensures
        symbol(v) == "ABCDEFGHIJKLMNOPQRSTUVWXYZ234567"@[v as int],
{
    reveal_strlit("ABCDEFGHIJKLMNOPQRSTUVWXYZ234567");
}

/// Where a bit of five bytes stands.
proof fn lemma_bit_in_group(bytes: Seq<u8>, group: int, k: int)
    requires
        bytes.len() == 32,
        0 <= group <= 6,
        0 <= k < 40,
        5 * group + k / 8 < 32,
    ensures
        bit_at(bytes, 40 * group + k) == bit_of(bytes[5 * group + k / 8], k % 8),
{
    let at = 40 * group + k;
    assert(at / 8 == 5 * group + k / 8 && at % 8 == k % 8);
}

/// The five bits before the last of a byte.
proof fn lemma_inner_bits(b: u8)
    ensures
        b / 2 % 32 == (if bit_of(b, 2) {
            16int
        } else {
            0
        }) + (if bit_of(b, 3) {
            8int
        } else {
            0
        }) + (if bit_of(b, 4) {
            4int
        } else {
            0
        }) + (if bit_of(b, 5) {
            2int
        } else {
            0
        }) + (if bit_of(b, 6) {
            1int
        } else {
            0
        }),
{
    assert(b / 2 % 32 == 16 * ((b >> 5) & 1) + 8 * ((b >> 4) & 1) + 4 * ((b >> 3) & 1)
        + 2 * ((b >> 2) & 1) + ((b >> 1) & 1) && (b >> 5) & 1 <= 1 && (b >> 4) & 1 <= 1
        && (b >> 3) & 1 <= 1 && (b >> 2) & 1 <= 1 && (b >> 1) & 1 <= 1) by (bit_vector);
}

/// The last four bits of a byte.
proof fn lemma_low_half(b: u8)
    ensures
        b % 16 == (if bit_of(b, 4) {
            8int
        } else {
            0
        }) + (if bit_of(b, 5) {
            4int
        } else {
            0
        }) + (if bit_of(b, 6) {
            2int
        } else {
            0
        }) + (if bit_of(b, 7) {
            1int
        } else {
            0
        }),
{
    assert(b % 16 == 8 * ((b >> 3) & 1) + 4 * ((b >> 2) & 1) + 2 * ((b >> 1) & 1) + ((b >> 0) & 1)
        && (b >> 3) & 1 <= 1 && (b >> 2) & 1 <= 1 && (b >> 1) & 1 <= 1
        && (b >> 0) & 1 <= 1) by (bit_vector);
}

/// The first bit of a byte.
proof fn lemma_first_bit(b: u8)
    ensures
        b / 128 == (if bit_of(b, 0) {
            1int
        } else {
            0
        }),
{
    assert(b / 128 == ((b >> 7) & 1) && (b >> 7) & 1 <= 1) by (bit_vector);
}

/// The five bits behind the first of a byte.
proof fn lemma_middle_bits(b: u8)
    ensures
        b / 4 % 32 == (if bit_of(b, 1) {
            16int
        } else {
            0
        }) + (if bit_of(b, 2) {
            8int
        } else {
            0
        }) + (if bit_of(b, 3) {
            4int
        } else {
            0
        }) + (if bit_of(b, 4) {
            2int
        } else {
            0
        }) + (if bit_of(b, 5) {
            1int
        } else {
            0
        }),
{
    assert(b / 4 % 32 == 16 * ((b >> 6) & 1) + 8 * ((b >> 5) & 1) + 4 * ((b >> 4) & 1)
        + 2 * ((b >> 3) & 1) + ((b >> 2) & 1) && (b >> 6) & 1 <= 1 && (b >> 5) & 1 <= 1
        && (b >> 4) & 1 <= 1 && (b >> 3) & 1 <= 1 && (b >> 2) & 1 <= 1) by (bit_vector);
}

/// The first five bits of a byte.
proof fn lemma_first_five(b: u8)
    ensures
        b / 8 == (if bit_of(b, 0) {
            16int
        } else {
            0
        }) + (if bit_of(b, 1) {
            8int
        } else {
            0
        }) + (if bit_of(b, 2) {
            4int
        } else {
            0
        }) + (if bit_of(b, 3) {
            2int
        } else {
            0
        }) + (if bit_of(b, 4) {
            1int
        } else {
            0
        }),
{
    assert(b / 8 == 16 * ((b >> 7) & 1) + 8 * ((b >> 6) & 1) + 4 * ((b >> 5) & 1)
        + 2 * ((b >> 4) & 1) + ((b >> 3) & 1) && (b >> 7) & 1 <= 1 && (b >> 6) & 1 <= 1
        && (b >> 5) & 1 <= 1 && (b >> 4) & 1 <= 1 && (b >> 3) & 1 <= 1) by (bit_vector);
}

/// The last three bits of a byte.
proof fn lemma_last_three(b: u8)
    ensures
        b % 8 == (if bit_of(b, 5) {
            4int
        } else {
            0
        }) + (if bit_of(b, 6) {
            2int
        } else {
            0
        }) + (if bit_of(b, 7) {
            1int
        } else {
            0
        }),
{
    assert(b % 8 == 4 * ((b >> 2) & 1) + 2 * ((b >> 1) & 1) + ((b >> 0) & 1) && (b >> 2) & 1 <= 1
        && (b >> 1) & 1 <= 1 && (b >> 0) & 1 <= 1) by (bit_vector);
}

/// The first two bits of a byte.
proof fn lemma_first_two(b: u8)
    ensures
        b / 64 == (if bit_of(b, 0) {
            2int
        } else {
            0
        }) + (if bit_of(b, 1) {
            1int
        } else {
            0
        }),
{
    assert(b / 64 == 2 * ((b >> 7) & 1) + ((b >> 6) & 1) && (b >> 7) & 1 <= 1
        && (b >> 6) & 1 <= 1) by (bit_vector);
}

/// The last bit of a byte.
proof fn lemma_last_bit(b: u8)
    ensures
        b % 2 == (if bit_of(b, 7) {
            1int
        } else {
            0
        }),
{
    assert(b % 2 == ((b >> 0) & 1) && (b >> 0) & 1 <= 1) by (bit_vector);
}

/// The first four bits of a byte.
proof fn lemma_high_half(b: u8)
    ensures
        b / 16 == (if bit_of(b, 0) {
            8int
        } else {
            0
        }) + (if bit_of(b, 1) {
            4int
        } else {
            0
        }) + (if bit_of(b, 2) {
            2int
        } else {
            0
        }) + (if bit_of(b, 3) {
            1int
        } else {
            0
        }),
{
    assert(b / 16 == 8 * ((b >> 7) & 1) + 4 * ((b >> 6) & 1) + 2 * ((b >> 5) & 1) + ((b >> 4) & 1)
        && (b >> 7) & 1 <= 1 && (b >> 6) & 1 <= 1 && (b >> 5) & 1 <= 1
        && (b >> 4) & 1 <= 1) by (bit_vector);
}

/// The last two bits of a byte.
proof fn lemma_last_two(b: u8)
    ensures
        b % 4 == (if bit_of(b, 6) {
            2int
        } else {
            0
        }) + (if bit_of(b, 7) {
            1int
        } else {
            0
        }),
{
    assert(b % 4 == 2 * ((b >> 1) & 1) + ((b >> 0) & 1) && (b >> 1) & 1 <= 1
        && (b >> 0) & 1 <= 1) by (bit_vector);
}

/// The first three bits of a byte.
proof fn lemma_first_three(b: u8)
    ensures
        b / 32 == (if bit_of(b, 0) {
            4int
        } else {
            0
        }) + (if bit_of(b, 1) {
            2int
        } else {
            0
        }) + (if bit_of(b, 2) {
            1int
        } else {
            0
        }),
{
    assert(b / 32 == 4 * ((b >> 7) & 1) + 2 * ((b >> 6) & 1) + ((b >> 5) & 1) && (b >> 7) & 1 <= 1
        && (b >> 6) & 1 <= 1 && (b >> 5) & 1 <= 1) by (bit_vector);
}

/// The last five bits of a byte.
proof fn lemma_last_five(b: u8)
    ensures
        b % 32 == (if bit_of(b, 3) {
            16int
        } else {
            0
        }) + (if bit_of(b, 4) {
            8int
        } else {
            0
        }) + (if bit_of(b, 5) {
            4int
        } else {
            0
        }) + (if bit_of(b, 6) {
            2int
        } else {
            0
        }) + (if bit_of(b, 7) {
            1int
        } else {
            0
        }),
{
    assert(b % 32 == 16 * ((b >> 4) & 1) + 8 * ((b >> 3) & 1) + 4 * ((b >> 2) & 1)
        + 2 * ((b >> 1) & 1) + ((b >> 0) & 1) && (b >> 4) & 1 <= 1 && (b >> 3) & 1 <= 1
        && (b >> 2) & 1 <= 1 && (b >> 1) & 1 <= 1 && (b >> 0) & 1 <= 1) by (bit_vector);
}

proof fn lemma_symbol_0(bytes: Seq<u8>, group: int)
    requires
        bytes.len() == 32,
        0 <= group <= 6,
    ensures
        symbol_value(bytes, 8 * group) == bytes[5 * group] as int / 8,
{
    lemma_bit_in_group(bytes, group, 0);
    lemma_bit_in_group(bytes, group, 1);
    lemma_bit_in_group(bytes, group, 2);
    lemma_bit_in_group(bytes, group, 3);
    lemma_bit_in_group(bytes, group, 4);
    lemma_first_five(bytes[5 * group]);
}

proof fn lemma_symbol_1(bytes: Seq<u8>, group: int)
    requires
        bytes.len() == 32,
        0 <= group <= 6,
    ensures
        symbol_value(bytes, 8 * group + 1) == bytes[5 * group] as int % 8 * 4 + bytes[5 * group
            + 1] as int / 64,
{
    lemma_bit_in_group(bytes, group, 5);
    lemma_bit_in_group(bytes, group, 6);
    lemma_bit_in_group(bytes, group, 7);
    lemma_bit_in_group(bytes, group, 8);
    lemma_bit_in_group(bytes, group, 9);
    lemma_last_three(bytes[5 * group]);
    lemma_first_two(bytes[5 * group + 1]);
}

proof fn lemma_symbol_2(bytes: Seq<u8>, group: int)
    requires
        bytes.len() == 32,
        0 <= group <= 6,
    ensures
        symbol_value(bytes, 8 * group + 2) == bytes[5 * group + 1] as int / 2 % 32,
{
    lemma_bit_in_group(bytes, group, 10);
    lemma_bit_in_group(bytes, group, 11);
    lemma_bit_in_group(bytes, group, 12);
    lemma_bit_in_group(bytes, group, 13);
    lemma_bit_in_group(bytes, group, 14);
    lemma_inner_bits(bytes[5 * group + 1]);
}

proof fn lemma_symbol_3(bytes: Seq<u8>, group: int)
    requires
        bytes.len() == 32,
        0 <= group < 6,
    ensures
        symbol_value(bytes, 8 * group + 3) == bytes[5 * group + 1] as int % 2 * 16
            + bytes[5 * group + 2] as int / 16,
{
    lemma_bit_in_group(bytes, group, 15);
    lemma_bit_in_group(bytes, group, 16);
    lemma_bit_in_group(bytes, group, 17);
    lemma_bit_in_group(bytes, group, 18);
    lemma_bit_in_group(bytes, group, 19);
    lemma_last_bit(bytes[5 * group + 1]);
    lemma_high_half(bytes[5 * group + 2]);
}

proof fn lemma_symbol_4(bytes: Seq<u8>, group: int)
    requires
        bytes.len() == 32,
        0 <= group < 6,
    ensures
        symbol_value(bytes, 8 * group + 4) == bytes[5 * group + 2] as int % 16 * 2
            + bytes[5 * group + 3] as int / 128,
{
    lemma_bit_in_group(bytes, group, 20);
    lemma_bit_in_group(bytes, group, 21);
    lemma_bit_in_group(bytes, group, 22);
    lemma_bit_in_group(bytes, group, 23);
    lemma_bit_in_group(bytes, group, 24);
    lemma_low_half(bytes[5 * group + 2]);
    lemma_first_bit(bytes[5 * group + 3]);
}

proof fn lemma_symbol_5(bytes: Seq<u8>, group: int)
    requires
        bytes.len() == 32,
        0 <= group < 6,
    ensures
        symbol_value(bytes, 8 * group + 5) == bytes[5 * group + 3] as int / 4 % 32,
{
    lemma_bit_in_group(bytes, group, 25);
    lemma_bit_in_group(bytes, group, 26);
    lemma_bit_in_group(bytes, group, 27);
    lemma_bit_in_group(bytes, group, 28);
    lemma_bit_in_group(bytes, group, 29);
    lemma_middle_bits(bytes[5 * group + 3]);
}

proof fn lemma_symbol_6(bytes: Seq<u8>, group: int)
    requires
        bytes.len() == 32,
        0 <= group < 6,
    ensures
        symbol_value(bytes, 8 * group + 6) == bytes[5 * group + 3] as int % 4 * 8 + bytes[5 * group
            + 4] as int / 32,
{
    lemma_bit_in_group(bytes, group, 30);
    lemma_bit_in_group(bytes, group, 31);
    lemma_bit_in_group(bytes, group, 32);
    lemma_bit_in_group(bytes, group, 33);
    lemma_bit_in_group(bytes, group, 34);
    lemma_last_two(bytes[5 * group + 3]);
    lemma_first_three(bytes[5 * group + 4]);
}

proof fn lemma_symbol_7(bytes: Seq<u8>, group: int)
    requires
        bytes.len() == 32,
        0 <= group < 6,
    ensures
        symbol_value(bytes, 8 * group + 7) == bytes[5 * group + 4] as int % 32,
{
    lemma_bit_in_group(bytes, group, 35);
    lemma_bit_in_group(bytes, group, 36);
    lemma_bit_in_group(bytes, group, 37);
    lemma_bit_in_group(bytes, group, 38);
    lemma_bit_in_group(bytes, group, 39);
    lemma_last_five(bytes[5 * group + 4]);
}

/// Five bytes are eight symbols, of five bits each.
pub proof fn law_five_bytes_are_eight_symbols(bytes: Seq<u8>, group: int)
    requires
        bytes.len() == 32,
        0 <= group < 6,
    ensures
        ({
            let t = token(bytes);
            let (a, b, c, d, e) = (
                bytes[5 * group] as int,
                bytes[5 * group + 1] as int,
                bytes[5 * group + 2] as int,
                bytes[5 * group + 3] as int,
                bytes[5 * group + 4] as int,
            );
            &&& t.len() == 52
            &&& t[8 * group] == symbol((a / 8) as u8)
            &&& t[8 * group + 1] == symbol((a % 8 * 4 + b / 64) as u8)
            &&& t[8 * group + 2] == symbol((b / 2 % 32) as u8)
            &&& t[8 * group + 3] == symbol((b % 2 * 16 + c / 16) as u8)
            &&& t[8 * group + 4] == symbol((c % 16 * 2 + d / 128) as u8)
            &&& t[8 * group + 5] == symbol((d / 4 % 32) as u8)
            &&& t[8 * group + 6] == symbol((d % 4 * 8 + e / 32) as u8)
            &&& t[8 * group + 7] == symbol((e % 32) as u8)
        }),
{
    lemma_symbol_0(bytes, group);
    lemma_symbol_1(bytes, group);
    lemma_symbol_2(bytes, group);
    lemma_symbol_3(bytes, group);
    lemma_symbol_4(bytes, group);
    lemma_symbol_5(bytes, group);
    lemma_symbol_6(bytes, group);
    lemma_symbol_7(bytes, group);
}

/// The last two bytes are four symbols, the last of them filled up with zeros.
pub proof fn law_last_four_symbols(bytes: Seq<u8>)
    requires
        bytes.len() == 32,
    ensures
        ({
            let t = token(bytes);
            let (a, b) = (bytes[30] as int, bytes[31] as int);
            &&& t[48] == symbol((a / 8) as u8)
            &&& t[49] == symbol((a % 8 * 4 + b / 64) as u8)
            &&& t[50] == symbol((b / 2 % 32) as u8)
            &&& t[51] == symbol((b % 2 * 16) as u8)
        }),
{
    lemma_symbol_0(bytes, 6);
    lemma_symbol_1(bytes, 6);
    lemma_symbol_2(bytes, 6);
    lemma_bit_in_group(bytes, 6, 15);
    lemma_last_bit(bytes[31]);
}

} // verus!
