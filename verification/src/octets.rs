//! Byte-string arithmetic shared by every wire format in this crate: big-endian integers and the
//! bytewise (lexicographic) order that canonical map keys are sorted by.
use vstd::prelude::*;

verus! {

/// The `width` low-order base-256 digits of `value`, most significant first.
pub open spec fn be_bytes(value: nat, width: nat) -> Seq<u8>
    decreases width,
{
    if width == 0 {
        Seq::empty()
    } else {
        be_bytes(value / 256, (width - 1) as nat).push((value % 256) as u8)
    }
}

/// The integer that a big-endian digit string denotes.
pub open spec fn be_value(digits: Seq<u8>) -> nat
    decreases digits.len(),
{
    if digits.len() == 0 {
        0
    } else {
        256 * be_value(digits.drop_last()) + digits.last() as nat
    }
}

/// `256` raised to `width`: the number of values that `width` bytes can hold.
pub open spec fn be_limit(width: nat) -> nat
    decreases width,
{
    if width == 0 {
        1
    } else {
        256 * be_limit((width - 1) as nat)
    }
}

/// Strict bytewise order: at the first difference the smaller byte comes first, and a proper
/// prefix comes before its extensions.
pub open spec fn bytes_before(a: Seq<u8>, b: Seq<u8>) -> bool
    decreases a.len(),
{
    if b.len() == 0 {
        false
    } else if a.len() == 0 {
        true
    } else {
        a[0] < b[0] || (a[0] == b[0] && bytes_before(a.drop_first(), b.drop_first()))
    }
}

pub proof fn lemma_be_limits()
    ensures
        be_limit(1) == 0x100,
        be_limit(2) == 0x1_0000,
        be_limit(4) == 0x1_0000_0000,
        be_limit(8) == 0x1_0000_0000_0000_0000,
{
    reveal_with_fuel(be_limit, 9);
}

pub proof fn lemma_be_limit_monotone(small: nat, large: nat)
    requires
        small <= large,
    ensures
        1 <= be_limit(small) <= be_limit(large),
    decreases large,
{
    if small < large {
        lemma_be_limit_monotone(small, (large - 1) as nat);
    } else if large > 0 {
        lemma_be_limit_monotone((small - 1) as nat, (large - 1) as nat);
    }
}

pub proof fn lemma_be_value_bound(digits: Seq<u8>)
    ensures
        be_value(digits) < be_limit(digits.len()),
    decreases digits.len(),
{
    if digits.len() > 0 {
        lemma_be_value_bound(digits.drop_last());
    }
}

pub proof fn lemma_be_bytes_len(value: nat, width: nat)
    ensures
        be_bytes(value, width).len() == width,
    decreases width,
{
    if width > 0 {
        lemma_be_bytes_len(value / 256, (width - 1) as nat);
    }
}

/// Reading back the big-endian digits of a value that fits gives the value.
pub proof fn lemma_be_round_trip(value: nat, width: nat)
    requires
        value < be_limit(width),
    ensures
        be_bytes(value, width).len() == width,
        be_value(be_bytes(value, width)) == value,
    decreases width,
{
    if width > 0 {
        lemma_be_round_trip(value / 256, (width - 1) as nat);
        assert(be_bytes(value, width).drop_last() =~= be_bytes(value / 256, (width - 1) as nat));
    }
}

/// Writing out the value of a digit string gives the digit string.
pub proof fn lemma_be_digits_round_trip(digits: Seq<u8>)
    ensures
        be_bytes(be_value(digits), digits.len()) == digits,
    decreases digits.len(),
{
    if digits.len() > 0 {
        lemma_be_digits_round_trip(digits.drop_last());
        assert(digits.drop_last().push(digits.last()) =~= digits);
    } else {
        assert(be_bytes(be_value(digits), 0) =~= digits);
    }
}

pub proof fn lemma_bytes_before_irreflexive(a: Seq<u8>)
    ensures
        !bytes_before(a, a),
    decreases a.len(),
{
    if a.len() > 0 {
        lemma_bytes_before_irreflexive(a.drop_first());
    }
}

pub proof fn lemma_bytes_before_transitive(a: Seq<u8>, b: Seq<u8>, c: Seq<u8>)
    requires
        bytes_before(a, b),
        bytes_before(b, c),
    ensures
        bytes_before(a, c),
    decreases a.len(),
{
    if a.len() > 0 && a[0] == b[0] && b[0] == c[0] {
        lemma_bytes_before_transitive(a.drop_first(), b.drop_first(), c.drop_first());
    }
}

pub proof fn lemma_bytes_before_asymmetric(a: Seq<u8>, b: Seq<u8>)
    requires
        bytes_before(a, b),
    ensures
        !bytes_before(b, a),
        a != b,
{
    if bytes_before(b, a) {
        lemma_bytes_before_transitive(a, b, a);
    }
    lemma_bytes_before_irreflexive(a);
}

/// Two different byte strings are always ordered one way or the other.
pub proof fn lemma_bytes_before_total(a: Seq<u8>, b: Seq<u8>)
    ensures
        bytes_before(a, b) || bytes_before(b, a) || a == b,
    decreases a.len(),
{
    if a.len() > 0 && b.len() > 0 {
        lemma_bytes_before_total(a.drop_first(), b.drop_first());
        if a[0] == b[0] && a.drop_first() == b.drop_first() {
            assert(a =~= seq![a[0]] + a.drop_first());
            assert(b =~= seq![b[0]] + b.drop_first());
        }
    } else if a.len() == 0 && b.len() == 0 {
        assert(a =~= b);
    }
}

/// A common prefix does not affect the order.
pub proof fn lemma_bytes_before_common_prefix(prefix: Seq<u8>, a: Seq<u8>, b: Seq<u8>)
    ensures
        bytes_before(prefix + a, prefix + b) == bytes_before(a, b),
    decreases prefix.len(),
{
    if prefix.len() > 0 {
        lemma_bytes_before_common_prefix(prefix.drop_first(), a, b);
        assert((prefix + a).drop_first() =~= prefix.drop_first() + a);
        assert((prefix + b).drop_first() =~= prefix.drop_first() + b);
    } else {
        assert(prefix + a =~= a);
        assert(prefix + b =~= b);
    }
}

/// Appends the `width` low-order big-endian bytes of `value` to `out`.
pub fn push_be(out: &mut Vec<u8>, value: u64, width: u8)
    ensures
        final(out)@ == old(out)@ + be_bytes(value as nat, width as nat),
    decreases width,
{
    if width > 0 {
        push_be(out, value / 256, width - 1);
        out.push((value % 256) as u8);
    }
    proof {
        assert(out@ =~= old(out)@ + be_bytes(value as nat, width as nat));
    }
}

/// Reads `width` big-endian bytes of `bytes`, starting at `offset`.
pub fn read_be(bytes: &[u8], offset: usize, width: usize) -> (value: u64)
    requires
        width <= 8,
        offset + width <= bytes@.len(),
    ensures
        value == be_value(bytes@.subrange(offset as int, offset + width)),
        value < be_limit(width as nat),
{
    let total: usize = bytes.len();
    let mut value: u64 = 0;
    let mut i: usize = 0;
    assert(bytes@.subrange(offset as int, offset as int) =~= Seq::<u8>::empty());
    while i < width
        invariant
            i <= width <= 8,
            offset + width <= total == bytes@.len(),
            value == be_value(bytes@.subrange(offset as int, offset + i)),
            value < be_limit(i as nat),
        decreases width - i,
    {
        let byte: u8 = bytes[offset + i];
        proof {
            let next = bytes@.subrange(offset as int, offset + i + 1);
            assert(next.drop_last() =~= bytes@.subrange(offset as int, offset + i));
            lemma_be_value_bound(next);
            lemma_be_limit_monotone((i + 1) as nat, 8);
            lemma_be_limits();
        }
        value = value * 256 + byte as u64;
        i += 1;
    }
    value
}

/// Whether `a` comes strictly before `b` bytewise.
pub fn is_before(a: &[u8], b: &[u8]) -> (before: bool)
    ensures
        before == bytes_before(a@, b@),
{
    let mut i: usize = 0;
    assert(a@.skip(0) =~= a@);
    assert(b@.skip(0) =~= b@);
    while i < a.len() && i < b.len() && a[i] == b[i]
        invariant
            i <= a@.len(),
            i <= b@.len(),
            bytes_before(a@, b@) == bytes_before(a@.skip(i as int), b@.skip(i as int)),
        decreases a.len() - i,
    {
        assert(a@.skip(i as int).drop_first() =~= a@.skip(i + 1));
        assert(b@.skip(i as int).drop_first() =~= b@.skip(i + 1));
        i += 1;
    }
    if i == b.len() {
        false
    } else if i == a.len() {
        true
    } else {
        a[i] < b[i]
    }
}

/// Whether two byte strings are equal.
pub fn same_bytes(a: &[u8], b: &[u8]) -> (same: bool)
    ensures
        same == (a@ == b@),
{
    if a.len() != b.len() {
        return false;
    }
    let mut i: usize = 0;
    while i < a.len()
        invariant
            i <= a@.len(),
            a@.len() == b@.len(),
            forall|j: int| 0 <= j < i ==> a@[j] == b@[j],
        decreases a.len() - i,
    {
        if a[i] != b[i] {
            return false;
        }
        i += 1;
    }
    assert(a@ =~= b@);
    true
}

/// A copy of `bytes[start..end]`.
pub fn copy_range(bytes: &[u8], start: usize, end: usize) -> (copy: Vec<u8>)
    requires
        start <= end <= bytes@.len(),
    ensures
        copy@ == bytes@.subrange(start as int, end as int),
{
    let mut copy: Vec<u8> = Vec::new();
    let mut i: usize = start;
    while i < end
        invariant
            start <= i <= end <= bytes@.len(),
            copy@ == bytes@.subrange(start as int, i as int),
        decreases end - i,
    {
        copy.push(bytes[i]);
        i += 1;
        assert(copy@ =~= bytes@.subrange(start as int, i as int));
    }
    copy
}

/// A copy of `bytes`.
pub fn copy_bytes(bytes: &[u8]) -> (copy: Vec<u8>)
    ensures
        copy@ == bytes@,
{
    let copy = copy_range(bytes, 0, bytes.len());
    assert(copy@ =~= bytes@);
    copy
}

/// The bytes as an array.
pub fn to_array_32(bytes: &[u8]) -> (array: [u8; 32])
    requires
        bytes@.len() == 32,
    ensures
        array@ == bytes@,
{
    let mut array: [u8; 32] = [0u8; 32];
    let mut i: usize = 0;
    while i < 32
        invariant
            i <= 32,
            bytes@.len() == 32,
            array@.len() == 32,
            forall|j: int| 0 <= j < i ==> array@[j] == bytes@[j],
        decreases 32 - i,
    {
        array[i] = bytes[i];
        i += 1;
    }
    assert(array@ =~= bytes@);
    array
}

/// Appends all of `bytes` to `out`.
pub fn push_bytes(out: &mut Vec<u8>, bytes: &[u8])
    ensures
        final(out)@ == old(out)@ + bytes@,
{
    out.extend_from_slice(bytes);
    assert(out@ =~= old(out)@ + bytes@);
}

/// The first byte at which two byte strings differ decides which comes first; where there is none,
/// the shorter one does.
pub proof fn law_first_difference_decides(a: Seq<u8>, b: Seq<u8>, at: int)
    requires
        0 <= at <= a.len(),
        at <= b.len(),
        a.take(at) == b.take(at),
        at == a.len() || at == b.len() || a[at] != b[at],
    ensures
        bytes_before(a, b) <==> (at < b.len() && (at == a.len() || a[at] < b[at])),
    decreases at,
{
    if at > 0 {
        assert(a[0] == a.take(at)[0] && b[0] == b.take(at)[0]);
        let (x, y) = (a.drop_first(), b.drop_first());
        assert(x.take(at - 1) =~= a.take(at).drop_first());
        assert(y.take(at - 1) =~= b.take(at).drop_first());
        assert(at < a.len() ==> x[at - 1] == a[at]);
        assert(at < b.len() ==> y[at - 1] == b[at]);
        law_first_difference_decides(x, y, at - 1);
    }
}

/// The bytes of a number, the most significant first.
pub proof fn law_most_significant_first(value: nat)
    ensures
        be_bytes(value, 1).len() == 1,
        be_bytes(value, 2).len() == 2,
        be_bytes(value, 4).len() == 4,
        be_bytes(value, 8).len() == 8,
        value < 0x100 ==> be_bytes(value, 1)[0] == value,
        value < 0x1_0000 ==> 0x100 * be_bytes(value, 2)[0] + be_bytes(value, 2)[1] == value,
        value < 0x1_0000_0000 ==> 0x100_0000 * be_bytes(value, 4)[0] + 0x1_0000 * be_bytes(
            value,
            4,
        )[1] + 0x100 * be_bytes(value, 4)[2] + be_bytes(value, 4)[3] == value,
        value < 0x1_0000_0000_0000_0000 ==> 0x100_0000_0000_0000 * be_bytes(value, 8)[0]
            + 0x1_0000_0000_0000 * be_bytes(value, 8)[1] + 0x100_0000_0000 * be_bytes(value, 8)[2]
            + 0x1_0000_0000 * be_bytes(value, 8)[3] + 0x100_0000 * be_bytes(value, 8)[4]
            + 0x1_0000 * be_bytes(value, 8)[5] + 0x100 * be_bytes(value, 8)[6] + be_bytes(
            value,
            8,
        )[7] == value,
{
    reveal_with_fuel(be_bytes, 9);
}

} // verus!
