//! Sorting of keyed entries by the bytewise order of their keys.
//!
//! A canonical map lists its entries by strictly increasing encoded key. The entries of a map
//! under construction come in any order; [`sort_keyed`] is the order in which they are written.
use crate::octets;
use vstd::prelude::*;

verus! {

/// `entry` put behind every entry of `sorted` whose key is not greater than its own.
pub open spec fn insert_keyed<T>(sorted: Seq<(Seq<u8>, T)>, entry: (Seq<u8>, T)) -> Seq<
    (Seq<u8>, T),
>
    decreases sorted.len(),
{
    if sorted.len() == 0 || !octets::bytes_before(entry.0, sorted.last().0) {
        sorted.push(entry)
    } else {
        insert_keyed(sorted.drop_last(), entry).push(sorted.last())
    }
}

/// The entries in the order of their keys; entries with the same key keep their relative order.
pub open spec fn sort_keyed<T>(entries: Seq<(Seq<u8>, T)>) -> Seq<(Seq<u8>, T)>
    decreases entries.len(),
{
    if entries.len() == 0 {
        entries
    } else {
        insert_keyed(sort_keyed(entries.drop_last()), entries.last())
    }
}

/// Every key comes strictly before all later ones.
pub open spec fn keys_increasing<T>(entries: Seq<(Seq<u8>, T)>) -> bool {
    forall|i: int, j: int|
        0 <= i < j < entries.len() ==> octets::bytes_before(
            (#[trigger] entries[i]).0,
            (#[trigger] entries[j]).0,
        )
}

/// No key occurs twice.
pub open spec fn keys_distinct<T>(entries: Seq<(Seq<u8>, T)>) -> bool {
    forall|i: int, j: int|
        0 <= i < j < entries.len() ==> (#[trigger] entries[i]).0 != (#[trigger] entries[j]).0
}

/// The two sequences hold the same entries, in whatever order.
pub open spec fn same_entries<T>(a: Seq<T>, b: Seq<T>) -> bool {
    forall|x: T| #[trigger] a.contains(x) <==> #[trigger] b.contains(x)
}

/// Every value replaced by its image under `f`; the keys stay.
pub open spec fn map_keyed<T, U>(entries: Seq<(Seq<u8>, T)>, f: spec_fn(T) -> U) -> Seq<
    (Seq<u8>, U),
> {
    Seq::new(entries.len(), |i: int| (entries[i].0, f(entries[i].1)))
}

/// Inserting is putting the entry at the one place that keeps the order.
pub proof fn lemma_insert_at<T>(sorted: Seq<(Seq<u8>, T)>, entry: (Seq<u8>, T), at: int)
    requires
        0 <= at <= sorted.len(),
        at == 0 || !octets::bytes_before(entry.0, sorted[at - 1].0),
        forall|i: int| at <= i < sorted.len() ==> octets::bytes_before(entry.0, #[trigger] sorted[i].0),
    ensures
        insert_keyed(sorted, entry) == sorted.insert(at, entry),
    decreases sorted.len(),
{
    if at < sorted.len() {
        lemma_insert_at(sorted.drop_last(), entry, at);
        assert(sorted.drop_last().insert(at, entry).push(sorted.last()) =~= sorted.insert(
            at,
            entry,
        ));
    } else {
        assert(sorted.insert(at, entry) =~= sorted.push(entry));
    }
}

pub proof fn lemma_insert_contains<T>(sorted: Seq<(Seq<u8>, T)>, entry: (Seq<u8>, T))
    ensures
        insert_keyed(sorted, entry).len() == sorted.len() + 1,
        forall|x: (Seq<u8>, T)| #[trigger]
            insert_keyed(sorted, entry).contains(x) <==> (sorted.contains(x) || x == entry),
    decreases sorted.len(),
{
    let result = insert_keyed(sorted, entry);
    if sorted.len() == 0 || !octets::bytes_before(entry.0, sorted.last().0) {
        assert forall|x: (Seq<u8>, T)| result.contains(x) <==> (sorted.contains(x) || x
            == entry) by {
            lemma_push_contains(sorted, entry, x);
        }
    } else {
        lemma_insert_contains(sorted.drop_last(), entry);
        assert forall|x: (Seq<u8>, T)| result.contains(x) <==> (sorted.contains(x) || x
            == entry) by {
            lemma_push_contains(insert_keyed(sorted.drop_last(), entry), sorted.last(), x);
            lemma_push_contains(sorted.drop_last(), sorted.last(), x);
            assert(sorted.drop_last().push(sorted.last()) =~= sorted);
        }
    }
}

pub proof fn lemma_push_contains<T>(s: Seq<T>, last: T, x: T)
    ensures
        s.push(last).contains(x) <==> (s.contains(x) || x == last),
{
    let pushed = s.push(last);
    if s.contains(x) {
        let i = choose|i: int| 0 <= i < s.len() && s[i] == x;
        assert(pushed[i] == x);
    }
    assert(pushed[s.len() as int] == last);
    if pushed.contains(x) {
        let i = choose|i: int| 0 <= i < pushed.len() && pushed[i] == x;
        if i < s.len() {
            assert(s[i] == x);
        }
    }
}

pub proof fn lemma_insert_increasing<T>(sorted: Seq<(Seq<u8>, T)>, entry: (Seq<u8>, T))
    requires
        keys_increasing(sorted),
        forall|i: int| 0 <= i < sorted.len() ==> #[trigger] sorted[i].0 != entry.0,
    ensures
        keys_increasing(insert_keyed(sorted, entry)),
    decreases sorted.len(),
{
    let result = insert_keyed(sorted, entry);
    if sorted.len() == 0 || !octets::bytes_before(entry.0, sorted.last().0) {
        assert forall|i: int, j: int| 0 <= i < j < result.len() implies octets::bytes_before(
            (#[trigger] result[i]).0,
            (#[trigger] result[j]).0,
        ) by {
            if j == sorted.len() {
                octets::lemma_bytes_before_total(sorted.last().0, entry.0);
                if i < sorted.len() - 1 {
                    assert(octets::bytes_before(sorted[i].0, sorted[sorted.len() - 1].0));
                    octets::lemma_bytes_before_transitive(sorted[i].0, sorted.last().0, entry.0);
                }
            } else {
                assert(octets::bytes_before(sorted[i].0, sorted[j].0));
            }
        }
    } else {
        let front = sorted.drop_last();
        assert forall|i: int, j: int| 0 <= i < j < front.len() implies octets::bytes_before(
            (#[trigger] front[i]).0,
            (#[trigger] front[j]).0,
        ) by {
            assert(octets::bytes_before(sorted[i].0, sorted[j].0));
        }
        assert forall|i: int| 0 <= i < front.len() implies #[trigger] front[i].0 != entry.0 by {
            assert(sorted[i].0 != entry.0);
        }
        lemma_insert_increasing(front, entry);
        lemma_insert_contains(front, entry);
        let grown = insert_keyed(front, entry);
        assert forall|i: int, j: int| 0 <= i < j < result.len() implies octets::bytes_before(
            (#[trigger] result[i]).0,
            (#[trigger] result[j]).0,
        ) by {
            if j == grown.len() {
                assert(result[i] == grown[i]);
                assert(grown.contains(grown[i]));
                if grown[i] != entry {
                    assert(front.contains(grown[i]));
                    let k = choose|k: int| 0 <= k < front.len() && front[k] == grown[i];
                    assert(octets::bytes_before(sorted[k].0, sorted[sorted.len() - 1].0));
                }
            } else {
                assert(octets::bytes_before(grown[i].0, grown[j].0));
            }
        }
    }
}

/// Sorting entries with distinct keys gives the same entries by strictly increasing key.
pub proof fn lemma_sort_keyed<T>(entries: Seq<(Seq<u8>, T)>)
    requires
        keys_distinct(entries),
    ensures
        keys_increasing(sort_keyed(entries)),
        sort_keyed(entries).len() == entries.len(),
        same_entries(sort_keyed(entries), entries),
    decreases entries.len(),
{
    if entries.len() > 0 {
        let front = entries.drop_last();
        assert forall|i: int, j: int| 0 <= i < j < front.len() implies (#[trigger] front[i]).0 != (
        #[trigger] front[j]).0 by {
            assert(entries[i].0 != entries[j].0);
        }
        lemma_sort_keyed(front);
        let sorted = sort_keyed(front);
        assert forall|i: int| 0 <= i < sorted.len() implies #[trigger] sorted[i].0
            != entries.last().0 by {
            assert(sorted.contains(sorted[i]));
            assert(front.contains(sorted[i]));
            let k = choose|k: int| 0 <= k < front.len() && front[k] == sorted[i];
            assert(entries[k].0 != entries[entries.len() - 1].0);
        }
        lemma_insert_increasing(sorted, entries.last());
        lemma_insert_contains(sorted, entries.last());
        assert forall|x: (Seq<u8>, T)| #[trigger]
            sort_keyed(entries).contains(x) <==> #[trigger] entries.contains(x) by {
            lemma_push_contains(front, entries.last(), x);
            assert(front.push(entries.last()) =~= entries);
            assert(sorted.contains(x) <==> front.contains(x));
        }
    }
}

/// Entries that are in order already stay as they are.
pub proof fn lemma_sort_of_increasing<T>(entries: Seq<(Seq<u8>, T)>)
    requires
        keys_increasing(entries),
    ensures
        sort_keyed(entries) == entries,
    decreases entries.len(),
{
    if entries.len() > 0 {
        let front = entries.drop_last();
        assert forall|i: int, j: int| 0 <= i < j < front.len() implies octets::bytes_before(
            (#[trigger] front[i]).0,
            (#[trigger] front[j]).0,
        ) by {
            assert(octets::bytes_before(entries[i].0, entries[j].0));
        }
        lemma_sort_of_increasing(front);
        if front.len() > 0 {
            assert(octets::bytes_before(entries[entries.len() - 2].0, entries[entries.len() - 1].0));
            octets::lemma_bytes_before_asymmetric(front.last().0, entries.last().0);
        }
        assert(front.push(entries.last()) =~= entries);
    }
}

pub proof fn lemma_insert_map<T, U>(
    sorted: Seq<(Seq<u8>, T)>,
    entry: (Seq<u8>, T),
    f: spec_fn(T) -> U,
)
    ensures
        insert_keyed(map_keyed(sorted, f), (entry.0, f(entry.1))) == map_keyed(
            insert_keyed(sorted, entry),
            f,
        ),
    decreases sorted.len(),
{
    let image = map_keyed(sorted, f);
    if sorted.len() == 0 || !octets::bytes_before(entry.0, sorted.last().0) {
        assert(image.push((entry.0, f(entry.1))) =~= map_keyed(sorted.push(entry), f));
    } else {
        lemma_insert_map(sorted.drop_last(), entry, f);
        assert(image.drop_last() =~= map_keyed(sorted.drop_last(), f));
        assert(map_keyed(insert_keyed(sorted.drop_last(), entry), f).push(image.last())
            =~= map_keyed(insert_keyed(sorted, entry), f));
    }
}

/// The order depends on the keys alone: sorting commutes with a change of the values.
pub proof fn lemma_sort_map<T, U>(entries: Seq<(Seq<u8>, T)>, f: spec_fn(T) -> U)
    ensures
        sort_keyed(map_keyed(entries, f)) == map_keyed(sort_keyed(entries), f),
    decreases entries.len(),
{
    let image = map_keyed(entries, f);
    if entries.len() > 0 {
        lemma_sort_map(entries.drop_last(), f);
        assert(image.drop_last() =~= map_keyed(entries.drop_last(), f));
        lemma_insert_map(sort_keyed(entries.drop_last()), entries.last(), f);
    } else {
        assert(image =~= map_keyed(sort_keyed(entries), f));
    }
}

pub proof fn lemma_sort_len<T>(entries: Seq<(Seq<u8>, T)>)
    ensures
        sort_keyed(entries).len() == entries.len(),
    decreases entries.len(),
{
    if entries.len() > 0 {
        lemma_sort_len(entries.drop_last());
        lemma_insert_contains(sort_keyed(entries.drop_last()), entries.last());
    }
}

/// There is only one way to list a set of entries by strictly increasing key.
pub proof fn lemma_increasing_unique<T>(a: Seq<(Seq<u8>, T)>, b: Seq<(Seq<u8>, T)>)
    requires
        keys_increasing(a),
        keys_increasing(b),
        same_entries(a, b),
    ensures
        a == b,
    decreases a.len(),
{
    if a.len() == 0 {
        if b.len() > 0 {
            assert(b.contains(b[0]));
            assert(a.contains(b[0]));
        }
        assert(a =~= b);
    } else {
        assert(a.contains(a[0]));
        assert(b.contains(a[0]));
        assert(b.len() > 0);
        let la = a.last();
        let lb = b.last();
        assert(a.contains(la));
        assert(b.contains(lb));
        assert(b.contains(la));
        assert(a.contains(lb));
        let i = choose|i: int| 0 <= i < b.len() && b[i] == la;
        let j = choose|j: int| 0 <= j < a.len() && a[j] == lb;
        if la != lb {
            assert(octets::bytes_before(b[i].0, b[b.len() - 1].0));
            assert(octets::bytes_before(a[j].0, a[a.len() - 1].0));
            octets::lemma_bytes_before_asymmetric(la.0, lb.0);
        }
        let fa = a.drop_last();
        let fb = b.drop_last();
        lemma_drop_last_contains(a);
        lemma_drop_last_contains(b);
        assert forall|p: int, q: int| 0 <= p < q < fa.len() implies octets::bytes_before(
            (#[trigger] fa[p]).0,
            (#[trigger] fa[q]).0,
        ) by {
            assert(octets::bytes_before(a[p].0, a[q].0));
        }
        assert forall|p: int, q: int| 0 <= p < q < fb.len() implies octets::bytes_before(
            (#[trigger] fb[p]).0,
            (#[trigger] fb[q]).0,
        ) by {
            assert(octets::bytes_before(b[p].0, b[q].0));
        }
        assert forall|x: (Seq<u8>, T)| #[trigger] fa.contains(x) <==> #[trigger] fb.contains(x) by {
            assert(a.contains(x) <==> b.contains(x));
        }
        lemma_increasing_unique(fa, fb);
        assert(fa.push(la) =~= a);
        assert(fb.push(lb) =~= b);
    }
}

proof fn lemma_drop_last_contains<T>(s: Seq<(Seq<u8>, T)>)
    requires
        keys_increasing(s),
        s.len() > 0,
    ensures
        forall|x: (Seq<u8>, T)| #[trigger]
            s.drop_last().contains(x) <==> (s.contains(x) && x != s.last()),
{
    let front = s.drop_last();
    assert(front.push(s.last()) =~= s);
    assert forall|x: (Seq<u8>, T)| #[trigger] front.contains(x) <==> (s.contains(x) && x
        != s.last()) by {
        lemma_push_contains(front, s.last(), x);
        if front.contains(x) {
            let i = choose|i: int| 0 <= i < front.len() && front[i] == x;
            assert(octets::bytes_before(s[i].0, s[s.len() - 1].0));
            octets::lemma_bytes_before_asymmetric(s[i].0, s[s.len() - 1].0);
        }
    }
}

/// The keys and values of a list under construction.
pub open spec fn pairs_of(list: Seq<(Vec<u8>, Vec<u8>)>) -> Seq<(Seq<u8>, Seq<u8>)> {
    Seq::new(list.len(), |i: int| (list[i].0@, list[i].1@))
}

/// Puts `(key, value)` into the list behind every entry whose key is not greater.
pub fn insert_sorted(list: &mut Vec<(Vec<u8>, Vec<u8>)>, key: Vec<u8>, value: Vec<u8>)
    ensures
        pairs_of(final(list)@) == insert_keyed(pairs_of(old(list)@), (key@, value@)),
{
    let ghost before = pairs_of(list@);
    let mut at: usize = list.len();
    while at > 0 && octets::is_before(key.as_slice(), list[at - 1].0.as_slice())
        invariant
            at <= list@.len(),
            before == pairs_of(list@),
            forall|i: int| at <= i < before.len() ==> octets::bytes_before(key@, #[trigger] before[i].0),
        decreases at,
    {
        at -= 1;
    }
    proof {
        lemma_insert_at(before, (key@, value@), at as int);
    }
    let ghost entry = (key@, value@);
    list.insert(at, (key, value));
    assert(pairs_of(list@) =~= before.insert(at as int, entry));
}

} // verus!
