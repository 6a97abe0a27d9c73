//! Maps that are ordered by their keys.

use vstd::prelude::*;

use crate::value;

verus! {

/// `a` comes before `b` in the order by code points.
pub open spec fn text_before(a: Seq<char>, b: Seq<char>) -> bool
    decreases a.len(),
{
    if b.len() == 0 {
        false
    } else if a.len() == 0 {
        true
    } else if a[0] != b[0] {
        (a[0] as int) < (b[0] as int)
    } else {
        text_before(a.drop_first(), b.drop_first())
    }
}

/// Each key comes before all the keys that follow it.
pub open spec fn keys_ascending<T>(entries: Seq<(Seq<char>, T)>) -> bool {
    forall|i: int, j: int|
        0 <= i < j < entries.len() ==> text_before(
            (#[trigger] entries[i]).0,
            (#[trigger] entries[j]).0,
        )
}

/// The number of leading entries whose keys come before `key`.
pub open spec fn rank<T>(entries: Seq<(Seq<char>, T)>, key: Seq<char>) -> int
    decreases entries.len(),
{
    if entries.len() == 0 || !text_before(entries[0].0, key) {
        0
    } else {
        1 + rank(entries.drop_first(), key)
    }
}

/// The entries of a map ordered by its keys after `val` was stored under `key`.
pub open spec fn filed<T>(entries: Seq<(Seq<char>, T)>, key: Seq<char>, val: T) -> Seq<
    (Seq<char>, T),
> {
    if value::has_key(entries, key) {
        entries.update(value::position(entries, key), (key, val))
    } else {
        entries.insert(rank(entries, key), (key, val))
    }
}

/// The entries of a map ordered by its keys into which `entries` were stored one after the
/// other.
pub open spec fn gathered<T>(entries: Seq<(Seq<char>, T)>) -> Seq<(Seq<char>, T)>
    decreases entries.len(),
{
    if entries.len() == 0 {
        entries
    } else {
        filed(gathered(entries.drop_last()), entries.last().0, entries.last().1)
    }
}

/// No text comes before itself.
pub proof fn before_is_irreflexive(a: Seq<char>)
    ensures
        !text_before(a, a),
    decreases a.len(),
{
    if a.len() > 0 {
        before_is_irreflexive(a.drop_first());
    }
}

/// The order on texts is transitive.
pub proof fn before_is_transitive(a: Seq<char>, b: Seq<char>, c: Seq<char>)
    requires
        text_before(a, b),
        text_before(b, c),
    ensures
        text_before(a, c),
    decreases a.len(),
{
    if a.len() > 0 && a[0] == b[0] && b[0] == c[0] {
        before_is_transitive(a.drop_first(), b.drop_first(), c.drop_first());
    }
}

/// Of two different texts, one comes before the other.
pub proof fn before_is_total(a: Seq<char>, b: Seq<char>)
    requires
        a != b,
    ensures
        text_before(a, b) || text_before(b, a),
    decreases a.len(),
{
    if a.len() > 0 && b.len() > 0 {
        if a[0] == b[0] {
            if a.drop_first() == b.drop_first() {
                assert(a =~= seq![a[0]] + a.drop_first());
                assert(b =~= seq![b[0]] + b.drop_first());
            }
            before_is_total(a.drop_first(), b.drop_first());
        }
    } else {
        assert(a.len() != b.len()) by {
            if a.len() == b.len() {
                assert(a =~= b);
            }
        }
    }
}

/// Entries with ascending keys have no key twice.
pub proof fn ascending_keys_are_distinct<T>(entries: Seq<(Seq<char>, T)>)
    requires
        keys_ascending(entries),
    ensures
        value::keys_distinct(entries),
{
    assert forall|i: int, j: int| 0 <= i < j < entries.len() implies (#[trigger] entries[i]).0 != (
    #[trigger] entries[j]).0 by {
        before_is_irreflexive(entries[i].0);
    }
}

/// A key that is not among ascending keys comes after the first `rank` of them, and before the
/// others.
proof fn rank_splits<T>(entries: Seq<(Seq<char>, T)>, key: Seq<char>)
    requires
        keys_ascending(entries),
        !value::has_key(entries, key),
    ensures
        0 <= rank(entries, key) <= entries.len(),
        forall|i: int|
            0 <= i < rank(entries, key) ==> text_before((#[trigger] entries[i]).0, key),
        forall|i: int|
            rank(entries, key) <= i < entries.len() ==> text_before(key, (
            #[trigger] entries[i]).0),
    decreases entries.len(),
{
    if entries.len() > 0 {
        let rest = entries.drop_first();
        assert(forall|i: int| 0 <= i < rest.len() ==> #[trigger] rest[i] == entries[i + 1]);
        if text_before(entries[0].0, key) {
            assert(!value::has_key(rest, key)) by {
                if value::has_key(rest, key) {
                    let p = value::position(rest, key);
                    assert(entries[p + 1].0 == key);
                }
            }
            rank_splits(rest, key);
            assert forall|i: int| rank(entries, key) <= i < entries.len() implies text_before(
                key,
                (#[trigger] entries[i]).0,
            ) by {
                assert(rest[i - 1] == entries[i]);
            }
            assert forall|i: int| 0 <= i < rank(entries, key) implies text_before(
                (#[trigger] entries[i]).0,
                key,
            ) by {
                if i > 0 {
                    assert(rest[i - 1] == entries[i]);
                }
            }
        } else {
            assert(entries[0].0 != key);
            before_is_total(entries[0].0, key);
            assert forall|i: int| 0 <= i < entries.len() implies text_before(
                key,
                (#[trigger] entries[i]).0,
            ) by {
                if i > 0 {
                    before_is_transitive(key, entries[0].0, entries[i].0);
                }
            }
        }
    }
}

/// Storing an entry keeps the keys ascending. The key then finds what was stored, and every
/// other key finds what it found before.
pub proof fn filed_then_found<T>(
    entries: Seq<(Seq<char>, T)>,
    key: Seq<char>,
    val: T,
    other: Seq<char>,
)
    requires
        keys_ascending(entries),
    ensures
        keys_ascending(filed(entries, key, val)),
        value::lookup(filed(entries, key, val), key) == Some(val),
        other != key ==> value::lookup(filed(entries, key, val), other) == value::lookup(
            entries,
            other,
        ),
{
    let after = filed(entries, key, val);
    ascending_keys_are_distinct(entries);
    if value::has_key(entries, key) {
        value::stored_then_found(entries, key, val, other);
        let p = value::position(entries, key);
        assert(forall|i: int| 0 <= i < entries.len() ==> (#[trigger] after[i]).0 == entries[i].0);
    } else {
        rank_splits(entries, key);
        let r = rank(entries, key);
        assert(forall|i: int| 0 <= i < r ==> #[trigger] after[i] == entries[i]);
        assert(after[r] == (key, val));
        assert(forall|i: int| r < i < after.len() ==> #[trigger] after[i] == entries[i - 1]);
        assert(keys_ascending(after));
        ascending_keys_are_distinct(after);
        assert(value::has_key(after, key));
        if value::has_key(entries, other) {
            let p = value::position(entries, other);
            if p < r {
                assert(after[p].0 == other);
            } else {
                assert(after[p + 1].0 == other);
            }
        }
        if value::has_key(after, other) && other != key {
            let p = value::position(after, other);
            if p < r {
                assert(entries[p].0 == other);
            } else {
                assert(entries[p - 1].0 == other);
            }
        }
    }
}

/// Storing entries one after the other loses none of them and changes none of them: it only
/// brings them into the order of their keys.
pub proof fn gathered_keeps_entries<T>(entries: Seq<(Seq<char>, T)>, key: Seq<char>)
    requires
        value::keys_distinct(entries),
    ensures
        keys_ascending(gathered(entries)),
        gathered(entries).len() == entries.len(),
        value::lookup(gathered(entries), key) == value::lookup(entries, key),
    decreases entries.len(),
{
    if entries.len() > 0 {
        let front = entries.drop_last();
        let k = entries.last().0;
        gathered_keeps_entries(front, key);
        gathered_keeps_entries(front, k);
        filed_then_found(gathered(front), k, entries.last().1, key);
        assert(!value::has_key(front, k)) by {
            if value::has_key(front, k) {
                let p = value::position(front, k);
                assert(entries[p].0 == k);
            }
        }
        assert(value::lookup(gathered(front), k) is None);
        rank_splits(gathered(front), k);
        assert(value::stored(front, k, entries.last().1) =~= entries);
        value::stored_then_found(front, k, entries.last().1, key);
    }
}

/// Storing entries one after the other brings them into the order of their keys, also where a
/// key comes twice, and each entry that is then there is one of those that were stored.
pub proof fn gathered_invents_nothing<T>(entries: Seq<(Seq<char>, T)>)
    ensures
        keys_ascending(gathered(entries)),
        forall|i: int|
            0 <= i < gathered(entries).len() ==> entries.contains(#[trigger] gathered(entries)[i]),
    decreases entries.len(),
{
    if entries.len() > 0 {
        let front = entries.drop_last();
        let (k, val) = entries.last();
        let before = gathered(front);
        let after = gathered(entries);
        gathered_invents_nothing(front);
        filed_then_found(before, k, val, k);
        assert forall|i: int| 0 <= i < after.len() implies entries.contains(
            #[trigger] after[i],
        ) by {
            if !value::has_key(before, k) {
                rank_splits(before, k);
            }
            if after[i] == (k, val) {
                assert(entries[entries.len() - 1] == after[i]);
            } else {
                let j = if value::has_key(before, k) || i < rank(before, k) {
                    i
                } else {
                    i - 1
                };
                assert(after[i] == before[j]);
                let p = choose|p: int| 0 <= p < front.len() && front[p] == before[j];
                assert(entries[p] == after[i]);
            }
        }
    }
}

/// Where entries have the same key, the last one wins, and every key that was stored is there,
/// but no other.
pub proof fn last_one_wins<T>(entries: Seq<(Seq<char>, T)>, j: int, key: Seq<char>)
    ensures
        0 <= j < entries.len() && (forall|k: int|
            j < k < entries.len() ==> (#[trigger] entries[k]).0 != entries[j].0) ==> value::lookup(
            gathered(entries),
            entries[j].0,
        ) == Some(entries[j].1),
        value::has_key(gathered(entries), key) <==> value::has_key(entries, key),
    decreases entries.len(),
{
    if entries.len() > 0 {
        let front = entries.drop_last();
        let (k, val) = entries.last();
        let last = entries.len() - 1;
        gathered_invents_nothing(front);
        last_one_wins(front, j, key);
        filed_then_found(gathered(front), k, val, key);
        assert(forall|i: int| 0 <= i < last ==> #[trigger] front[i] == entries[i]);
        if 0 <= j < last && forall|i: int|
            j < i < entries.len() ==> (#[trigger] entries[i]).0 != entries[j].0 {
            assert(entries[last].0 != entries[j].0);
            filed_then_found(gathered(front), k, val, entries[j].0);
        }
        if j == last {
            filed_then_found(gathered(front), k, val, k);
        }
        if value::has_key(front, key) {
            assert(entries[value::position(front, key)].0 == key);
        }
        if value::has_key(entries, key) && key != k {
            assert(front[value::position(entries, key)].0 == key);
        }
        if key == k {
            assert(entries[last].0 == key);
            assert(value::lookup(gathered(entries), key) is Some);
        } else {
            assert(value::lookup(gathered(entries), key) is Some <==> value::lookup(
                gathered(front),
                key,
            ) is Some);
        }
    }
}

/// Entries that are in the order of their keys stay as they are.
pub proof fn gathered_keeps_order<T>(entries: Seq<(Seq<char>, T)>)
    requires
        keys_ascending(entries),
    ensures
        gathered(entries) == entries,
    decreases entries.len(),
{
    if entries.len() > 0 {
        let front = entries.drop_last();
        let k = entries.last().0;
        gathered_keeps_order(front);
        ascending_keys_are_distinct(entries);
        assert(!value::has_key(front, k)) by {
            if value::has_key(front, k) {
                let p = value::position(front, k);
                assert(entries[p].0 == k);
            }
        }
        rank_splits(front, k);
        let r = rank(front, k);
        if r < front.len() {
            before_is_transitive(k, front[r].0, k);
            before_is_irreflexive(k);
        }
        assert(gathered(entries) =~= entries);
    }
}

} // verus!
