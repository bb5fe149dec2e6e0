//! Lists of keyed entries that hold each key at most once.

use vstd::prelude::*;

verus! {

/// The place of the first entry for `key`, or the length of the list.
pub open spec fn slot<K, V>(list: Seq<(K, V)>, key: K) -> int
    decreases list.len(),
{
    if list.len() == 0 {
        0
    } else if list[0].0 == key {
        0
    } else {
        1 + slot(list.skip(1), key)
    }
}

/// The value that is kept for `key`.
pub open spec fn at<K, V>(list: Seq<(K, V)>, key: K) -> Option<V> {
    if slot(list, key) < list.len() {
        Some(list[slot(list, key)].1)
    } else {
        None
    }
}

/// `list` with `value` for `key`: in place of the value that was kept, or at
/// the end.
pub open spec fn put<K, V>(list: Seq<(K, V)>, key: K, value: V) -> Seq<(K, V)> {
    if slot(list, key) < list.len() {
        list.update(slot(list, key), (key, value))
    } else {
        list.push((key, value))
    }
}

/// `list` without its first entry for `key`.
pub open spec fn without<K, V>(list: Seq<(K, V)>, key: K) -> Seq<(K, V)> {
    if slot(list, key) < list.len() {
        list.remove(slot(list, key))
    } else {
        list
    }
}

/// No key occurs twice.
pub open spec fn unique<K, V>(list: Seq<(K, V)>) -> bool {
    forall|i: int, j: int| 0 <= i < j < list.len() ==> (#[trigger] list[i]).0 != (#[trigger] list[j]).0
}

/// The place is the first one that holds the key.
pub proof fn slot_is_first<K, V>(list: Seq<(K, V)>, key: K)
    ensures
        0 <= slot(list, key) <= list.len(),
        slot(list, key) < list.len() ==> list[slot(list, key)].0 == key,
        forall|i: int| 0 <= i < slot(list, key) ==> (#[trigger] list[i]).0 != key,
    decreases list.len(),
{
    if list.len() > 0 && list[0].0 != key {
        let rest = list.skip(1);
        slot_is_first(rest, key);
        assert forall|i: int| 0 <= i < slot(list, key) implies (#[trigger] list[i]).0 != key by {
            if i > 0 {
                assert(rest[i - 1] == list[i]);
            }
        }
    }
}

/// A place that holds the key, with none before it that does, is the one that
/// `slot` means.
pub proof fn first_is_slot<K, V>(list: Seq<(K, V)>, key: K, place: int)
    requires
        0 <= place <= list.len(),
        place < list.len() ==> list[place].0 == key,
        forall|i: int| 0 <= i < place ==> (#[trigger] list[i]).0 != key,
    ensures
        slot(list, key) == place,
{
    slot_is_first(list, key);
    let s = slot(list, key);
    if s < place {
        assert(list[s].0 != key);
    }
    if place < s {
        assert(list[place].0 != key);
    }
}

/// After a value is put, its key has it and every other key has what it had.
pub proof fn put_sets_one<K, V>(list: Seq<(K, V)>, key: K, value: V)
    requires
        unique(list),
    ensures
        unique(put(list, key, value)),
        at(put(list, key, value), key) == Some(value),
        forall|other: K| other != key ==> #[trigger] at(put(list, key, value), other) == at(list, other),
        put(list, key, value).len() == (if at(list, key) is Some {
            list.len()
        } else {
            list.len() + 1
        }),
{
    slot_is_first(list, key);
    let s = slot(list, key);
    let out = put(list, key, value);
    assert forall|i: int, j: int| 0 <= i < j < out.len() implies (#[trigger] out[i]).0 != (
    #[trigger] out[j]).0 by {
        if s < list.len() {
            assert(list[i].0 != list[j].0);
        } else if j < list.len() {
            assert(list[i].0 != list[j].0);
        } else {
            assert(list[i].0 != key);
        }
    }
    assert forall|i: int| 0 <= i < s implies (#[trigger] out[i]).0 != key by {
        assert(list[i].0 != key);
    }
    first_is_slot(out, key, s);
    assert forall|other: K| other != key implies #[trigger] at(out, other) == at(list, other) by {
        slot_is_first(list, other);
        let o = slot(list, other);
        assert forall|i: int| 0 <= i < o implies (#[trigger] out[i]).0 != other by {
            if i < list.len() && i != s {
                assert(list[i].0 != other);
            }
        }
        if o < list.len() {
            assert(o != s);
            first_is_slot(out, other, o);
        } else {
            assert forall|i: int| 0 <= i < out.len() implies (#[trigger] out[i]).0 != other by {
                if i < list.len() && i != s {
                    assert(list[i].0 != other);
                }
            }
            first_is_slot(out, other, out.len() as int);
        }
    }
}

/// After a key is taken out, it has no value and every other key has what it
/// had.
pub proof fn without_clears_one<K, V>(list: Seq<(K, V)>, key: K)
    requires
        unique(list),
    ensures
        unique(without(list, key)),
        at(without(list, key), key) is None,
        forall|other: K| other != key ==> #[trigger] at(without(list, key), other) == at(list, other),
        without(list, key).len() == (if at(list, key) is Some {
            list.len() - 1
        } else {
            list.len() as int
        }),
{
    slot_is_first(list, key);
    let s = slot(list, key);
    let out = without(list, key);
    if s < list.len() {
        assert forall|i: int, j: int| 0 <= i < j < out.len() implies (#[trigger] out[i]).0 != (
        #[trigger] out[j]).0 by {
            let a = if i < s {
                i
            } else {
                i + 1
            };
            let b = if j < s {
                j
            } else {
                j + 1
            };
            assert(list[a].0 != list[b].0);
        }
        assert forall|i: int| 0 <= i < out.len() implies (#[trigger] out[i]).0 != key by {
            if i < s {
                assert(list[i].0 != list[s].0);
            } else {
                assert(list[s].0 != list[i + 1].0);
            }
        }
        first_is_slot(out, key, out.len() as int);
        assert forall|other: K| other != key implies #[trigger] at(out, other) == at(
            list,
            other,
        ) by {
            slot_is_first(list, other);
            let o = slot(list, other);
            let p = if o <= s {
                o
            } else {
                o - 1
            };
            assert forall|i: int| 0 <= i < p implies (#[trigger] out[i]).0 != other by {
                if i < s {
                    assert(list[i].0 != other);
                } else {
                    assert(list[i + 1].0 != other);
                }
            }
            if o < list.len() {
                assert(o != s);
                first_is_slot(out, other, p);
            } else {
                first_is_slot(out, other, out.len() as int);
            }
        }
    }
}

/// The entries with keys and values in each other's place.
pub open spec fn swapped<K, V>(list: Seq<(K, V)>) -> Seq<(V, K)> {
    list.map_values(|e: (K, V)| (e.1, e.0))
}

/// No key and no value occurs twice.
pub open spec fn one_to_one<K, V>(list: Seq<(K, V)>) -> bool {
    unique(list) && unique(swapped(list))
}

/// `list` without its first entry that holds `value`.
pub open spec fn without_value<K, V>(list: Seq<(K, V)>, value: V) -> Seq<(K, V)> {
    if slot(swapped(list), value) < list.len() {
        list.remove(slot(swapped(list), value))
    } else {
        list
    }
}

/// `list` with `key` and `value` linked to each other; what either was linked
/// to before goes.
pub open spec fn linked<K, V>(list: Seq<(K, V)>, key: K, value: V) -> Seq<(K, V)> {
    without_value(without(list, key), value).push((key, value))
}

/// A list with one more item holds what it held and that item.
pub proof fn pushed_members<T>(list: Seq<T>, last: T, item: T)
    ensures
        list.push(last).contains(item) <==> list.contains(item) || item == last,
{
    let out = list.push(last);
    assert(out[list.len() as int] == last);
    if list.contains(item) {
        let k = choose|k: int| 0 <= k < list.len() && list[k] == item;
        assert(out[k] == item);
    }
    if out.contains(item) && item != last {
        let k = choose|k: int| 0 <= k < out.len() && out[k] == item;
        assert(list[k] == item);
    }
}

/// A key is found with a value exactly where the list holds the two together.
pub proof fn found_exactly<K, V>(list: Seq<(K, V)>, key: K, value: V)
    requires
        unique(list),
    ensures
        at(list, key) == Some(value) <==> list.contains((key, value)),
{
    slot_is_first(list, key);
    let s = slot(list, key);
    if list.contains((key, value)) {
        let i = choose|i: int| 0 <= i < list.len() && list[i] == (key, value);
        assert(list[i].0 == key);
        if s < i {
            assert(list[s].0 != list[i].0);
        }
    }
}

/// The two directions hold the same pairs.
pub proof fn swapped_members<K, V>(list: Seq<(K, V)>, key: K, value: V)
    ensures
        swapped(list).contains((value, key)) <==> list.contains((key, value)),
{
    if list.contains((key, value)) {
        let i = choose|i: int| 0 <= i < list.len() && list[i] == (key, value);
        assert(swapped(list)[i] == (value, key));
    }
    if swapped(list).contains((value, key)) {
        let i = choose|i: int| 0 <= i < list.len() && swapped(list)[i] == (value, key);
        assert(list[i] == (key, value));
    }
}

/// In a one-to-one list a key leads to a value exactly where the value leads
/// back to the key.
pub proof fn directions_agree<K, V>(list: Seq<(K, V)>, key: K, value: V)
    requires
        one_to_one(list),
    ensures
        at(list, key) == Some(value) <==> at(swapped(list), value) == Some(key),
        at(list, key) == Some(value) <==> list.contains((key, value)),
{
    found_exactly(list, key, value);
    found_exactly(swapped(list), value, key);
    swapped_members(list, key, value);
}

proof fn removal_keeps_unique<K, V>(list: Seq<(K, V)>, place: int)
    requires
        unique(list),
        0 <= place < list.len(),
    ensures
        unique(list.remove(place)),
{
    let out = list.remove(place);
    assert forall|i: int, j: int| 0 <= i < j < out.len() implies (#[trigger] out[i]).0 != (
    #[trigger] out[j]).0 by {
        let a = if i < place {
            i
        } else {
            i + 1
        };
        let b = if j < place {
            j
        } else {
            j + 1
        };
        assert(list[a].0 != list[b].0);
    }
}

/// Taking a key out of a one-to-one list takes its pair out and no other.
pub proof fn without_members<K, V>(list: Seq<(K, V)>, key: K)
    requires
        one_to_one(list),
    ensures
        one_to_one(without(list, key)),
        forall|k: K, v: V| #[trigger]
            without(list, key).contains((k, v)) <==> k != key && list.contains((k, v)),
{
    let out = without(list, key);
    without_clears_one(list, key);
    slot_is_first(list, key);
    let s = slot(list, key);
    if s < list.len() {
        removal_keeps_unique(swapped(list), s);
        assert(swapped(out) =~= swapped(list).remove(s));
    }
    assert forall|k: K, v: V| #[trigger]
        out.contains((k, v)) <==> k != key && list.contains((k, v)) by {
        found_exactly(list, k, v);
        found_exactly(out, k, v);
    }
}

/// Taking a value out is taking a key out of the other direction.
pub proof fn without_value_swaps<K, V>(list: Seq<(K, V)>, value: V)
    ensures
        swapped(without_value(list, value)) == without(swapped(list), value),
        swapped(swapped(list)) == list,
{
    slot_is_first(swapped(list), value);
    let s = slot(swapped(list), value);
    if s < list.len() {
        assert(swapped(list.remove(s)) =~= swapped(list).remove(s));
    }
    assert(swapped(swapped(list)) =~= list);
}

/// Taking a value out of a one-to-one list takes its pair out and no other.
pub proof fn without_value_members<K, V>(list: Seq<(K, V)>, value: V)
    requires
        one_to_one(list),
    ensures
        one_to_one(without_value(list, value)),
        forall|k: K, v: V| #[trigger]
            without_value(list, value).contains((k, v)) <==> v != value && list.contains((k, v)),
{
    let out = without_value(list, value);
    without_value_swaps(list, value);
    without_value_swaps(out, value);
    without_members(swapped(list), value);
    assert forall|k: K, v: V| #[trigger]
        out.contains((k, v)) <==> v != value && list.contains((k, v)) by {
        swapped_members(list, k, v);
        swapped_members(out, k, v);
        assert(without(swapped(list), value).contains((v, k)) <==> v != value && swapped(
            list,
        ).contains((v, k)));
    }
}

/// Linking keeps a list one-to-one. The new pair is in it, and of the others
/// those that share neither the key nor the value.
pub proof fn linked_members<K, V>(list: Seq<(K, V)>, key: K, value: V)
    requires
        one_to_one(list),
    ensures
        one_to_one(linked(list, key, value)),
        forall|k: K, v: V| #[trigger]
            linked(list, key, value).contains((k, v)) <==> (k == key && v == value) || (k != key && v
                != value && list.contains((k, v))),
{
    let rest = without(list, key);
    let mid = without_value(rest, value);
    let out = linked(list, key, value);
    without_members(list, key);
    without_value_members(rest, value);
    assert forall|i: int, j: int| 0 <= i < j < out.len() implies (#[trigger] out[i]).0 != (
    #[trigger] out[j]).0 by {
        if j < mid.len() {
            assert(mid[i].0 != mid[j].0);
        } else {
            assert(mid.contains((mid[i].0, mid[i].1)));
            assert(rest.contains((mid[i].0, mid[i].1)));
        }
    }
    assert forall|i: int, j: int| 0 <= i < j < swapped(out).len() implies (#[trigger] swapped(
        out,
    )[i]).0 != (#[trigger] swapped(out)[j]).0 by {
        if j < mid.len() {
            assert(swapped(mid)[i].0 != swapped(mid)[j].0);
        } else {
            assert(mid.contains((mid[i].0, mid[i].1)));
        }
    }
    assert forall|k: K, v: V| #[trigger]
        out.contains((k, v)) <==> (k == key && v == value) || (k != key && v != value
            && list.contains((k, v))) by {
        assert(out[mid.len() as int] == (key, value));
        assert(mid.contains((k, v)) <==> v != value && rest.contains((k, v)));
        assert(rest.contains((k, v)) <==> k != key && list.contains((k, v)));
        if mid.contains((k, v)) {
            let i = choose|i: int| 0 <= i < mid.len() && mid[i] == (k, v);
            assert(out[i] == (k, v));
        }
        if out.contains((k, v)) {
            let i = choose|i: int| 0 <= i < out.len() && out[i] == (k, v);
            if i < mid.len() {
                assert(mid[i] == (k, v));
            }
        }
    }
}

} // verus!
