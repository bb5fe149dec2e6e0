//! What the index of prims and entities promises: what lies under a path, and
//! what reconciling keeps, drops and spawns.

use crate::assoc::{at, pushed_members};
use crate::live::{
    is_under, kept_entries, known_prims, last_spawned, new_prims, path_entries, stale_entries,
    subtree_entries, transform_paths, unless_taken,
};
use crate::path::appended;
use vstd::prelude::*;

verus! {

/// A path lies under itself and under whatever it continues with a slash, and
/// under nothing that it continues otherwise: `/Foo/Bar` lies under `/Foo`,
/// `/FooBar` does not.
pub proof fn paths_lie_under_what_they_continue(prefix: Seq<char>, c: char, rest: Seq<char>)
    requires
        prefix.len() > 0,
        prefix.last() != '/',
    ensures
        is_under(prefix, prefix),
        is_under(prefix + seq!['/'] + rest, prefix),
        c != '/' ==> !is_under(prefix + seq![c] + rest, prefix),
        !is_under(prefix, prefix + seq![c] + rest),
{
    reveal_strlit("/");
    let below = prefix + seq!['/'] + rest;
    assert("/"@ =~= seq!['/']);
    assert(prefix + "/"@ =~= below.subrange(0, prefix.len() as int + 1));
    let beside = prefix + seq![c] + rest;
    assert(beside[prefix.len() as int] == c);
    if (prefix + "/"@).is_prefix_of(beside) {
        assert((prefix + "/"@)[prefix.len() as int] == beside[prefix.len() as int]);
    }
    assert(beside.len() > prefix.len());
}

/// The entries under a path are all those that lie there, and no other.
pub proof fn subtrees_hold_what_lies_under(
    entries: Seq<(Seq<char>, u64)>,
    prefix: Seq<char>,
    count: nat,
    entry: (Seq<char>, u64),
)
    requires
        count <= entries.len(),
    ensures
        subtree_entries(entries, prefix, count).contains(entry) <==> entries.take(
            count as int,
        ).contains(entry) && is_under(entry.0, prefix),
    decreases count,
{
    if count > 0 {
        let last = (count - 1) as nat;
        subtrees_hold_what_lies_under(entries, prefix, last, entry);
        let own = entries[last as int];
        let head = entries.take(last as int);
        assert(entries.take(count as int) =~= head.push(own));
        pushed_members(head, own, entry);
        pushed_members(subtree_entries(entries, prefix, last), own, entry);
    }
}

/// Reconciling parts the entries: those whose prim is current are kept, the
/// others are stale.
pub proof fn entries_are_kept_or_stale(
    entries: Seq<(Seq<char>, u64)>,
    current: Seq<Seq<char>>,
    count: nat,
    entry: (Seq<char>, u64),
)
    requires
        count <= entries.len(),
    ensures
        stale_entries(entries, current, count).contains(entry) <==> entries.take(
            count as int,
        ).contains(entry) && !current.contains(entry.0),
        kept_entries(entries, current, count).contains(entry) <==> entries.take(
            count as int,
        ).contains(entry) && current.contains(entry.0),
    decreases count,
{
    if count > 0 {
        let last = (count - 1) as nat;
        entries_are_kept_or_stale(entries, current, last, entry);
        let own = entries[last as int];
        let head = entries.take(last as int);
        assert(entries.take(count as int) =~= head.push(own));
        pushed_members(head, own, entry);
        pushed_members(stale_entries(entries, current, last), own, entry);
        pushed_members(kept_entries(entries, current, last), own, entry);
    }
}

/// Every current prim is patched where it has an entity, on that entity, and
/// spawned where it has none; no other prim is either.
pub proof fn current_prims_are_patched_or_spawned(
    entries: Seq<(Seq<char>, u64)>,
    current: Seq<Seq<char>>,
    count: nat,
    path: Seq<char>,
    entity: u64,
)
    requires
        count <= current.len(),
    ensures
        known_prims(entries, current, count).contains((path, entity)) <==> current.take(
            count as int,
        ).contains(path) && at(entries, path) == Some(entity),
        new_prims(entries, current, count).contains(path) <==> current.take(count as int).contains(
            path,
        ) && at(entries, path) is None,
    decreases count,
{
    if count > 0 {
        let last = (count - 1) as nat;
        current_prims_are_patched_or_spawned(entries, current, last, path, entity);
        let own = current[last as int];
        let head = current.take(last as int);
        assert(current.take(count as int) =~= head.push(own));
        pushed_members(head, own, path);
        pushed_members(new_prims(entries, current, last), own, path);
        if let Some(e) = at(entries, own) {
            pushed_members(known_prims(entries, current, last), (own, e), (path, entity));
        }
    }
}

/// A link that is replaced is gone, any other stays.
pub proof fn other_links_stay<T>(found: Option<T>, taken: T)
    ensures
        found != Some(taken) ==> unless_taken(found, taken) == found,
        found == Some(taken) ==> unless_taken(found, taken) is None,
{
}

/// A transform is authored on the matrix operation and on the operation order
/// of the prim.
pub proof fn transforms_are_authored_on_two_properties(prim: Seq<char>)
    ensures
        transform_paths(prim) matches Ok((matrix, order)) ==> appended(prim, "xformOp:transform"@)
            == Ok::<Seq<char>, Seq<char>>(matrix) && appended(prim, "xformOpOrder"@) == Ok::<
            Seq<char>,
            Seq<char>,
        >(order),
        transform_paths(prim) is Ok <==> appended(prim, "xformOp:transform"@) is Ok && appended(
            prim,
            "xformOpOrder"@,
        ) is Ok,
{
}

/// Entries are seen one by one, in order, each path with its own entity.
pub proof fn entries_are_seen_in_order(list: Seq<(String, u64)>, i: int)
    ensures
        path_entries(list).len() == list.len(),
        0 <= i < list.len() ==> path_entries(list)[i] == (list[i].0@, list[i].1),
{
}

/// The entity of a path among the spawned prims is that of the last one spawned
/// there.
pub proof fn the_last_spawn_of_a_path_counts(
    spawned: Seq<(Seq<char>, u64)>,
    path: Seq<char>,
    count: nat,
)
    requires
        count <= spawned.len(),
    ensures
        last_spawned(spawned, path, count) matches Some(entity) ==> exists|k: int|
            0 <= k < count && #[trigger] spawned[k] == (path, entity) && forall|j: int|
                k < j < count ==> (#[trigger] spawned[j]).0 != path,
        last_spawned(spawned, path, count) is None ==> forall|k: int|
            0 <= k < count ==> (#[trigger] spawned[k]).0 != path,
    decreases count,
{
    if count > 0 {
        let last = (count - 1) as nat;
        the_last_spawn_of_a_path_counts(spawned, path, last);
        if spawned[last as int].0 == path {
            assert(spawned[last as int] == (path, spawned[last as int].1));
        } else if let Some(entity) = last_spawned(spawned, path, last) {
            let k = choose|k: int|
                0 <= k < last && #[trigger] spawned[k] == (path, entity) && forall|j: int|
                    k < j < last ==> (#[trigger] spawned[j]).0 != path;
            assert(spawned[k] == (path, entity));
        }
    }
}

/// No prim is patched twice.
pub proof fn prims_are_patched_once(
    entries: Seq<(Seq<char>, u64)>,
    current: Seq<Seq<char>>,
    count: nat,
)
    requires
        count <= current.len(),
    ensures
        known_prims(entries, current, count).no_duplicates(),
    decreases count,
{
    if count > 0 {
        let last = (count - 1) as nat;
        prims_are_patched_once(entries, current, last);
        let rest = known_prims(entries, current, last);
        let own = current[last as int];
        if let Some(e) = at(entries, own) {
            current_prims_are_patched_or_spawned(entries, current, last, own, e);
            if !current.take(last as int).contains(own) {
                let out = rest.push((own, e));
                assert forall|i: int, j: int|
                    0 <= i < out.len() && 0 <= j < out.len() && i != j implies out[i] != out[j] by {
                    if i == rest.len() {
                        assert(rest.contains(rest[j]));
                    } else if j == rest.len() {
                        assert(rest.contains(rest[i]));
                    }
                }
            }
        }
    }
}

/// Subtrees keep the order of the index and hold no entry twice.
pub proof fn subtrees_keep_the_order(
    entries: Seq<(Seq<char>, u64)>,
    prefix: Seq<char>,
    count: nat,
) -> (place: Seq<int>)
    requires
        count <= entries.len(),
    ensures
        place.len() == subtree_entries(entries, prefix, count).len(),
        forall|k: int|
            0 <= k < place.len() ==> 0 <= #[trigger] place[k] < count && entries[place[k]]
                == subtree_entries(entries, prefix, count)[k],
        forall|k: int, l: int|
            0 <= k < l < place.len() ==> #[trigger] place[k] < #[trigger] place[l],
    decreases count,
{
    if count == 0 {
        Seq::empty()
    } else {
        let before = subtrees_keep_the_order(entries, prefix, (count - 1) as nat);
        if subtree_entries(entries, prefix, count).len() == before.len() {
            before
        } else {
            before.push(count - 1)
        }
    }
}

} // verus!
