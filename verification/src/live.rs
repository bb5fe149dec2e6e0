//! Keeping projected entities in step with a live stage: the record of its
//! changes, the index between prim paths and entities, and what a batch of
//! changes asks for.

use crate::assoc::{
    at, directions_agree, found_exactly, linked, linked_members, one_to_one, pushed_members, slot,
    swapped, swapped_members, unique, without, without_clears_one, without_members, without_value,
    without_value_members, without_value_swaps,
};
use crate::live_laws::{
    current_prims_are_patched_or_spawned, entries_are_kept_or_stale, subtrees_hold_what_lies_under,
};
use crate::path::{append_property, appended};
use crate::text::{cat, copy, copy_all, opt_view, starts_with, str_eq, views};
use vstd::prelude::*;

verus! {

/// One committed stage change.
///
/// * `resynced`: composition restructured; the subtree must be reprojected.
/// * `changed_info`: a field, value or target changed, namespace intact; the
///   corresponding components can be patched in place.
#[derive(Debug, Clone)]
pub struct StageChange {
    pub resynced: Vec<String>,
    pub changed_info: Vec<String>,
}

/// The paths that a change mentions: resynced ones first.
pub open spec fn mentioned(change: StageChange) -> Seq<Seq<char>> {
    views(change.resynced@) + views(change.changed_info@)
}

impl StageChange {
    /// All paths mentioned by this change, resynced ones first.
    pub fn paths(&self) -> (r: Vec<String>)
        ensures
            views(r@) == mentioned(*self),
    {
        let mut out = copy_all(&self.resynced);
        let mut rest = copy_all(&self.changed_info);
        let ghost a = out@;
        let ghost b = rest@;
        out.append(&mut rest);
        assert(views(out@) =~= views(a) + views(b));
        out
    }
}

/// The changes that a stage has recorded and no frame has taken yet.
#[derive(Debug)]
pub struct ChangeQueue {
    pub pending: Vec<StageChange>,
}

impl ChangeQueue {
    pub fn new() -> (r: Self)
        ensures
            r.pending@.len() == 0,
    {
        ChangeQueue { pending: Vec::new() }
    }

    /// Records a committed change.
    pub fn record(&mut self, change: StageChange)
        ensures
            final(self).pending@ == old(self).pending@.push(change),
    {
        self.pending.push(change);
    }

    /// Take and clear all changes recorded since the last drain.
    pub fn drain_changes(&mut self) -> (r: Vec<StageChange>)
        ensures
            r@ == old(self).pending@,
            final(self).pending@.len() == 0,
    {
        let mut out: Vec<StageChange> = Vec::new();
        out.append(&mut self.pending);
        assert(out@ =~= old(self).pending@);
        out
    }

    /// Whether any change is pending.
    pub fn has_changes(&self) -> (r: bool)
        ensures
            r == (self.pending@.len() > 0),
    {
        self.pending.len() > 0
    }
}

/// Bidirectional index between prim paths and entities.
#[derive(Debug)]
pub struct PrimEntities {
    pairs: Vec<(String, u64)>,
}

/// Entries by path, with the paths as character sequences.
pub open spec fn path_entries(list: Seq<(String, u64)>) -> Seq<(Seq<char>, u64)> {
    list.map_values(|e: (String, u64)| (e.0@, e.1))
}

/// `path` is `prefix` or lies below it. A prefix that ends in a slash, such as
/// the root, has below it whatever starts with it.
pub open spec fn is_under(path: Seq<char>, prefix: Seq<char>) -> bool {
    path == prefix || (if prefix.len() > 0 && prefix.last() == '/' {
        prefix.is_prefix_of(path)
    } else {
        (prefix + "/"@).is_prefix_of(path)
    })
}

/// Whether `path` is `prefix` or lies below it.
pub fn lies_under(path: &str, prefix: &str) -> (r: bool)
    ensures
        r == is_under(path@, prefix@),
{
    let n: usize = prefix.unicode_len();
    if n > 0 && prefix.get_char(n - 1) == '/' {
        str_eq(path, prefix) || starts_with(path, prefix)
    } else {
        str_eq(path, prefix) || starts_with(path, cat(prefix, "/").as_str())
    }
}

/// The entries at and below `prefix`, among the first `count`.
pub open spec fn subtree_entries(
    entries: Seq<(Seq<char>, u64)>,
    prefix: Seq<char>,
    count: nat,
) -> Seq<(Seq<char>, u64)>
    decreases count,
{
    if count == 0 {
        Seq::empty()
    } else {
        let rest = subtree_entries(entries, prefix, (count - 1) as nat);
        if is_under(entries[count - 1].0, prefix) {
            rest.push(entries[count - 1])
        } else {
            rest
        }
    }
}

/// `found`, unless it is `taken`.
pub open spec fn unless_taken<T>(found: Option<T>, taken: T) -> Option<T> {
    if found == Some(taken) {
        None
    } else {
        found
    }
}

impl PrimEntities {
    /// The paths with the entities they map to.
    pub closed spec fn entries(self) -> Seq<(Seq<char>, u64)> {
        path_entries(self.pairs@)
    }

    /// The entity of a path.
    pub open spec fn entity_of(self, path: Seq<char>) -> Option<u64> {
        at(self.entries(), path)
    }

    /// The path of an entity.
    pub open spec fn path_of(self, entity: u64) -> Option<Seq<char>> {
        at(swapped(self.entries()), entity)
    }

    /// No path and no entity is mapped twice.
    pub open spec fn valid(self) -> bool {
        one_to_one(self.entries())
    }

    /// The two directions agree.
    pub open spec fn consistent(self) -> bool {
        forall|path: Seq<char>, entity: u64|
            (#[trigger] self.entity_of(path) == Some(entity)) == (#[trigger] self.path_of(entity)
                == Some(path))
    }

    pub fn new() -> (r: Self)
        ensures
            r.valid(),
            r.consistent(),
            r.entries() == Seq::<(Seq<char>, u64)>::empty(),
            forall|path: Seq<char>| (#[trigger] r.entity_of(path)) is None,
            forall|entity: u64| (#[trigger] r.path_of(entity)) is None,
    {
        let r = PrimEntities { pairs: Vec::new() };
        assert(r.entries() =~= Seq::<(Seq<char>, u64)>::empty());
        assert(swapped(r.entries()) =~= Seq::<(u64, Seq<char>)>::empty());
        r
    }

    fn path_slot(&self, path: &str) -> (r: usize)
        ensures
            r == slot(self.entries(), path@),
            r <= self.pairs@.len(),
    {
        let ghost all = self.entries();
        let mut i: usize = 0;
        assert(all.skip(0) =~= all);
        while i < self.pairs.len() && !str_eq(self.pairs[i].0.as_str(), path)
            invariant
                i <= self.pairs@.len(),
                all == path_entries(self.pairs@),
                slot(all, path@) == i + slot(all.skip(i as int), path@),
            decreases self.pairs@.len() - i,
        {
            assert(all.skip(i as int)[0] == all[i as int]);
            assert(all.skip(i as int).skip(1) =~= all.skip(i as int + 1));
            i = i + 1;
        }
        assert(i < self.pairs@.len() ==> all.skip(i as int)[0] == all[i as int]);
        i
    }

    fn entity_slot(&self, entity: u64) -> (r: usize)
        ensures
            r == slot(swapped(self.entries()), entity),
            r <= self.pairs@.len(),
    {
        let ghost all = swapped(self.entries());
        let mut i: usize = 0;
        assert(all.skip(0) =~= all);
        while i < self.pairs.len() && self.pairs[i].1 != entity
            invariant
                i <= self.pairs@.len(),
                all == swapped(path_entries(self.pairs@)),
                slot(all, entity) == i + slot(all.skip(i as int), entity),
            decreases self.pairs@.len() - i,
        {
            assert(all.skip(i as int)[0] == all[i as int]);
            assert(all.skip(i as int).skip(1) =~= all.skip(i as int + 1));
            i = i + 1;
        }
        assert(i < self.pairs@.len() ==> all.skip(i as int)[0] == all[i as int]);
        i
    }

    /// Maps a path to an entity and back. What either was mapped to before is
    /// taken out.
    pub fn insert(&mut self, path: &str, entity: u64)
        requires
            old(self).valid(),
        ensures
            final(self).entries() == linked(old(self).entries(), path@, entity),
            final(self).entity_of(path@) == Some(entity),
            final(self).path_of(entity) == Some(path@),
            forall|other: Seq<char>|
                other != path@ ==> #[trigger] final(self).entity_of(other) == unless_taken(
                    old(self).entity_of(other),
                    entity,
                ),
            forall|other: u64|
                other != entity ==> #[trigger] final(self).path_of(other) == unless_taken(
                    old(self).path_of(other),
                    path@,
                ),
            final(self).valid(),
            final(self).consistent(),
    {
        let ghost entries = self.entries();
        let i: usize = self.path_slot(path);
        if i < self.pairs.len() {
            let _ = self.pairs.remove(i);
            assert(self.entries() =~= entries.remove(i as int));
        }
        let ghost rest = self.entries();
        assert(rest == without(entries, path@));
        let j: usize = self.entity_slot(entity);
        if j < self.pairs.len() {
            let _ = self.pairs.remove(j);
            assert(self.entries() =~= rest.remove(j as int));
        }
        let ghost mid = self.entries();
        assert(mid == without_value(rest, entity));
        self.pairs.push((copy(path), entity));
        assert(self.entries() =~= mid.push((path@, entity)));
        proof {
            linking_replaces(entries, path@, entity);
            directions_always_agree(*self);
        }
    }

    /// The entity of a path.
    pub fn entity(&self, path: &str) -> (r: Option<u64>)
        ensures
            r == self.entity_of(path@),
    {
        let i: usize = self.path_slot(path);
        if i < self.pairs.len() {
            assert(self.entries()[i as int] == (self.pairs@[i as int].0@, self.pairs@[i as int].1));
            Some(self.pairs[i].1)
        } else {
            None
        }
    }

    /// The path of an entity.
    pub fn path(&self, entity: u64) -> (r: Option<&str>)
        ensures
            match r {
                Some(p) => self.path_of(entity) == Some(p@),
                None => self.path_of(entity) is None,
            },
    {
        let i: usize = self.entity_slot(entity);
        if i < self.pairs.len() {
            assert(swapped(self.entries())[i as int] == (
                self.pairs@[i as int].1,
                self.pairs@[i as int].0@,
            ));
            Some(self.pairs[i].0.as_str())
        } else {
            None
        }
    }

    /// Remove a path's mapping, returning the entity it pointed at.
    pub fn remove_path(&mut self, path: &str) -> (r: Option<u64>)
        requires
            old(self).valid(),
        ensures
            r == old(self).entity_of(path@),
            final(self).entries() == without(old(self).entries(), path@),
            final(self).entity_of(path@) is None,
            forall|other: Seq<char>|
                other != path@ ==> #[trigger] final(self).entity_of(other) == old(self).entity_of(
                    other,
                ),
            forall|other: u64| #[trigger]
                final(self).path_of(other) == unless_taken(old(self).path_of(other), path@),
            final(self).valid(),
            final(self).consistent(),
    {
        let ghost entries = self.entries();
        proof {
            unlinking_clears(entries, path@);
        }
        let i: usize = self.path_slot(path);
        let r: Option<u64> = if i < self.pairs.len() {
            assert(entries[i as int] == (self.pairs@[i as int].0@, self.pairs@[i as int].1));
            let (_, entity) = self.pairs.remove(i);
            assert(self.entries() =~= entries.remove(i as int));
            Some(entity)
        } else {
            None
        };
        assert(self.entries() == without(entries, path@));
        proof {
            directions_always_agree(*self);
        }
        r
    }

    /// Remove an entity's mapping (e.g. on despawn), returning its path.
    pub fn remove_entity(&mut self, entity: u64) -> (r: Option<String>)
        requires
            old(self).valid(),
        ensures
            opt_view(r) == old(self).path_of(entity),
            final(self).entries() == without_value(old(self).entries(), entity),
            final(self).path_of(entity) is None,
            forall|other: u64|
                other != entity ==> #[trigger] final(self).path_of(other) == old(self).path_of(
                    other,
                ),
            forall|other: Seq<char>| #[trigger]
                final(self).entity_of(other) == unless_taken(old(self).entity_of(other), entity),
            final(self).valid(),
            final(self).consistent(),
    {
        let ghost entries = self.entries();
        proof {
            without_value_swaps(entries, entity);
            unlinking_clears(swapped(entries), entity);
            without_value_members(entries, entity);
            without_value_swaps(without_value(entries, entity), entity);
        }
        let j: usize = self.entity_slot(entity);
        let r: Option<String> = if j < self.pairs.len() {
            assert(swapped(entries)[j as int] == (
                self.pairs@[j as int].1,
                self.pairs@[j as int].0@,
            ));
            let (path, _) = self.pairs.remove(j);
            assert(self.entries() =~= entries.remove(j as int));
            Some(path)
        } else {
            None
        };
        assert(self.entries() == without_value(entries, entity));
        proof {
            directions_always_agree(*self);
        }
        r
    }

    /// Every `(path, entity)` currently mapped.
    pub fn iter(&self) -> (r: Vec<(String, u64)>)
        ensures
            path_entries(r@) == self.entries(),
    {
        let mut out: Vec<(String, u64)> = Vec::new();
        for i in 0..self.pairs.len()
            invariant
                out@.len() == i,
                forall|k: int|
                    0 <= k < i ==> (#[trigger] out@[k]).0@ == self.pairs@[k].0@ && out@[k].1
                        == self.pairs@[k].1,
        {
            out.push((copy(self.pairs[i].0.as_str()), self.pairs[i].1));
        }
        assert(path_entries(out@) =~= self.entries());
        out
    }

    pub fn len(&self) -> (r: usize)
        ensures
            r == self.entries().len(),
    {
        self.pairs.len()
    }

    pub fn is_empty(&self) -> (r: bool)
        ensures
            r == (self.entries().len() == 0),
    {
        self.pairs.len() == 0
    }

    /// Every `(path, entity)` whose path is `prefix` or a descendant of it:
    /// the set that a resynced parent invalidates.
    pub fn subtree(&self, prefix: &str) -> (r: Vec<(String, u64)>)
        ensures
            path_entries(r@) == subtree_entries(self.entries(), prefix@, self.entries().len()),
            forall|entry: (Seq<char>, u64)| #[trigger]
                path_entries(r@).contains(entry) <==> self.entries().contains(entry) && is_under(
                    entry.0,
                    prefix@,
                ),
    {
        let ghost all = self.entries();
        let mut out: Vec<(String, u64)> = Vec::new();
        assert(path_entries(out@) =~= Seq::<(Seq<char>, u64)>::empty());
        for i in 0..self.pairs.len()
            invariant
                all == path_entries(self.pairs@),
                path_entries(out@) == subtree_entries(all, prefix@, i as nat),
        {
            let path = self.pairs[i].0.as_str();
            assert(all[i as int] == (path@, self.pairs@[i as int].1));
            if lies_under(path, prefix) {
                let ghost sofar = path_entries(out@);
                out.push((copy(path), self.pairs[i].1));
                assert(path_entries(out@) =~= sofar.push(all[i as int]));
            }
        }
        assert(all.len() == self.pairs@.len());
        proof {
            assert(all.take(all.len() as int) =~= all);
            assert forall|entry: (Seq<char>, u64)| #[trigger]
                path_entries(out@).contains(entry) <==> all.contains(entry) && is_under(
                    entry.0,
                    prefix@,
                ) by {
                subtrees_hold_what_lies_under(all, prefix@, all.len(), entry);
            }
        }
        out
    }
}

/// In every index a path leads to an entity exactly where the entity leads
/// back to the path.
pub proof fn directions_always_agree(map: PrimEntities)
    requires
        map.valid(),
    ensures
        map.consistent(),
{
    assert forall|path: Seq<char>, entity: u64|
        (#[trigger] map.entity_of(path) == Some(entity)) == (#[trigger] map.path_of(entity)
            == Some(path)) by {
        directions_agree(map.entries(), path, entity);
    }
}

/// Every absolute path is at or below the root.
pub proof fn everything_is_under_the_root(path: Seq<char>)
    requires
        path.len() > 0,
        path[0] == '/',
    ensures
        is_under(path, seq!['/']),
{
    assert(path.take(1) =~= seq!['/']);
}

/// Linking gives the key and the value to each other; every other key and
/// value keeps its own, unless that was one of the two.
proof fn linking_replaces<K, V>(list: Seq<(K, V)>, key: K, value: V)
    requires
        one_to_one(list),
    ensures
        one_to_one(linked(list, key, value)),
        at(linked(list, key, value), key) == Some(value),
        at(swapped(linked(list, key, value)), value) == Some(key),
        forall|k: K|
            k != key ==> #[trigger] at(linked(list, key, value), k) == unless_taken(
                at(list, k),
                value,
            ),
        forall|v: V|
            v != value ==> #[trigger] at(swapped(linked(list, key, value)), v) == unless_taken(
                at(swapped(list), v),
                key,
            ),
{
    let out = linked(list, key, value);
    linked_members(list, key, value);
    assert(out.contains((key, value)));
    directions_agree(out, key, value);
    assert forall|k: K| k != key implies #[trigger] at(out, k) == unless_taken(
        at(list, k),
        value,
    ) by {
        if let Some(v) = at(out, k) {
            directions_agree(out, k, v);
            assert(out.contains((k, v)));
            directions_agree(list, k, v);
        }
        if let Some(v) = at(list, k) {
            directions_agree(list, k, v);
            directions_agree(out, k, v);
            assert(out.contains((k, v)) <==> (k != key && v != value && list.contains((k, v))));
        }
    }
    assert forall|v: V| v != value implies #[trigger] at(swapped(out), v) == unless_taken(
        at(swapped(list), v),
        key,
    ) by {
        if let Some(k) = at(swapped(out), v) {
            directions_agree(out, k, v);
            assert(out.contains((k, v)));
            directions_agree(list, k, v);
        }
        if let Some(k) = at(swapped(list), v) {
            directions_agree(list, k, v);
            directions_agree(out, k, v);
            assert(out.contains((k, v)) <==> (k != key && v != value && list.contains((k, v))));
        }
    }
}

/// Taking a key out takes its value out with it; everything else stays.
proof fn unlinking_clears<K, V>(list: Seq<(K, V)>, key: K)
    requires
        one_to_one(list),
    ensures
        one_to_one(without(list, key)),
        at(without(list, key), key) is None,
        forall|k: K| k != key ==> #[trigger] at(without(list, key), k) == at(list, k),
        forall|v: V| #[trigger]
            at(swapped(without(list, key)), v) == unless_taken(at(swapped(list), v), key),
{
    let out = without(list, key);
    without_members(list, key);
    without_clears_one(list, key);
    assert forall|v: V| #[trigger]
        at(swapped(out), v) == unless_taken(at(swapped(list), v), key) by {
        if let Some(k) = at(swapped(out), v) {
            directions_agree(out, k, v);
            assert(out.contains((k, v)));
            directions_agree(list, k, v);
        }
        if let Some(k) = at(swapped(list), v) {
            directions_agree(list, k, v);
            directions_agree(out, k, v);
            assert(out.contains((k, v)) <==> (k != key && list.contains((k, v))));
        }
    }
}

/// The text before the first dot.
pub open spec fn before_dot(path: Seq<char>) -> Seq<char>
    decreases path.len(),
{
    if path.len() == 0 || path[0] == '.' {
        Seq::empty()
    } else {
        seq![path[0]] + before_dot(path.skip(1))
    }
}

/// `prim` owns `path`: it has no dot, and `path` is `prim` or goes on with a
/// dot after it.
pub open spec fn owns(prim: Seq<char>, path: Seq<char>) -> bool {
    &&& prim.len() <= path.len()
    &&& prim == path.take(prim.len() as int)
    &&& forall|k: int| 0 <= k < prim.len() ==> #[trigger] prim[k] != '.'
    &&& prim.len() < path.len() ==> path[prim.len() as int] == '.'
}

/// Every path has exactly one owner.
pub proof fn every_path_has_one_owner(path: Seq<char>, prim: Seq<char>)
    ensures
        owns(prim, path) <==> prim == before_dot(path),
    decreases path.len(),
{
    let own = before_dot(path);
    if path.len() == 0 || path[0] == '.' {
        assert(path.take(0) =~= Seq::<char>::empty());
        if owns(prim, path) {
            if prim.len() > 0 {
                assert(prim[0] != '.');
                assert(prim[0] == path[0]);
            }
            assert(prim =~= own);
        }
    } else {
        let rest = path.skip(1);
        every_path_has_one_owner(rest, before_dot(rest));
        assert(own.skip(1) =~= before_dot(rest));
        assert(owns(own, path)) by {
            assert(own =~= path.take(own.len() as int)) by {
                assert forall|k: int| 0 <= k < own.len() implies own[k] == path[k] by {
                    if k > 0 {
                        assert(before_dot(rest)[k - 1] == rest.take(before_dot(rest).len() as int)[k - 1]);
                    }
                }
            }
            assert forall|k: int| 0 <= k < own.len() implies #[trigger] own[k] != '.' by {
                if k > 0 {
                    assert(before_dot(rest)[k - 1] != '.');
                }
            }
            if own.len() < path.len() {
                assert(path[own.len() as int] == rest[before_dot(rest).len() as int]);
            }
        }
        if owns(prim, path) {
            if prim.len() < own.len() {
                assert(own[prim.len() as int] == path[prim.len() as int]);
            } else if prim.len() > own.len() {
                assert(prim[own.len() as int] == path[own.len() as int]);
            }
            assert(prim =~= own);
        }
    }
}

/// The prim path owning a (possibly property) path: `/Foo.bar` gives `/Foo`.
pub fn prim_of(path: &str) -> (r: String)
    ensures
        r@ == before_dot(path@),
        owns(r@, path@),
{
    let n: usize = path.unicode_len();
    let mut i: usize = 0;
    assert(path@.skip(0) =~= path@);
    assert(path@.take(0) + before_dot(path@.skip(0)) =~= before_dot(path@));
    while i < n && path.get_char(i) != '.'
        invariant
            n == path@.len(),
            i <= n,
            before_dot(path@) == path@.take(i as int) + before_dot(path@.skip(i as int)),
        decreases n - i,
    {
        assert(path@.skip(i as int).skip(1) =~= path@.skip(i as int + 1));
        assert(path@.take(i as int) + (seq![path@[i as int]] + before_dot(path@.skip(i as int + 1)))
            =~= path@.take(i as int + 1) + before_dot(path@.skip(i as int + 1)));
        i = i + 1;
    }
    let out = path.substring_char(0, i).to_owned();
    assert(out@ =~= path@.take(i as int));
    assert(path@.take(i as int) + before_dot(path@.skip(i as int)) =~= path@.take(i as int));
    proof {
        every_path_has_one_owner(path@, out@);
    }
    out
}

/// What a batch of changes asks for.
#[derive(Debug)]
pub enum SyncPlan {
    /// Nothing changed.
    Nothing,
    /// The namespace changed: reconcile the entities with the stage.
    Reconcile,
    /// Read these prims again onto these entities, in order.
    Patch(Vec<(String, u64)>),
}

/// Some change of the batch restructured the namespace.
pub open spec fn resyncs(changes: Seq<StageChange>) -> bool {
    exists|i: int| 0 <= i < changes.len() && (#[trigger] changes[i]).resynced@.len() > 0
}

/// The known prims among the first `count` paths, with their entities.
pub open spec fn touched(paths: Seq<Seq<char>>, map: PrimEntities, count: nat) -> Seq<
    (Seq<char>, u64),
>
    decreases count,
{
    if count == 0 {
        Seq::empty()
    } else {
        let rest = touched(paths, map, (count - 1) as nat);
        match map.entity_of(before_dot(paths[count - 1])) {
            Some(e) => rest.push((before_dot(paths[count - 1]), e)),
            None => rest,
        }
    }
}

/// The known prims that the first `count` changes mention.
pub open spec fn all_touched(changes: Seq<StageChange>, map: PrimEntities, count: nat) -> Seq<
    (Seq<char>, u64),
>
    decreases count,
{
    if count == 0 {
        Seq::empty()
    } else {
        let paths = mentioned(changes[count - 1]);
        all_touched(changes, map, (count - 1) as nat) + touched(paths, map, paths.len())
    }
}

/// The change names the path, as restructured or as changed in place.
pub open spec fn names(change: StageChange, path: Seq<char>) -> bool {
    ||| exists|k: int| 0 <= k < change.resynced@.len() && (#[trigger] change.resynced@[k])@ == path
    ||| exists|k: int|
        0 <= k < change.changed_info@.len() && (#[trigger] change.changed_info@[k])@ == path
}

/// Some change of the batch names a path that the prim owns.
pub open spec fn concerns(changes: Seq<StageChange>, prim: Seq<char>) -> bool {
    exists|i: int, path: Seq<char>|
        0 <= i < changes.len() && #[trigger] names(changes[i], path) && #[trigger] owns(prim, path)
}

/// The paths that a change mentions are those that it names.
pub proof fn mentions_are_names(change: StageChange, path: Seq<char>)
    ensures
        mentioned(change).contains(path) <==> names(change, path),
{
    let all = mentioned(change);
    let first = views(change.resynced@);
    let second = views(change.changed_info@);
    if all.contains(path) {
        let k = choose|k: int| 0 <= k < all.len() && all[k] == path;
        if k < first.len() {
            assert(change.resynced@[k]@ == path);
        } else {
            assert(change.changed_info@[k - first.len()]@ == path);
        }
    }
    if exists|k: int| 0 <= k < change.resynced@.len() && (#[trigger] change.resynced@[k])@ == path {
        let k = choose|k: int|
            0 <= k < change.resynced@.len() && (#[trigger] change.resynced@[k])@ == path;
        assert(all[k] == path);
    }
    if exists|k: int|
        0 <= k < change.changed_info@.len() && (#[trigger] change.changed_info@[k])@ == path {
        let k = choose|k: int|
            0 <= k < change.changed_info@.len() && (#[trigger] change.changed_info@[k])@ == path;
        assert(all[first.len() + k] == path);
    }
}

proof fn touched_members(paths: Seq<Seq<char>>, map: PrimEntities, count: nat, entry: (Seq<char>, u64))
    requires
        count <= paths.len(),
    ensures
        touched(paths, map, count).contains(entry) <==> map.entity_of(entry.0) == Some(entry.1)
            && exists|k: int| 0 <= k < count && owns(entry.0, #[trigger] paths[k]),
    decreases count,
{
    if count > 0 {
        let last = (count - 1) as nat;
        touched_members(paths, map, last, entry);
        every_path_has_one_owner(paths[last as int], entry.0);
        every_path_has_one_owner(paths[last as int], before_dot(paths[last as int]));
        let rest = touched(paths, map, last);
        match map.entity_of(before_dot(paths[last as int])) {
            Some(e) => {
                pushed_members(rest, (before_dot(paths[last as int]), e), entry);
            },
            None => {},
        }
        if exists|k: int| 0 <= k < last && owns(entry.0, #[trigger] paths[k]) {
            let k = choose|k: int| 0 <= k < last && owns(entry.0, #[trigger] paths[k]);
            assert(owns(entry.0, paths[k]));
        }
    }
}

/// A batch touches exactly the mapped prims that it concerns: a prim is patched
/// on its own entity where some change of the batch, whichever it is, names a
/// path that the prim owns.
pub proof fn batches_touch_what_they_concern(
    changes: Seq<StageChange>,
    map: PrimEntities,
    count: nat,
    entry: (Seq<char>, u64),
)
    requires
        count <= changes.len(),
    ensures
        all_touched(changes, map, count).contains(entry) <==> map.entity_of(entry.0) == Some(entry.1)
            && concerns(changes.take(count as int), entry.0),
    decreases count,
{
    let batch = changes.take(count as int);
    if count > 0 {
        let last = (count - 1) as nat;
        let before = changes.take(last as int);
        batches_touch_what_they_concern(changes, map, last, entry);
        let paths = mentioned(changes[last as int]);
        touched_members(paths, map, paths.len(), entry);
        let rest = all_touched(changes, map, last);
        let more = touched(paths, map, paths.len());
        joined_members(rest, more, entry);
        if concerns(before, entry.0) {
            let (i, path) = choose|i: int, path: Seq<char>|
                0 <= i < before.len() && #[trigger] names(before[i], path) && #[trigger] owns(
                    entry.0,
                    path,
                );
            assert(names(batch[i], path));
        }
        if exists|k: int| 0 <= k < paths.len() && owns(entry.0, #[trigger] paths[k]) {
            let k = choose|k: int| 0 <= k < paths.len() && owns(entry.0, #[trigger] paths[k]);
            mentions_are_names(changes[last as int], paths[k]);
            assert(paths.contains(paths[k]));
            assert(names(batch[last as int], paths[k]));
        }
        if concerns(batch, entry.0) {
            let (i, path) = choose|i: int, path: Seq<char>|
                0 <= i < batch.len() && #[trigger] names(batch[i], path) && #[trigger] owns(
                    entry.0,
                    path,
                );
            if i < last {
                assert(names(before[i], path));
            } else {
                mentions_are_names(changes[last as int], path);
                let k = choose|k: int| 0 <= k < paths.len() && paths[k] == path;
                assert(owns(entry.0, paths[k]));
            }
        }
    }
}

proof fn joined_members<T>(a: Seq<T>, b: Seq<T>, item: T)
    ensures
        (a + b).contains(item) <==> a.contains(item) || b.contains(item),
{
    if a.contains(item) {
        let k = choose|k: int| 0 <= k < a.len() && a[k] == item;
        assert((a + b)[k] == item);
    }
    if b.contains(item) {
        let k = choose|k: int| 0 <= k < b.len() && b[k] == item;
        assert((a + b)[a.len() + k] == item);
    }
    if (a + b).contains(item) {
        let k = choose|k: int| 0 <= k < (a + b).len() && (a + b)[k] == item;
        if k < a.len() {
            assert(a[k] == item);
        } else {
            assert(b[k - a.len()] == item);
        }
    }
}

/// What a batch of changes asks for: reconciliation where any change
/// restructured the namespace, else a patch of every known prim it mentions.
pub fn apply_changes(changes: &Vec<StageChange>, map: &PrimEntities) -> (r: SyncPlan)
    ensures
        changes@.len() == 0 ==> r == SyncPlan::Nothing,
        changes@.len() > 0 && resyncs(changes@) ==> r == SyncPlan::Reconcile,
        changes@.len() > 0 && !resyncs(changes@) ==> (r matches SyncPlan::Patch(list)
            && path_entries(list@) == all_touched(changes@, *map, changes@.len())),
        r is Reconcile <==> exists|i: int|
            0 <= i < changes@.len() && (#[trigger] changes@[i]).resynced@.len() > 0,
        r is Nothing <==> changes@.len() == 0,
        r matches SyncPlan::Patch(list) ==> forall|prim: Seq<char>, entity: u64|
            #[trigger] path_entries(list@).contains((prim, entity)) <==> map.entity_of(prim)
                == Some(entity) && concerns(changes@, prim),
{
    if changes.len() == 0 {
        return SyncPlan::Nothing;
    }
    for i in 0..changes.len()
        invariant
            changes@.len() > 0,
            forall|k: int| 0 <= k < i ==> (#[trigger] changes@[k]).resynced@.len() == 0,
    {
        if changes[i].resynced.len() > 0 {
            assert(resyncs(changes@));
            return SyncPlan::Reconcile;
        }
    }
    assert(!resyncs(changes@));
    let mut out: Vec<(String, u64)> = Vec::new();
    assert(path_entries(out@) =~= Seq::<(Seq<char>, u64)>::empty());
    for i in 0..changes.len()
        invariant
            path_entries(out@) == all_touched(changes@, *map, i as nat),
    {
        let paths = changes[i].paths();
        let ghost start = path_entries(out@);
        let ghost all = mentioned(changes@[i as int]);
        assert(start + touched(all, *map, 0) =~= start);
        for k in 0..paths.len()
            invariant
                all == views(paths@),
                path_entries(out@) == start + touched(all, *map, k as nat),
        {
            assert(all[k as int] == paths@[k as int]@);
            let prim = prim_of(paths[k].as_str());
            if let Some(entity) = map.entity(prim.as_str()) {
                let ghost sofar = path_entries(out@);
                out.push((prim, entity));
                assert(path_entries(out@) =~= sofar.push((prim@, entity)));
                assert(sofar.push((prim@, entity)) =~= start + touched(all, *map, k as nat + 1));
            }
        }
        assert(all.len() == paths@.len());
    }
    proof {
        assert forall|prim: Seq<char>, entity: u64|
            #[trigger] path_entries(out@).contains((prim, entity)) <==> map.entity_of(prim) == Some(
                entity,
            ) && concerns(changes@, prim) by {
            batches_touch_what_they_concern(changes@, *map, changes@.len(), (prim, entity));
            assert(changes@.take(changes@.len() as int) =~= changes@);
        }
    }
    SyncPlan::Patch(out)
}

/// What reconciling asks of the host: entities to despawn, entities to patch
/// and prims to spawn.
#[derive(Debug)]
pub struct ReconcilePlan {
    pub despawned: Vec<(String, u64)>,
    pub patched: Vec<(String, u64)>,
    pub spawned: Vec<String>,
}

/// The first `count` entries whose prim is gone.
pub open spec fn stale_entries(
    entries: Seq<(Seq<char>, u64)>,
    current: Seq<Seq<char>>,
    count: nat,
) -> Seq<(Seq<char>, u64)>
    decreases count,
{
    if count == 0 {
        Seq::empty()
    } else {
        let rest = stale_entries(entries, current, (count - 1) as nat);
        if current.contains(entries[count - 1].0) {
            rest
        } else {
            rest.push(entries[count - 1])
        }
    }
}

/// The first `count` entries whose prim is still there.
pub open spec fn kept_entries(
    entries: Seq<(Seq<char>, u64)>,
    current: Seq<Seq<char>>,
    count: nat,
) -> Seq<(Seq<char>, u64)>
    decreases count,
{
    if count == 0 {
        Seq::empty()
    } else {
        let rest = kept_entries(entries, current, (count - 1) as nat);
        if current.contains(entries[count - 1].0) {
            rest.push(entries[count - 1])
        } else {
            rest
        }
    }
}

/// Of the first `count` current prims, those with an entity, each once.
pub open spec fn known_prims(
    entries: Seq<(Seq<char>, u64)>,
    current: Seq<Seq<char>>,
    count: nat,
) -> Seq<(Seq<char>, u64)>
    decreases count,
{
    if count == 0 {
        Seq::empty()
    } else {
        let rest = known_prims(entries, current, (count - 1) as nat);
        match at(entries, current[count - 1]) {
            Some(e) => if current.take(count - 1).contains(current[count - 1]) {
                rest
            } else {
                rest.push((current[count - 1], e))
            },
            None => rest,
        }
    }
}

/// Of the first `count` current prims, those without an entity, each once.
pub open spec fn new_prims(
    entries: Seq<(Seq<char>, u64)>,
    current: Seq<Seq<char>>,
    count: nat,
) -> Seq<Seq<char>>
    decreases count,
{
    if count == 0 {
        Seq::empty()
    } else {
        let rest = new_prims(entries, current, (count - 1) as nat);
        match at(entries, current[count - 1]) {
            Some(_) => rest,
            None => if current.take(count - 1).contains(current[count - 1]) {
                rest
            } else {
                rest.push(current[count - 1])
            },
        }
    }
}

/// What is kept of a one-to-one list is one-to-one, and it is the pairs whose
/// prim is current.
proof fn kept_members(entries: Seq<(Seq<char>, u64)>, current: Seq<Seq<char>>, count: nat)
    requires
        one_to_one(entries),
        count <= entries.len(),
    ensures
        one_to_one(kept_entries(entries, current, count)),
        forall|p: Seq<char>, e: u64| #[trigger]
            kept_entries(entries, current, count).contains((p, e)) <==> current.contains(p)
                && entries.take(count as int).contains((p, e)),
    decreases count,
{
    let kept = kept_entries(entries, current, count);
    if count == 0 {
        assert(swapped(kept) =~= Seq::<(u64, Seq<char>)>::empty());
    } else {
        let before = (count - 1) as nat;
        let rest = kept_entries(entries, current, before);
        let head = entries.take(before as int);
        let last = entries[count - 1];
        kept_members(entries, current, before);
        assert(entries.take(count as int) =~= head.push(last));
        assert forall|k: int| 0 <= k < rest.len() implies (#[trigger] rest[k]).0 != last.0
            && rest[k].1 != last.1 by {
            assert(rest.contains((rest[k].0, rest[k].1)));
            let m = choose|m: int| 0 <= m < head.len() && head[m] == rest[k];
            assert(entries[m].0 != entries[count - 1].0);
            assert(swapped(entries)[m].0 != swapped(entries)[count - 1].0);
        }
        assert forall|i: int, j: int| 0 <= i < j < swapped(kept).len() implies (#[trigger] swapped(
            kept,
        )[i]).0 != (#[trigger] swapped(kept)[j]).0 by {
            if j < rest.len() {
                assert(swapped(rest)[i].0 != swapped(rest)[j].0);
            } else {
                assert(rest[i].1 != last.1);
            }
        }
        assert forall|p: Seq<char>, e: u64| #[trigger]
            kept.contains((p, e)) <==> current.contains(p) && entries.take(
                count as int,
            ).contains((p, e)) by {
            pushed_members(rest, last, (p, e));
            pushed_members(head, last, (p, e));
            assert(rest.contains((p, e)) <==> current.contains(p) && head.contains((p, e)));
        }
    }
}

/// What the index says once the prims that are gone are taken out.
proof fn keeping_keeps_the_current(entries: Seq<(Seq<char>, u64)>, current: Seq<Seq<char>>)
    requires
        one_to_one(entries),
    ensures
        one_to_one(kept_entries(entries, current, entries.len())),
        forall|path: Seq<char>| #[trigger]
            at(kept_entries(entries, current, entries.len()), path) == (if current.contains(path) {
                at(entries, path)
            } else {
                None
            }),
        forall|entity: u64| #[trigger]
            at(swapped(kept_entries(entries, current, entries.len())), entity) == (match at(
                swapped(entries),
                entity,
            ) {
                Some(path) => if current.contains(path) {
                    Some(path)
                } else {
                    None
                },
                None => None,
            }),
{
    let kept = kept_entries(entries, current, entries.len());
    kept_members(entries, current, entries.len());
    assert(entries.take(entries.len() as int) =~= entries);
    assert forall|path: Seq<char>| #[trigger]
        at(kept, path) == (if current.contains(path) {
            at(entries, path)
        } else {
            None
        }) by {
        if let Some(e) = at(kept, path) {
            directions_agree(kept, path, e);
            directions_agree(entries, path, e);
            assert(kept.contains((path, e)));
        }
        if let Some(e) = at(entries, path) {
            directions_agree(kept, path, e);
            directions_agree(entries, path, e);
            assert(kept.contains((path, e)) <==> current.contains(path) && entries.contains(
                (path, e),
            ));
        }
    }
    assert forall|entity: u64| #[trigger]
        at(swapped(kept), entity) == (match at(swapped(entries), entity) {
            Some(path) => if current.contains(path) {
                Some(path)
            } else {
                None
            },
            None => None,
        }) by {
        if let Some(p) = at(swapped(kept), entity) {
            directions_agree(kept, p, entity);
            directions_agree(entries, p, entity);
            assert(kept.contains((p, entity)));
        }
        if let Some(p) = at(swapped(entries), entity) {
            directions_agree(kept, p, entity);
            directions_agree(entries, p, entity);
            assert(kept.contains((p, entity)) <==> current.contains(p) && entries.contains(
                (p, entity),
            ));
        }
    }
}

/// Whether one of the first `count` texts is `item`.
fn holds(list: &Vec<String>, count: usize, item: &str) -> (r: bool)
    requires
        count <= list@.len(),
    ensures
        r == views(list@).take(count as int).contains(item@),
{
    let ghost head = views(list@).take(count as int);
    for i in 0..count
        invariant
            count <= list@.len(),
            head == views(list@).take(count as int),
            forall|k: int| 0 <= k < i ==> (#[trigger] head[k]) != item@,
    {
        assert(head[i as int] == list@[i as int]@);
        if str_eq(list[i].as_str(), item) {
            return true;
        }
    }
    assert(head.len() == count);
    false
}

/// Reconcile the index with the stage's current prims: mappings of prims that
/// are gone are taken out, in both directions. The plan lists the entities to
/// despawn, those to patch and the prims to spawn, each in order.
pub fn reconcile(map: &mut PrimEntities, current: &Vec<String>) -> (r: ReconcilePlan)
    requires
        old(map).valid(),
    ensures
        path_entries(r.despawned@) == stale_entries(
            old(map).entries(),
            views(current@),
            old(map).entries().len(),
        ),
        path_entries(r.patched@) == known_prims(
            old(map).entries(),
            views(current@),
            current@.len(),
        ),
        views(r.spawned@) == new_prims(old(map).entries(), views(current@), current@.len()),
        final(map).entries() == kept_entries(
            old(map).entries(),
            views(current@),
            old(map).entries().len(),
        ),
        forall|path: Seq<char>| #[trigger]
            final(map).entity_of(path) == (if views(current@).contains(path) {
                old(map).entity_of(path)
            } else {
                None
            }),
        forall|entity: u64| #[trigger]
            final(map).path_of(entity) == (match old(map).path_of(entity) {
                Some(path) => if views(current@).contains(path) {
                    Some(path)
                } else {
                    None
                },
                None => None,
            }),
        forall|path: Seq<char>, entity: u64| #[trigger]
            path_entries(r.despawned@).contains((path, entity)) <==> old(map).entity_of(path)
                == Some(entity) && !views(current@).contains(path),
        forall|path: Seq<char>, entity: u64| #[trigger]
            path_entries(r.patched@).contains((path, entity)) <==> old(map).entity_of(path) == Some(
                entity,
            ) && views(current@).contains(path),
        forall|path: Seq<char>| #[trigger]
            views(r.spawned@).contains(path) <==> old(map).entity_of(path) is None && views(
                current@,
            ).contains(path),
        final(map).valid(),
        final(map).consistent(),
{
    let ghost entries = map.entries();
    let ghost wanted = views(current@);
    let total: usize = current.len();
    assert(wanted.take(total as int) =~= wanted);
    let mut kept: Vec<(String, u64)> = Vec::new();
    let mut despawned: Vec<(String, u64)> = Vec::new();
    assert(path_entries(kept@) =~= Seq::<(Seq<char>, u64)>::empty());
    assert(path_entries(despawned@) =~= Seq::<(Seq<char>, u64)>::empty());
    for i in 0..map.pairs.len()
        invariant
            entries == path_entries(map.pairs@),
            wanted == views(current@),
            total == current@.len(),
            wanted.take(total as int) == wanted,
            path_entries(kept@) == kept_entries(entries, wanted, i as nat),
            path_entries(despawned@) == stale_entries(entries, wanted, i as nat),
    {
        let path = map.pairs[i].0.as_str();
        let entity: u64 = map.pairs[i].1;
        assert(entries[i as int] == (path@, entity));
        if holds(current, total, path) {
            let ghost sofar = path_entries(kept@);
            kept.push((copy(path), entity));
            assert(path_entries(kept@) =~= sofar.push(entries[i as int]));
        } else {
            let ghost sofar = path_entries(despawned@);
            despawned.push((copy(path), entity));
            assert(path_entries(despawned@) =~= sofar.push(entries[i as int]));
        }
    }
    assert(entries.len() == map.pairs@.len());
    map.pairs = kept;
    proof {
        keeping_keeps_the_current(entries, wanted);
        directions_always_agree(*map);
    }
    let mut patched: Vec<(String, u64)> = Vec::new();
    let mut spawned: Vec<String> = Vec::new();
    assert(path_entries(patched@) =~= Seq::<(Seq<char>, u64)>::empty());
    assert(views(spawned@) =~= Seq::<Seq<char>>::empty());
    for i in 0..total
        invariant
            wanted == views(current@),
            total == current@.len(),
            forall|path: Seq<char>| #[trigger]
                map.entity_of(path) == (if wanted.contains(path) {
                    at(entries, path)
                } else {
                    None
                }),
            path_entries(patched@) == known_prims(entries, wanted, i as nat),
            views(spawned@) == new_prims(entries, wanted, i as nat),
    {
        let path = current[i].as_str();
        assert(wanted[i as int] == path@);
        assert(wanted.contains(path@));
        let seen = holds(current, i, path);
        match map.entity(path) {
            Some(entity) => if !seen {
                let ghost sofar = path_entries(patched@);
                patched.push((copy(path), entity));
                assert(path_entries(patched@) =~= sofar.push((path@, entity)));
            },
            None => if !seen {
                let ghost sofar = views(spawned@);
                spawned.push(copy(path));
                assert(views(spawned@) =~= sofar.push(path@));
            },
        }
    }
    proof {
        assert(entries.take(entries.len() as int) =~= entries);
        assert(wanted.take(total as int) =~= wanted);
        assert forall|path: Seq<char>, entity: u64| #[trigger]
            path_entries(despawned@).contains((path, entity)) <==> at(entries, path) == Some(entity)
                && !wanted.contains(path) by {
            found_exactly(entries, path, entity);
            entries_are_kept_or_stale(entries, wanted, entries.len(), (path, entity));
        }
        assert forall|path: Seq<char>, entity: u64| #[trigger]
            path_entries(patched@).contains((path, entity)) <==> at(entries, path) == Some(entity)
                && wanted.contains(path) by {
            current_prims_are_patched_or_spawned(entries, wanted, wanted.len(), path, entity);
        }
        assert forall|path: Seq<char>| #[trigger] views(spawned@).contains(path) <==> at(
            entries,
            path,
        ) is None && wanted.contains(path) by {
            current_prims_are_patched_or_spawned(entries, wanted, wanted.len(), path, 0);
        }
    }
    ReconcilePlan { despawned, patched, spawned }
}

/// `entries` with the first `count` spawned prims mapped, one after the other.
pub open spec fn with_spawned(
    entries: Seq<(Seq<char>, u64)>,
    spawned: Seq<(Seq<char>, u64)>,
    count: nat,
) -> Seq<(Seq<char>, u64)>
    decreases count,
{
    if count == 0 {
        entries
    } else {
        linked(
            with_spawned(entries, spawned, (count - 1) as nat),
            spawned[count - 1].0,
            spawned[count - 1].1,
        )
    }
}

/// The entity of the last spawned prim at `path`, among the first `count`.
pub open spec fn last_spawned(
    spawned: Seq<(Seq<char>, u64)>,
    path: Seq<char>,
    count: nat,
) -> Option<u64>
    decreases count,
{
    if count == 0 {
        None
    } else if spawned[count - 1].0 == path {
        Some(spawned[count - 1].1)
    } else {
        last_spawned(spawned, path, (count - 1) as nat)
    }
}

/// Every spawned entity is new: no two are the same and none is mapped.
pub open spec fn newly_spawned(
    entries: Seq<(Seq<char>, u64)>,
    spawned: Seq<(Seq<char>, u64)>,
) -> bool {
    &&& unique(swapped(spawned))
    &&& forall|i: int|
        0 <= i < spawned.len() ==> at(swapped(entries), (#[trigger] spawned[i]).1) is None
}

/// The entity of `path` once the first `count` spawned prims are mapped.
pub open spec fn entity_after(
    entries: Seq<(Seq<char>, u64)>,
    spawned: Seq<(Seq<char>, u64)>,
    path: Seq<char>,
    count: nat,
) -> Option<u64> {
    match last_spawned(spawned, path, count) {
        Some(entity) => Some(entity),
        None => at(entries, path),
    }
}

/// The path of `entity` once all spawned prims are mapped: its own where it
/// was spawned last for that path, or the one it had where that path was not
/// spawned.
pub open spec fn path_after(
    entries: Seq<(Seq<char>, u64)>,
    spawned: Seq<(Seq<char>, u64)>,
    entity: u64,
) -> Option<Seq<char>> {
    match at(swapped(spawned), entity) {
        Some(path) => if last_spawned(spawned, path, spawned.len()) == Some(entity) {
            Some(path)
        } else {
            None
        },
        None => match at(swapped(entries), entity) {
            Some(path) => if last_spawned(spawned, path, spawned.len()) is None {
                Some(path)
            } else {
                None
            },
            None => None,
        },
    }
}

proof fn last_spawned_is_one(spawned: Seq<(Seq<char>, u64)>, path: Seq<char>, count: nat) -> (place:
    int)
    requires
        count <= spawned.len(),
        last_spawned(spawned, path, count) is Some,
    ensures
        0 <= place < count,
        spawned[place] == (path, last_spawned(spawned, path, count)->0),
    decreases count,
{
    if spawned[count - 1].0 == path {
        count - 1
    } else {
        last_spawned_is_one(spawned, path, (count - 1) as nat)
    }
}

/// Mapping newly spawned prims gives each path its last spawned entity, and
/// leaves every other path the one it had.
proof fn spawning_maps(
    entries: Seq<(Seq<char>, u64)>,
    spawned: Seq<(Seq<char>, u64)>,
    count: nat,
)
    requires
        one_to_one(entries),
        newly_spawned(entries, spawned),
        count <= spawned.len(),
    ensures
        one_to_one(with_spawned(entries, spawned, count)),
        forall|path: Seq<char>| #[trigger]
            at(with_spawned(entries, spawned, count), path) == entity_after(
                entries,
                spawned,
                path,
                count,
            ),
    decreases count,
{
    if count > 0 {
        let before = (count - 1) as nat;
        let rest = with_spawned(entries, spawned, before);
        let out = with_spawned(entries, spawned, count);
        let (key, value) = spawned[count - 1];
        spawning_maps(entries, spawned, before);
        linking_replaces(rest, key, value);
        assert forall|path: Seq<char>| #[trigger]
            at(out, path) == entity_after(entries, spawned, path, count) by {
            if path != key {
                assert(at(rest, path) == entity_after(entries, spawned, path, before));
                if at(rest, path) == Some(value) {
                    if last_spawned(spawned, path, before) is Some {
                        let k = last_spawned_is_one(spawned, path, before);
                        assert(swapped(spawned)[k].0 != swapped(spawned)[count - 1].0);
                    } else {
                        directions_agree(entries, path, value);
                        assert(at(swapped(entries), spawned[count - 1].1) is None);
                    }
                    assert(false);
                }
            }
        }
    }
}

proof fn spawning_maps_back(entries: Seq<(Seq<char>, u64)>, spawned: Seq<(Seq<char>, u64)>)
    requires
        one_to_one(entries),
        newly_spawned(entries, spawned),
    ensures
        forall|entity: u64| #[trigger]
            at(swapped(with_spawned(entries, spawned, spawned.len())), entity) == path_after(
                entries,
                spawned,
                entity,
            ),
{
    let out = with_spawned(entries, spawned, spawned.len());
    spawning_maps(entries, spawned, spawned.len());
    assert forall|entity: u64| #[trigger]
        at(swapped(out), entity) == path_after(entries, spawned, entity) by {
        if let Some(q) = at(swapped(spawned), entity) {
            found_exactly(swapped(spawned), entity, q);
            swapped_members(spawned, q, entity);
            let k = choose|k: int| 0 <= k < spawned.len() && spawned[k] == (q, entity);
            assert(at(swapped(entries), spawned[k].1) is None);
        }
        if let Some(p) = at(swapped(out), entity) {
            directions_agree(out, p, entity);
            assert(at(out, p) == entity_after(entries, spawned, p, spawned.len()));
            if last_spawned(spawned, p, spawned.len()) is Some {
                let k = last_spawned_is_one(spawned, p, spawned.len());
                assert(spawned.contains((p, entity)));
                found_exactly(swapped(spawned), entity, p);
                swapped_members(spawned, p, entity);
            } else {
                directions_agree(entries, p, entity);
            }
        }
        if let Some(p) = path_after(entries, spawned, entity) {
            if at(swapped(spawned), entity) is None {
                directions_agree(entries, p, entity);
            }
            assert(at(out, p) == entity_after(entries, spawned, p, spawned.len()));
            directions_agree(out, p, entity);
        }
    }
}

/// Maps each prim that the host spawned to the entity spawned for it. Where
/// the entities are new, a path has its last spawned entity, a path that was
/// not spawned keeps its entity, and the directions agree on both.
pub fn insert_spawned(map: &mut PrimEntities, spawned: &Vec<(String, u64)>)
    requires
        old(map).valid(),
    ensures
        final(map).valid(),
        final(map).consistent(),
        final(map).entries() == with_spawned(
            old(map).entries(),
            path_entries(spawned@),
            spawned@.len(),
        ),
        newly_spawned(old(map).entries(), path_entries(spawned@)) ==> forall|path: Seq<char>|
            #[trigger]
            final(map).entity_of(path) == (match last_spawned(
                path_entries(spawned@),
                path,
                spawned@.len(),
            ) {
                Some(entity) => Some(entity),
                None => old(map).entity_of(path),
            }),
        newly_spawned(old(map).entries(), path_entries(spawned@)) ==> forall|entity: u64|
            #[trigger]
            final(map).path_of(entity) == path_after(
                old(map).entries(),
                path_entries(spawned@),
                entity,
            ),
{
    let ghost entries = map.entries();
    let ghost list = path_entries(spawned@);
    for i in 0..spawned.len()
        invariant
            list == path_entries(spawned@),
            map.valid(),
            map.entries() == with_spawned(entries, list, i as nat),
    {
        assert(list[i as int] == (spawned@[i as int].0@, spawned@[i as int].1));
        map.insert(spawned[i].0.as_str(), spawned[i].1);
    }
    proof {
        directions_always_agree(*map);
        if newly_spawned(entries, list) {
            spawning_maps(entries, list, list.len());
            spawning_maps_back(entries, list);
        }
    }
}

proof fn new_prims_are_exactly_those(
    entries: Seq<(Seq<char>, u64)>,
    current: Seq<Seq<char>>,
    count: nat,
    path: Seq<char>,
)
    requires
        count <= current.len(),
    ensures
        new_prims(entries, current, count).contains(path) <==> at(entries, path) is None
            && current.take(count as int).contains(path),
    decreases count,
{
    if count > 0 {
        let before = (count - 1) as nat;
        new_prims_are_exactly_those(entries, current, before, path);
        let rest = new_prims(entries, current, before);
        let head = current.take(before as int);
        let item = current[count - 1];
        assert(current.take(count as int) =~= head.push(item));
        pushed_members(head, item, path);
        pushed_members(rest, item, path);
    } else {
        assert(!new_prims(entries, current, 0).contains(path));
        assert(!current.take(0).contains(path));
    }
}

proof fn new_prims_come_once(
    entries: Seq<(Seq<char>, u64)>,
    current: Seq<Seq<char>>,
    count: nat,
)
    requires
        count <= current.len(),
    ensures
        new_prims(entries, current, count).no_duplicates(),
    decreases count,
{
    if count > 0 {
        let before = (count - 1) as nat;
        let rest = new_prims(entries, current, before);
        let item = current[count - 1];
        new_prims_come_once(entries, current, before);
        new_prims_are_exactly_those(entries, current, before, item);
        if at(entries, item) is None && !current.take(before as int).contains(item) {
            let out = rest.push(item);
            assert forall|i: int, j: int|
                0 <= i < out.len() && 0 <= j < out.len() && i != j implies out[i] != out[j] by {
                if i == rest.len() {
                    assert(rest.contains(rest[j]));
                } else if j == rest.len() {
                    assert(rest.contains(rest[i]));
                }
            }
        }
    }
}

proof fn only_spawn_is_last(spawned: Seq<(Seq<char>, u64)>, place: int, count: nat)
    requires
        unique(spawned),
        0 <= place < count <= spawned.len(),
    ensures
        last_spawned(spawned, spawned[place].0, count) == Some(spawned[place].1),
    decreases count,
{
    if place < count - 1 {
        assert(spawned[place].0 != spawned[count - 1].0);
        only_spawn_is_last(spawned, place, (count - 1) as nat);
    }
}

/// After a resync the index holds one entity for each prim of the stage and
/// nothing else: prims that stayed keep their entities, and each new prim has
/// the entity that was spawned for it, in both directions.
pub proof fn resyncing_covers_the_stage(
    entries: Seq<(Seq<char>, u64)>,
    current: Seq<Seq<char>>,
    spawned: Seq<(Seq<char>, u64)>,
)
    requires
        one_to_one(entries),
        spawned.map_values(|e: (Seq<char>, u64)| e.0) == new_prims(
            entries,
            current,
            current.len(),
        ),
        newly_spawned(kept_entries(entries, current, entries.len()), spawned),
    ensures
        ({
            let kept = kept_entries(entries, current, entries.len());
            let after = with_spawned(kept, spawned, spawned.len());
            &&& one_to_one(after)
            &&& forall|path: Seq<char>| #[trigger] at(after, path) is Some <==> current.contains(path)
            &&& forall|path: Seq<char>|
                current.contains(path) && at(entries, path) is Some ==> #[trigger] at(after, path)
                    == at(entries, path)
            &&& forall|i: int|
                0 <= i < spawned.len() ==> at(after, (#[trigger] spawned[i]).0) == Some(
                    spawned[i].1,
                ) && at(swapped(after), spawned[i].1) == Some(spawned[i].0)
        }),
{
    let kept = kept_entries(entries, current, entries.len());
    let after = with_spawned(kept, spawned, spawned.len());
    let fresh = new_prims(entries, current, current.len());
    keeping_keeps_the_current(entries, current);
    spawning_maps(kept, spawned, spawned.len());
    new_prims_come_once(entries, current, current.len());
    assert(current.take(current.len() as int) =~= current);
    assert forall|i: int, j: int| 0 <= i < j < spawned.len() implies (#[trigger] spawned[i]).0 != (
    #[trigger] spawned[j]).0 by {
        assert(fresh[i] == spawned[i].0 && fresh[j] == spawned[j].0);
    }
    assert forall|path: Seq<char>|
        (#[trigger] at(after, path) is Some <==> current.contains(path)) && (current.contains(path)
            && at(entries, path) is Some ==> at(after, path) == at(entries, path)) by {
        new_prims_are_exactly_those(entries, current, current.len(), path);
        if last_spawned(spawned, path, spawned.len()) is Some {
            let k = last_spawned_is_one(spawned, path, spawned.len());
            assert(fresh[k] == path);
            assert(fresh.contains(path));
        }
        if fresh.contains(path) {
            let k = choose|k: int| 0 <= k < fresh.len() && fresh[k] == path;
            assert(spawned[k].0 == path);
            only_spawn_is_last(spawned, k, spawned.len());
        }
    }
    assert forall|i: int| 0 <= i < spawned.len() implies at(after, (#[trigger] spawned[i]).0)
        == Some(spawned[i].1) && at(swapped(after), spawned[i].1) == Some(spawned[i].0) by {
        only_spawn_is_last(spawned, i, spawned.len());
        directions_agree(after, spawned[i].0, spawned[i].1);
    }
}

/// The two properties that a transform is authored on: the matrix operation
/// and the operation order.
pub open spec fn transform_paths(prim: Seq<char>) -> Result<(Seq<char>, Seq<char>), Seq<char>> {
    match appended(prim, "xformOp:transform"@) {
        Err(e) => Err(e),
        Ok(matrix) => match appended(prim, "xformOpOrder"@) {
            Err(e) => Err(e),
            Ok(order) => Ok((matrix, order)),
        },
    }
}

/// The properties that a transform is authored on, as one matrix operation so
/// that reading it gives the same transform back.
pub fn author_transform(prim_path: &str) -> (r: Result<(String, String), String>)
    ensures
        match r {
            Ok(paths) => transform_paths(prim_path@) == Ok::<(Seq<char>, Seq<char>), Seq<char>>(
                (paths.0@, paths.1@),
            ),
            Err(e) => transform_paths(prim_path@) == Err::<(Seq<char>, Seq<char>), Seq<char>>(e@),
        },
{
    match append_property(prim_path, "xformOp:transform") {
        Err(e) => Err(e),
        Ok(matrix) => match append_property(prim_path, "xformOpOrder") {
            Err(e) => Err(e),
            Ok(order) => Ok((matrix, order)),
        },
    }
}

} // verus!
