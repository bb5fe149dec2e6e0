//! Projected-mesh cache: identical geometry resolves to one shared handle.
//!
//! Identical prototype prims would otherwise each add an identical mesh, and
//! projecting a prim again would mint a new handle each time. The cache keeps
//! handles by a hash of the content, and the mesh conversions that still run.

use crate::completion::{left_over, left_over_keeps_order, published, take_completed};
use crate::text::copy;
use std::collections::HashMap;
use vstd::prelude::*;

verus! {

/// Upper bound on the distinct meshes that are interned, and on the materials.
/// The tables hold strong handles, so they must be bounded; on overflow they
/// are cleared, and what is still used is interned again on its next
/// projection.
pub const MAX_INTERNED: usize = 8192;

/// How many finished conversions one frame publishes.
pub const MAX_COMPLETIONS_PER_FRAME: usize = 4;

/// A mesh conversion that still runs, and the entities that wait for it.
#[derive(Debug)]
pub struct PendingUsdMesh<K> {
    pub signature: u64,
    pub task: K,
    pub entities: Vec<u64>,
    pub label: String,
}

/// A running conversion, with its parts as sequences.
#[verifier::ext_equal]
pub struct PendingView<K> {
    pub signature: u64,
    pub task: K,
    pub entities: Seq<u64>,
    pub label: Seq<char>,
}

impl<K> View for PendingUsdMesh<K> {
    type V = PendingView<K>;

    open spec fn view(&self) -> PendingView<K> {
        PendingView {
            signature: self.signature,
            task: self.task,
            entities: self.entities@,
            label: self.label@,
        }
    }
}

/// The running conversions, with their parts as sequences.
pub open spec fn pending_views<K>(list: Seq<PendingUsdMesh<K>>) -> Seq<PendingView<K>> {
    list.map_values(|p: PendingUsdMesh<K>| p@)
}

/// Keeps projected meshes and materials by content hash. `H` is a mesh handle,
/// `M` a material handle and `K` a running task.
pub struct ProjectionCache<H, M, K> {
    meshes: HashMap<u64, H>,
    usd_meshes: HashMap<u64, H>,
    materials: HashMap<u64, M>,
    pending: Vec<PendingUsdMesh<K>>,
}

/// What a request for a mesh conversion leads to.
#[derive(Debug, Clone, Copy, PartialEq, Eq, Structural)]
pub enum MeshRequest {
    /// The converted mesh is at hand.
    Ready,
    /// The same geometry is being converted: the entity waits for it.
    Joined,
    /// Start a conversion off the frame.
    Spawn,
    /// Convert now.
    BakeNow,
}

/// No two conversions have the same geometry, and each has at least one entity
/// waiting, none of them twice.
pub open spec fn pending_valid<K>(pending: Seq<PendingView<K>>) -> bool {
    &&& forall|i: int, j: int|
        0 <= i < j < pending.len() ==> (#[trigger] pending[i]).signature != (
        #[trigger] pending[j]).signature
    &&& forall|i: int|
        0 <= i < pending.len() ==> (#[trigger] pending[i]).entities.len() > 0
            && pending[i].entities.no_duplicates()
}

/// Some conversion is for this geometry.
pub open spec fn converting<K>(pending: Seq<PendingView<K>>, signature: u64) -> bool {
    exists|i: int| 0 <= i < pending.len() && (#[trigger] pending[i]).signature == signature
}

/// `entities` with `entity` at the end, unless it is there.
pub open spec fn with_entity(entities: Seq<u64>, entity: u64) -> Seq<u64> {
    if entities.contains(entity) {
        entities
    } else {
        entities.push(entity)
    }
}

/// The conversions after `entity` joined those for `signature`.
pub open spec fn joined<K>(
    pending: Seq<PendingView<K>>,
    signature: u64,
    entity: u64,
) -> Seq<PendingView<K>> {
    pending.map_values(
        |p: PendingView<K>|
            if p.signature == signature {
                PendingView { entities: with_entity(p.entities, entity), ..p }
            } else {
                p
            },
    )
}

/// The newest request of an entity is for this geometry.
pub open spec fn asks_for(signature: u64, requests: Map<u64, u64>) -> spec_fn(u64) -> bool {
    |e: u64| requests.contains_key(e) && requests[e] == signature
}

/// The entities that still ask for this geometry.
pub open spec fn still_waiting(
    entities: Seq<u64>,
    signature: u64,
    requests: Map<u64, u64>,
) -> Seq<u64> {
    entities.filter(asks_for(signature, requests))
}

/// The conversions that some entity still waits for, each with the entities
/// that do.
pub open spec fn retained<K>(
    pending: Seq<PendingView<K>>,
    requests: Map<u64, u64>,
) -> Seq<PendingView<K>>
    decreases pending.len(),
{
    if pending.len() == 0 {
        Seq::empty()
    } else {
        let rest = retained(pending.drop_last(), requests);
        let last = pending.last();
        let waiting = still_waiting(last.entities, last.signature, requests);
        if waiting.len() == 0 {
            rest
        } else {
            rest.push(PendingView { entities: waiting, ..last })
        }
    }
}

/// A table that takes `handle` for `signature` after it was cleared where it
/// was full.
pub open spec fn interned<H>(table: Map<u64, H>, signature: u64, handle: H) -> Map<u64, H> {
    if table.len() >= MAX_INTERNED {
        Map::empty().insert(signature, handle)
    } else {
        table.insert(signature, handle)
    }
}

impl<H, M, K> ProjectionCache<H, M, K> {
    /// The built meshes by content hash.
    pub closed spec fn mesh_table(self) -> Map<u64, H> {
        self.meshes@
    }

    /// The converted USD meshes by input hash.
    pub closed spec fn usd_table(self) -> Map<u64, H> {
        self.usd_meshes@
    }

    /// The materials by content hash.
    pub closed spec fn material_table(self) -> Map<u64, M> {
        self.materials@
    }

    /// The conversions that still run.
    pub closed spec fn conversions(self) -> Seq<PendingView<K>> {
        pending_views(self.pending@)
    }

    /// The meshes and the materials are within their bound, and the running
    /// conversions are in order.
    pub open spec fn valid(self) -> bool {
        &&& self.mesh_table().dom().finite() && self.usd_table().dom().finite()
        &&& self.mesh_table().len() + self.usd_table().len() <= MAX_INTERNED
        &&& self.material_table().dom().finite() && self.material_table().len() <= MAX_INTERNED
        &&& pending_valid(self.conversions())
    }

    /// No further mesh can be interned.
    pub open spec fn full(self) -> bool {
        self.mesh_table().len() + self.usd_table().len() >= MAX_INTERNED
    }

    pub fn new() -> (r: Self)
        ensures
            r.mesh_table() == Map::<u64, H>::empty(),
            r.usd_table() == Map::<u64, H>::empty(),
            r.material_table() == Map::<u64, M>::empty(),
            r.conversions() == Seq::<PendingView<K>>::empty(),
            r.valid(),
    {
        let r = ProjectionCache {
            meshes: HashMap::new(),
            usd_meshes: HashMap::new(),
            materials: HashMap::new(),
            pending: Vec::new(),
        };
        assert(r.conversions() =~= Seq::<PendingView<K>>::empty());
        r
    }

    /// Number of meshes currently interned.
    pub fn len(&self) -> (r: usize)
        requires
            self.valid(),
        ensures
            r == self.mesh_table().len() + self.usd_table().len(),
            r <= MAX_INTERNED,
    {
        self.meshes.len() + self.usd_meshes.len()
    }

    /// Whether the cache holds no interned meshes.
    pub fn is_empty(&self) -> (r: bool)
        requires
            self.valid(),
        ensures
            r == (self.mesh_table().len() + self.usd_table().len() == 0),
    {
        self.meshes.len() == 0 && self.usd_meshes.len() == 0
    }

    /// The handle of a built mesh.
    pub fn mesh(&self, signature: u64) -> (r: Option<&H>)
        ensures
            match r {
                Some(h) => self.mesh_table().contains_key(signature) && *h
                    == self.mesh_table()[signature],
                None => !self.mesh_table().contains_key(signature),
            },
    {
        self.meshes.get(&signature)
    }

    /// The handle of a converted USD mesh.
    pub fn usd_mesh(&self, signature: u64) -> (r: Option<&H>)
        ensures
            match r {
                Some(h) => self.usd_table().contains_key(signature) && *h
                    == self.usd_table()[signature],
                None => !self.usd_table().contains_key(signature),
            },
    {
        self.usd_meshes.get(&signature)
    }

    /// The handle of a material.
    pub fn material(&self, signature: u64) -> (r: Option<&M>)
        ensures
            match r {
                Some(h) => self.material_table().contains_key(signature) && *h
                    == self.material_table()[signature],
                None => !self.material_table().contains_key(signature),
            },
    {
        self.materials.get(&signature)
    }

    /// Clears both mesh tables where together they are full.
    fn make_room(&mut self)
        requires
            old(self).valid(),
        ensures
            final(self).mesh_table() == (if old(self).full() {
                Map::empty()
            } else {
                old(self).mesh_table()
            }),
            final(self).usd_table() == (if old(self).full() {
                Map::empty()
            } else {
                old(self).usd_table()
            }),
            final(self).material_table() == old(self).material_table(),
            final(self).conversions() == old(self).conversions(),
            final(self).valid(),
            !final(self).full(),
    {
        if self.meshes.len() + self.usd_meshes.len() >= MAX_INTERNED {
            self.meshes.clear();
            self.usd_meshes.clear();
        }
    }

    /// Keeps the handle of a built mesh. Both mesh tables are cleared first
    /// where together they are full.
    pub fn intern_mesh(&mut self, signature: u64, handle: H)
        requires
            old(self).valid(),
        ensures
            final(self).mesh_table() == (if old(self).full() {
                Map::<u64, H>::empty().insert(signature, handle)
            } else {
                old(self).mesh_table().insert(signature, handle)
            }),
            final(self).usd_table() == (if old(self).full() {
                Map::<u64, H>::empty()
            } else {
                old(self).usd_table()
            }),
            final(self).material_table() == old(self).material_table(),
            final(self).conversions() == old(self).conversions(),
            final(self).valid(),
    {
        self.make_room();
        self.meshes.insert(signature, handle);
    }

    /// Keeps the handle of a material.
    pub fn intern_preview_material(&mut self, signature: u64, handle: M)
        requires
            old(self).valid(),
        ensures
            final(self).material_table() == interned(old(self).material_table(), signature, handle),
            final(self).mesh_table() == old(self).mesh_table(),
            final(self).usd_table() == old(self).usd_table(),
            final(self).conversions() == old(self).conversions(),
            final(self).valid(),
    {
        if self.materials.len() >= MAX_INTERNED {
            self.materials.clear();
        }
        self.materials.insert(signature, handle);
    }

    /// Keeps the handle of a converted USD mesh. Both mesh tables are cleared
    /// first where together they are full.
    pub fn add_usd_mesh(&mut self, signature: u64, handle: H)
        requires
            old(self).valid(),
        ensures
            final(self).mesh_table() == (if old(self).full() {
                Map::<u64, H>::empty()
            } else {
                old(self).mesh_table()
            }),
            final(self).usd_table() == (if old(self).full() {
                Map::<u64, H>::empty().insert(signature, handle)
            } else {
                old(self).usd_table().insert(signature, handle)
            }),
            final(self).material_table() == old(self).material_table(),
            final(self).conversions() == old(self).conversions(),
            final(self).valid(),
    {
        self.make_room();
        self.usd_meshes.insert(signature, handle);
    }

    /// Which conversion is for this geometry.
    fn position(&self, signature: u64) -> (r: Option<usize>)
        ensures
            match r {
                Some(i) => i < self.pending@.len() && self.conversions()[i as int].signature
                    == signature,
                None => !converting(self.conversions(), signature),
            },
    {
        for i in 0..self.pending.len()
            invariant
                forall|k: int|
                    0 <= k < i ==> (#[trigger] self.conversions()[k]).signature != signature,
        {
            assert(self.conversions()[i as int] == self.pending@[i as int]@);
            if self.pending[i].signature == signature {
                return Some(i);
            }
        }
        assert(self.conversions().len() == self.pending@.len());
        None
    }

    /// What a request of `entity` for the geometry `signature` leads to.
    /// `alive` tells that the mesh of the handle in the table, if there is one,
    /// still exists, `has_pool` that conversions can run off the frame.
    pub fn request_usd_mesh(
        &mut self,
        entity: u64,
        signature: u64,
        alive: bool,
        has_pool: bool,
    ) -> (r: MeshRequest)
        requires
            old(self).valid(),
        ensures
            r == (if old(self).usd_table().contains_key(signature) && alive {
                MeshRequest::Ready
            } else if !has_pool {
                MeshRequest::BakeNow
            } else if converting(old(self).conversions(), signature) {
                MeshRequest::Joined
            } else {
                MeshRequest::Spawn
            }),
            final(self).conversions() == (if r == MeshRequest::Joined {
                joined(old(self).conversions(), signature, entity)
            } else {
                old(self).conversions()
            }),
            final(self).mesh_table() == old(self).mesh_table(),
            final(self).usd_table() == old(self).usd_table(),
            final(self).material_table() == old(self).material_table(),
            final(self).valid(),
    {
        if self.usd_mesh(signature).is_some() && alive {
            return MeshRequest::Ready;
        }
        if !has_pool {
            return MeshRequest::BakeNow;
        }
        let ghost before = self.conversions();
        match self.position(signature) {
            None => MeshRequest::Spawn,
            Some(i) => {
                assert(before[i as int] == self.pending@[i as int]@);
                assert(converting(before, signature));
                let known = holds(&self.pending[i].entities, entity);
                if !known {
                    self.pending[i].entities.push(entity);
                }
                proof {
                    let after = self.conversions();
                    assert(after =~= joined(before, signature, entity)) by {
                        assert forall|q: int| 0 <= q < after.len() implies after[q] == joined(
                            before,
                            signature,
                            entity,
                        )[q] by {
                            assert(after[q] == self.pending@[q]@);
                            if q < i {
                                assert(before[q].signature != before[i as int].signature);
                            }
                            if i < q {
                                assert(before[i as int].signature != before[q].signature);
                            }
                        }
                    }
                    joining_keeps_order(before, signature, entity);
                }
                MeshRequest::Joined
            },
        }
    }

    /// Registers the conversion that a request asked to start.
    pub fn start_bake(&mut self, signature: u64, task: K, entity: u64, label: &str)
        requires
            old(self).valid(),
            !converting(old(self).conversions(), signature),
        ensures
            final(self).conversions() == old(self).conversions().push(
                (PendingView { signature, task, entities: seq![entity], label: label@ }),
            ),
            final(self).mesh_table() == old(self).mesh_table(),
            final(self).usd_table() == old(self).usd_table(),
            final(self).material_table() == old(self).material_table(),
            final(self).valid(),
    {
        let ghost before = self.conversions();
        let entities = vec![entity];
        assert(entities@ =~= seq![entity]);
        let entry = PendingUsdMesh { signature, task, entities, label: copy(label) };
        self.pending.push(entry);
        assert(self.conversions() =~= before.push(entry@));
    }

    /// Drops the waiting entities whose request is gone or for other geometry,
    /// and the conversions that nothing waits for.
    pub fn retain_live(&mut self, requests: &HashMap<u64, u64>)
        requires
            old(self).valid(),
        ensures
            final(self).conversions() == retained(old(self).conversions(), requests@),
            final(self).mesh_table() == old(self).mesh_table(),
            final(self).usd_table() == old(self).usd_table(),
            final(self).material_table() == old(self).material_table(),
            final(self).valid(),
    {
        let ghost all = self.conversions();
        let count: usize = self.pending.len();
        let mut kept: usize = 0;
        let mut seen: usize = 0;
        assert(all.take(0) =~= Seq::<PendingView<K>>::empty());
        assert(all.skip(0) =~= all);
        while seen < count
            invariant
                seen <= count,
                kept <= seen,
                count == all.len(),
                self.mesh_table() == old(self).mesh_table(),
                self.usd_table() == old(self).usd_table(),
                self.material_table() == old(self).material_table(),
                self.conversions().take(kept as int) == retained(all.take(seen as int), requests@),
                self.conversions().skip(kept as int) == all.skip(seen as int),
                self.conversions().len() == kept + count - seen,
            decreases count - seen,
        {
            let ghost now = self.conversions();
            assert(now.len() == self.pending@.len());
            assert(now[kept as int] == now.skip(kept as int)[0]);
            assert(now[kept as int] == all[seen as int]);
            assert(now[kept as int] == self.pending@[kept as int]@);
            let signature: u64 = self.pending[kept].signature;
            let waiting = waiting_entities(&self.pending[kept].entities, signature, requests);
            assert(all.take(seen as int + 1).drop_last() =~= all.take(seen as int));
            assert(all.take(seen as int + 1).last() == all[seen as int]);
            if waiting.len() == 0 {
                let _ = self.pending.remove(kept);
                assert(self.conversions() =~= now.remove(kept as int));
                assert(self.conversions().take(kept as int) =~= now.take(kept as int));
                assert(self.conversions().skip(kept as int) =~= all.skip(seen as int + 1)) by {
                    assert(now.remove(kept as int).skip(kept as int) =~= now.skip(
                        kept as int,
                    ).skip(1));
                    assert(all.skip(seen as int).skip(1) =~= all.skip(seen as int + 1));
                }
            } else {
                self.pending[kept].entities = waiting;
                let ghost entry = PendingView { entities: waiting@, ..now[kept as int] };
                assert(self.conversions() =~= now.update(kept as int, entry));
                assert(self.conversions().take(kept as int + 1) =~= now.take(kept as int).push(
                    entry,
                ));
                assert(self.conversions().skip(kept as int + 1) =~= all.skip(seen as int + 1)) by {
                    assert(now.update(kept as int, entry).skip(kept as int + 1) =~= now.skip(
                        kept as int,
                    ).skip(1));
                    assert(all.skip(seen as int).skip(1) =~= all.skip(seen as int + 1));
                }
                kept = kept + 1;
            }
            seen = seen + 1;
        }
        assert(all.take(count as int) =~= all);
        assert(self.conversions().take(kept as int) =~= self.conversions());
        proof {
            retaining_keeps_order(all, requests@);
        }
    }

    /// Number of conversions that still run.
    pub fn running(&self) -> (r: usize)
        ensures
            r == self.conversions().len(),
    {
        self.pending.len()
    }

    /// The running conversion at `index`.
    pub fn conversion(&self, index: usize) -> (r: &PendingUsdMesh<K>)
        requires
            index < self.conversions().len(),
        ensures
            r@ == self.conversions()[index as int],
    {
        &self.pending[index]
    }

    /// Takes out the conversions that this frame publishes; the others keep
    /// their order. `done` tells of each running conversion whether it has
    /// finished.
    pub fn take_completed(&mut self, done: &Vec<bool>) -> (r: Vec<PendingUsdMesh<K>>)
        requires
            old(self).valid(),
            done@.len() == old(self).conversions().len(),
        ensures
            pending_views(r@) == published(
                old(self).conversions(),
                done@,
                MAX_COMPLETIONS_PER_FRAME as nat,
                done@.len(),
            ),
            final(self).conversions() == left_over(
                old(self).conversions(),
                done@,
                MAX_COMPLETIONS_PER_FRAME as nat,
                done@.len(),
            ),
            final(self).mesh_table() == old(self).mesh_table(),
            final(self).usd_table() == old(self).usd_table(),
            final(self).material_table() == old(self).material_table(),
            final(self).valid(),
    {
        let ghost before = self.pending@;
        let ghost all = self.conversions();
        let ghost budget = MAX_COMPLETIONS_PER_FRAME as nat;
        let r = take_completed(&mut self.pending, done, MAX_COMPLETIONS_PER_FRAME);
        proof {
            views_are_published(before, done@, budget, done@.len());
            let place = left_over_keeps_order(all, done@, budget, done@.len());
            let now = self.conversions();
            assert(now == left_over(all, done@, budget, done@.len()));
            assert forall|i: int, j: int| 0 <= i < j < now.len() implies (#[trigger] now[i]).signature
                != (#[trigger] now[j]).signature by {
                assert(place[i] < place[j]);
                assert(all[place[i]].signature != all[place[j]].signature);
            }
            assert forall|i: int| 0 <= i < now.len() implies (#[trigger] now[i]).entities.len() > 0
                && now[i].entities.no_duplicates() by {
                assert(all[place[i]].entities.len() > 0);
            }
        }
        r
    }
}

/// Publishing conversions and viewing them can be done in either order.
proof fn views_are_published<K>(
    list: Seq<PendingUsdMesh<K>>,
    done: Seq<bool>,
    budget: nat,
    count: nat,
)
    requires
        count <= list.len(),
        list.len() == done.len(),
    ensures
        pending_views(published(list, done, budget, count)) == published(
            pending_views(list),
            done,
            budget,
            count,
        ),
        pending_views(left_over(list, done, budget, count)) == left_over(
            pending_views(list),
            done,
            budget,
            count,
        ),
    decreases count,
{
    if count == 0 {
        assert(pending_views(Seq::<PendingUsdMesh<K>>::empty()) =~= Seq::<PendingView<K>>::empty());
    } else {
        let before = (count - 1) as nat;
        views_are_published(list, done, budget, before);
        let item = list[count - 1];
        let p = published(list, done, budget, before);
        let l = left_over(list, done, budget, before);
        assert(pending_views(p.push(item)) =~= pending_views(p).push(item@));
        assert(pending_views(l.push(item)) =~= pending_views(l).push(item@));
        assert(pending_views(p).len() == p.len());
    }
}

fn holds(list: &Vec<u64>, item: u64) -> (r: bool)
    ensures
        r == list@.contains(item),
{
    for k in 0..list.len()
        invariant
            forall|q: int| 0 <= q < k ==> list@[q] != item,
    {
        if list[k] == item {
            return true;
        }
    }
    false
}

/// The entities that still ask for this geometry, in order. Only these take a
/// finished conversion.
pub fn waiting_entities(entities: &Vec<u64>, signature: u64, requests: &HashMap<u64, u64>) -> (r:
    Vec<u64>)
    ensures
        r@ == still_waiting(entities@, signature, requests@),
{
    let ghost wanted = asks_for(signature, requests@);
    let mut out: Vec<u64> = Vec::new();
    assert(entities@.take(0).filter(wanted) =~= Seq::<u64>::empty()) by {
        reveal(Seq::filter);
    }
    for i in 0..entities.len()
        invariant
            wanted == asks_for(signature, requests@),
            out@ == entities@.take(i as int).filter(wanted),
    {
        let entity: u64 = entities[i];
        assert(entities@.take(i as int + 1) =~= entities@.take(i as int).push(entity));
        proof {
            entities@.take(i as int).lemma_filter_push(entity, wanted);
        }
        match requests.get(&entity) {
            Some(asked) => {
                if *asked == signature {
                    out.push(entity);
                }
            },
            None => {},
        }
    }
    assert(entities@.take(entities@.len() as int) =~= entities@);
    out
}

/// Joining a running conversion starts no second one: the conversions stay as
/// many and as distinct as they were, and afterwards the entity waits for the
/// geometry it asked for.
pub proof fn joining_keeps_order<K>(pending: Seq<PendingView<K>>, signature: u64, entity: u64)
    requires
        pending_valid(pending),
        converting(pending, signature),
    ensures
        joined(pending, signature, entity).len() == pending.len(),
        pending_valid(joined(pending, signature, entity)),
        exists|i: int|
            0 <= i < pending.len() && (#[trigger] joined(pending, signature, entity)[i]).signature
                == signature && joined(pending, signature, entity)[i].entities.contains(entity),
{
    let after = joined(pending, signature, entity);
    assert forall|i: int, j: int| 0 <= i < j < after.len() implies (#[trigger] after[i]).signature
        != (#[trigger] after[j]).signature by {
        assert(pending[i].signature != pending[j].signature);
    }
    assert forall|i: int| 0 <= i < after.len() implies (#[trigger] after[i]).entities.len() > 0
        && after[i].entities.no_duplicates() by {
        assert(pending[i].entities.no_duplicates());
    }
    let i = choose|i: int| 0 <= i < pending.len() && (#[trigger] pending[i]).signature == signature;
    assert(after[i].signature == signature);
    assert(after[i].entities.contains(entity)) by {
        if !pending[i].entities.contains(entity) {
            assert(after[i].entities[pending[i].entities.len() as int] == entity);
        }
    }
}

proof fn filtering_keeps_distinct(entities: Seq<u64>, wanted: spec_fn(u64) -> bool)
    requires
        entities.no_duplicates(),
    ensures
        entities.filter(wanted).no_duplicates(),
        forall|e: u64| #[trigger] entities.filter(wanted).contains(e) ==> entities.contains(e)
            && wanted(e),
    decreases entities.len(),
{
    reveal(Seq::filter);
    if entities.len() > 0 {
        let front = entities.drop_last();
        filtering_keeps_distinct(front, wanted);
        let inner = front.filter(wanted);
        let out = entities.filter(wanted);
        assert forall|e: u64| #[trigger] out.contains(e) implies entities.contains(e) && wanted(
            e,
        ) by {
            let k = choose|k: int| 0 <= k < out.len() && out[k] == e;
            if k < inner.len() {
                assert(inner.contains(e));
                let q = choose|q: int| 0 <= q < front.len() && front[q] == e;
                assert(entities[q] == e);
            } else {
                assert(entities[entities.len() - 1] == e);
            }
        }
        assert forall|i: int, j: int| 0 <= i < out.len() && 0 <= j < out.len() && i != j implies out[i]
            != out[j] by {
            if i == inner.len() || j == inner.len() {
                let k = if i == inner.len() {
                    j
                } else {
                    i
                };
                assert(inner.contains(inner[k]));
                let q = choose|q: int| 0 <= q < front.len() && front[q] == inner[k];
                assert(entities[q] == inner[k]);
            }
        }
    }
}

/// A finished conversion reaches only entities whose newest request is for
/// that geometry: one that asked for other geometry since, or asks no more,
/// never takes a stale result.
pub proof fn stale_results_attach_nowhere(
    entities: Seq<u64>,
    signature: u64,
    requests: Map<u64, u64>,
    entity: u64,
)
    requires
        entities.no_duplicates(),
        still_waiting(entities, signature, requests).contains(entity),
    ensures
        entities.contains(entity),
        requests.contains_key(entity),
        requests[entity] == signature,
{
    filtering_keeps_distinct(entities, asks_for(signature, requests));
}

/// Dropping dead requests leaves distinct conversions that something waits
/// for, and adds none.
pub proof fn retaining_keeps_order<K>(pending: Seq<PendingView<K>>, requests: Map<u64, u64>)
    requires
        pending_valid(pending),
    ensures
        pending_valid(retained(pending, requests)),
        retained(pending, requests).len() <= pending.len(),
        forall|i: int|
            0 <= i < retained(pending, requests).len() ==> converting(
                pending,
                (#[trigger] retained(pending, requests)[i]).signature,
            ),
    decreases pending.len(),
{
    if pending.len() > 0 {
        let front = pending.drop_last();
        let last = pending.last();
        assert(pending_valid(front)) by {
            assert forall|i: int, j: int| 0 <= i < j < front.len() implies (
            #[trigger] front[i]).signature != (#[trigger] front[j]).signature by {
                assert(pending[i].signature != pending[j].signature);
            }
            assert forall|i: int| 0 <= i < front.len() implies (#[trigger] front[i]).entities.len()
                > 0 && front[i].entities.no_duplicates() by {
                assert(pending[i].entities.len() > 0);
            }
        }
        retaining_keeps_order(front, requests);
        let inner = retained(front, requests);
        let out = retained(pending, requests);
        assert(pending[pending.len() - 1].entities.no_duplicates());
        filtering_keeps_distinct(last.entities, asks_for(last.signature, requests));
        assert forall|i: int| 0 <= i < inner.len() implies converting(
            pending,
            (#[trigger] inner[i]).signature,
        ) && inner[i].signature != last.signature by {
            assert(converting(front, inner[i].signature));
            let q = choose|q: int|
                0 <= q < front.len() && (#[trigger] front[q]).signature == inner[i].signature;
            assert(pending[q].signature == inner[i].signature);
            assert(pending[q].signature != pending[pending.len() - 1].signature);
        }
        assert forall|i: int| 0 <= i < out.len() implies converting(
            pending,
            (#[trigger] out[i]).signature,
        ) by {
            if i < inner.len() {
                assert(out[i] == inner[i]);
            } else {
                assert(pending[pending.len() - 1].signature == out[i].signature);
            }
        }
        assert forall|i: int, j: int| 0 <= i < j < out.len() implies (#[trigger] out[i]).signature
            != (#[trigger] out[j]).signature by {
            assert(out[i] == inner[i]);
            if j < inner.len() {
                assert(out[j] == inner[j]);
            }
        }
    }
}

} // verus!
