use vstd::prelude::*;
use crate::module::{
    ModuleClass, ModuleLayerCounter, ModulePart, ModuleWin, PartKind, RenderSurface, ResizeModule,
    ResizeModuleInternal, SpawnModuleInternalEvent, BOXHEIGHT, BOXWIDTH,
};
use crate::registry::{spawners_distinct, spawners_of, ModuleSpawnerConfig, SpawnerEntry};

verus! {

broadcast use vstd::seq_lib::group_filter_ensures;

/// Whether a root with id `id` is live.
pub open spec fn has_root(roots: Seq<ModuleWin>, id: u64) -> bool {
    exists|k: int| 0 <= k < roots.len() && #[trigger] roots[k].id == id
}

/// The roots that remain after destroying root `id`.
pub open spec fn roots_without(roots: Seq<ModuleWin>, id: u64) -> Seq<ModuleWin> {
    roots.filter(|r: ModuleWin| r.id != id)
}

/// The parts that remain after destroying root `id`: those owned by it go.
pub open spec fn parts_without(parts: Seq<ModulePart>, id: u64) -> Seq<ModulePart> {
    parts.filter(|p: ModulePart| p.root != id)
}

/// The ids of the parts owned by root `id`, in creation order.
pub open spec fn part_ids_of(parts: Seq<ModulePart>, id: u64) -> Seq<u64> {
    parts.filter(|p: ModulePart| p.root == id).map_values(|p: ModulePart| p.id)
}

/// Root ids are pairwise distinct.
pub open spec fn root_ids_distinct(roots: Seq<ModuleWin>) -> bool {
    forall|i: int, j: int|
        0 <= i < roots.len() && 0 <= j < roots.len() && #[trigger] roots[i].id == #[trigger] roots[j].id
            ==> i == j
}

/// A freshly spawned root of `class`: default box size, its surface of the
/// same size at depth slot `layer`.
pub open spec fn new_root(id: u64, class: ModuleClass, layer: u64) -> ModuleWin {
    ModuleWin {
        id,
        class,
        width: BOXWIDTH,
        height: BOXHEIGHT,
        layer,
        surface: RenderSurface { width: BOXWIDTH, height: BOXHEIGHT, depth_slot: layer },
    }
}

/// A root after a resize to `width` x `height`: its size and the resolution
/// of its surface follow.
pub open spec fn resized_root(r: ModuleWin, width: u32, height: u32) -> ModuleWin {
    ModuleWin {
        width,
        height,
        surface: RenderSurface { width, height, depth_slot: r.surface.depth_slot },
        ..r
    }
}

/// One routed spawn event per spawner, in order, all for the same root.
pub open spec fn spawn_events(spawners: Seq<u64>, class: ModuleClass, layer: u64, root: u64) -> Seq<
    SpawnModuleInternalEvent,
> {
    Seq::new(
        spawners.len(),
        |i: int| SpawnModuleInternalEvent { spawner: spawners[i], moduleclass: class, layer, root_id: root },
    )
}

/// One routed resize event per spawner, in order, all for the same root.
pub open spec fn resize_events(spawners: Seq<u64>, root: u64, width: u32, height: u32) -> Seq<
    ResizeModuleInternal,
> {
    Seq::new(
        spawners.len(),
        |i: int| ResizeModuleInternal { spawner: spawners[i], moduleroot: root, width, height },
    )
}

/// The parts owned by one root, by id.
#[derive(Clone, Debug, PartialEq, Eq)]
pub struct ModuleWithParts(pub Vec<u64>);

/// The roots, parts, registry and counters of the module host.
pub struct ModuleHost {
    pub next_object: u64,
    pub layer_counter: ModuleLayerCounter,
    pub spawnconfig: ModuleSpawnerConfig,
    pub roots: Vec<ModuleWin>,
    pub parts: Vec<ModulePart>,
}

/// `b` holds the same registry, counters and parts as `a`.
pub open spec fn same_but_roots(a: ModuleHost, b: ModuleHost) -> bool {
    &&& b.next_object == a.next_object
    &&& b.layer_counter == a.layer_counter
    &&& b.spawnconfig.observers@ == a.spawnconfig.observers@
    &&& b.parts@ == a.parts@
}

/// `b` holds the same registry, counters and roots as `a`.
pub open spec fn same_but_parts(a: ModuleHost, b: ModuleHost) -> bool {
    &&& b.next_object == a.next_object
    &&& b.layer_counter == a.layer_counter
    &&& b.spawnconfig.observers@ == a.spawnconfig.observers@
    &&& b.roots@ == a.roots@
}

/// A spawn handler added the part `kind`, owned by `root`, under the next id.
pub open spec fn part_spawned(a: ModuleHost, b: ModuleHost, r: Option<u64>, root: u64, kind: PartKind) -> bool {
    &&& r == Some(a.next_object)
    &&& b.next_object == a.next_object + 1
    &&& b.parts@ == a.parts@.push(ModulePart { id: a.next_object, root, kind })
    &&& b.roots@ == a.roots@
    &&& b.layer_counter == a.layer_counter
    &&& b.spawnconfig.observers@ == a.spawnconfig.observers@
}

/// A handler left the host as it was.
pub open spec fn nothing_spawned(a: ModuleHost, b: ModuleHost, r: Option<u64>) -> bool {
    &&& r == None::<u64>
    &&& b.next_object == a.next_object
    &&& b.parts@ == a.parts@
    &&& b.roots@ == a.roots@
    &&& b.layer_counter == a.layer_counter
    &&& b.spawnconfig.observers@ == a.spawnconfig.observers@
}

/// What a spawn request of `class` does: one new root, no parts, one routed
/// event for each spawner of `class`.
pub open spec fn spawned(
    a: ModuleHost,
    class: ModuleClass,
    b: ModuleHost,
    events: Seq<SpawnModuleInternalEvent>,
) -> bool {
    &&& b.roots@ == a.roots@.push(new_root(a.next_object, class, a.layer_counter.0))
    &&& b.parts@ == a.parts@
    &&& b.spawnconfig.observers@ == a.spawnconfig.observers@
    &&& b.next_object == a.next_object + 1
    &&& b.layer_counter.0 == a.layer_counter.0 + 1
    &&& events == spawn_events(
        spawners_of(a.spawnconfig.observers@, class),
        class,
        a.layer_counter.0,
        a.next_object,
    )
}

/// What a resize request does: a live root takes the new size and the
/// spawners of its class get one routed event each; a stale id changes
/// nothing and routes nothing.
pub open spec fn resized(a: ModuleHost, req: ResizeModule, b: ModuleHost, events: Seq<ResizeModuleInternal>) -> bool {
    if has_root(a.roots@, req.entity) {
        &&& b.next_object == a.next_object
        &&& b.layer_counter == a.layer_counter
        &&& b.spawnconfig.observers@ == a.spawnconfig.observers@
        &&& b.parts@ == a.parts@
        &&& forall|k: int|
            0 <= k < a.roots@.len() && #[trigger] a.roots@[k].id == req.entity ==> {
                &&& b.roots@ == a.roots@.update(k, resized_root(a.roots@[k], req.width, req.height))
                &&& events == resize_events(
                    spawners_of(a.spawnconfig.observers@, a.roots@[k].class),
                    req.entity,
                    req.width,
                    req.height,
                )
            }
    } else {
        &&& same_but_roots(a, b)
        &&& b.roots@ == a.roots@
        &&& events.len() == 0
    }
}

/// What destroying root `id` does: the root and every part it owns go, in one step.
pub open spec fn destroyed(a: ModuleHost, id: u64, b: ModuleHost) -> bool {
    &&& b.roots@ == roots_without(a.roots@, id)
    &&& b.parts@ == parts_without(a.parts@, id)
    &&& b.next_object == a.next_object
    &&& b.layer_counter == a.layer_counter
    &&& b.spawnconfig.observers@ == a.spawnconfig.observers@
}

proof fn lemma_roots_without_distinct(roots: Seq<ModuleWin>, id: u64)
    requires
        root_ids_distinct(roots),
    ensures
        root_ids_distinct(roots_without(roots, id)),
    decreases roots.len(),
{
    if roots.len() > 0 {
        let prev = roots.drop_last();
        assert(root_ids_distinct(prev)) by {
            assert forall|i: int, j: int|
                0 <= i < prev.len() && 0 <= j < prev.len() && #[trigger] prev[i].id == #[trigger] prev[j].id
                    implies i == j by {
                assert(roots[i] == prev[i] && roots[j] == prev[j]);
            }
        }
        lemma_roots_without_distinct(prev, id);
        let f = roots_without(prev, id);
        let last = roots.last();
        reveal(Seq::filter);
        if last.id != id {
            assert forall|i: int| 0 <= i < f.len() implies #[trigger] f[i].id != last.id by {
                assert(f.contains(f[i]));
                prev.lemma_filter_contains_rev(|r: ModuleWin| r.id != id, f[i]);
                let j = choose|j: int| 0 <= j < prev.len() && prev[j] == f[i];
                assert(roots[j] == prev[j]);
                assert(roots[roots.len() - 1] == last);
            }
            let g = roots_without(roots, id);
            assert(g == f.push(last));
            assert forall|i: int, j: int|
                0 <= i < g.len() && 0 <= j < g.len() && #[trigger] g[i].id == #[trigger] g[j].id
                    implies i == j by {
                if i < f.len() && j < f.len() {
                    assert(g[i] == f[i] && g[j] == f[j]);
                } else if i < f.len() {
                    assert(g[i] == f[i]);
                } else if j < f.len() {
                    assert(g[j] == f[j]);
                }
            }
        }
    }
}

impl ModuleHost {
    /// Ids are below the allocator, roots are unique, every part belongs to a
    /// live root and every spawner is registered once.
    pub open spec fn wf(&self) -> bool {
        &&& forall|k: int| 0 <= k < self.roots@.len() ==> #[trigger] self.roots@[k].id < self.next_object
        &&& root_ids_distinct(self.roots@)
        &&& forall|p: int|
            0 <= p < self.parts@.len() ==> #[trigger] self.parts@[p].id < self.next_object
                && has_root(self.roots@, self.parts@[p].root)
        &&& forall|e: int|
            0 <= e < self.spawnconfig.observers@.len()
                ==> #[trigger] self.spawnconfig.observers@[e].spawner < self.next_object
        &&& spawners_distinct(self.spawnconfig.observers@)
    }

    /// Room for one more object and one more layer.
    pub open spec fn can_allocate(&self) -> bool {
        &&& self.next_object < u64::MAX
        &&& self.layer_counter.0 < u64::MAX
    }

    /// An empty host: no roots, no parts, no spawners; the layer counter at one.
    pub fn new() -> (r: ModuleHost)
        ensures
            r.wf(),
            r.next_object == 1,
            r.layer_counter.0 == 1,
            r.roots@.len() == 0,
            r.parts@.len() == 0,
            r.spawnconfig.observers@.len() == 0,
    {
        ModuleHost {
            next_object: 1,
            layer_counter: ModuleLayerCounter(1),
            spawnconfig: ModuleSpawnerConfig::new(),
            roots: Vec::new(),
            parts: Vec::new(),
        }
    }

    /// Whether [`Self::can_allocate`] holds.
    pub fn has_room(&self) -> (r: bool)
        ensures
            r == self.can_allocate(),
    {
        self.next_object < u64::MAX && self.layer_counter.0 < u64::MAX
    }

    /// Creates a spawner object for `class` and registers it.
    pub fn add_spawner(&mut self, class: ModuleClass) -> (r: u64)
        requires
            old(self).wf(),
            old(self).next_object < u64::MAX,
        ensures
            final(self).wf(),
            r == old(self).next_object,
            final(self).next_object == old(self).next_object + 1,
            final(self).spawnconfig.observers@ == old(self).spawnconfig.observers@.push(
                SpawnerEntry { class, spawner: r },
            ),
            final(self).roots@ == old(self).roots@,
            final(self).parts@ == old(self).parts@,
            final(self).layer_counter == old(self).layer_counter,
    {
        let id = self.next_object;
        self.next_object = id + 1;
        self.spawnconfig.register(class, id);
        proof {
            let es = self.spawnconfig.observers@;
            assert forall|i: int, j: int|
                0 <= i < es.len() && 0 <= j < es.len() && #[trigger] es[i].spawner == #[trigger] es[j].spawner
                    implies i == j by {
                let olds = old(self).spawnconfig.observers@;
                if i < olds.len() {
                    assert(es[i] == olds[i]);
                }
                if j < olds.len() {
                    assert(es[j] == olds[j]);
                }
            }
        }
        id
    }

    /// The index of the live root `id`, if there is one.
    pub fn find_root(&self, id: u64) -> (r: Option<usize>)
        ensures
            match r {
                Some(k) => k < self.roots@.len() && self.roots@[k as int].id == id,
                None => !has_root(self.roots@, id),
            },
    {
        let mut k: usize = 0;
        while k < self.roots.len()
            invariant
                k <= self.roots@.len(),
                forall|j: int| 0 <= j < k ==> #[trigger] self.roots@[j].id != id,
            decreases self.roots@.len() - k,
        {
            if self.roots[k].id == id {
                return Some(k);
            }
            k = k + 1;
        }
        None
    }

    /// The parts owned by root `root`, in creation order.
    pub fn module_with_parts(&self, root: u64) -> (r: ModuleWithParts)
        ensures
            r.0@ == part_ids_of(self.parts@, root),
    {
        let mut ids: Vec<u64> = Vec::new();
        let mut i: usize = 0;
        while i < self.parts.len()
            invariant
                i <= self.parts@.len(),
                ids@ == part_ids_of(self.parts@.subrange(0, i as int), root),
            decreases self.parts@.len() - i,
        {
            let p = self.parts[i];
            proof {
                reveal(Seq::filter);
                assert(self.parts@.subrange(0, i + 1).drop_last() == self.parts@.subrange(0, i as int));
            }
            let ghost before = self.parts@.subrange(0, i as int).filter(|q: ModulePart| q.root == root);
            if p.root == root {
                ids.push(p.id);
                assert(ids@ =~= before.push(p).map_values(|q: ModulePart| q.id));
            }
            i = i + 1;
        }
        assert(self.parts@.subrange(0, i as int) == self.parts@);
        ModuleWithParts(ids)
    }

    /// Adds a part of kind `kind` owned by the live root `root`.
    pub fn add_part(&mut self, root: u64, kind: PartKind) -> (r: u64)
        requires
            old(self).wf(),
            old(self).next_object < u64::MAX,
            has_root(old(self).roots@, root),
        ensures
            final(self).wf(),
            r == old(self).next_object,
            final(self).next_object == old(self).next_object + 1,
            final(self).parts@ == old(self).parts@.push(ModulePart { id: r, root, kind }),
            final(self).roots@ == old(self).roots@,
            final(self).layer_counter == old(self).layer_counter,
            final(self).spawnconfig.observers@ == old(self).spawnconfig.observers@,
    {
        let id = self.next_object;
        self.next_object = id + 1;
        self.parts.push(ModulePart { id, root, kind });
        proof {
            assert forall|p: int| 0 <= p < self.parts@.len() implies #[trigger] self.parts@[p].id
                < self.next_object && has_root(self.roots@, self.parts@[p].root) by {
                if p < old(self).parts@.len() {
                    assert(self.parts@[p] == old(self).parts@[p]);
                }
            }
        }
        id
    }

    /// Destroys root `id` together with every part it owns; returns whether
    /// the root was live.
    pub fn destroy_root(&mut self, id: u64) -> (r: bool)
        requires
            old(self).wf(),
        ensures
            final(self).wf(),
            r == has_root(old(self).roots@, id),
            destroyed(*old(self), id, *final(self)),
    {
        let ghost pre = *self;
        let found = self.find_root(id).is_some();
        let mut roots: Vec<ModuleWin> = Vec::new();
        let mut i: usize = 0;
        while i < self.roots.len()
            invariant
                i <= self.roots@.len(),
                self.roots@ == pre.roots@,
                roots@ == roots_without(self.roots@.subrange(0, i as int), id),
            decreases self.roots@.len() - i,
        {
            let w = self.roots[i];
            proof {
                reveal(Seq::filter);
                assert(self.roots@.subrange(0, i + 1).drop_last() == self.roots@.subrange(0, i as int));
            }
            if w.id != id {
                roots.push(w);
            }
            i = i + 1;
        }
        assert(self.roots@.subrange(0, i as int) == self.roots@);
        let mut parts: Vec<ModulePart> = Vec::new();
        let mut j: usize = 0;
        while j < self.parts.len()
            invariant
                j <= self.parts@.len(),
                self.parts@ == pre.parts@,
                parts@ == parts_without(self.parts@.subrange(0, j as int), id),
            decreases self.parts@.len() - j,
        {
            let p = self.parts[j];
            proof {
                reveal(Seq::filter);
                assert(self.parts@.subrange(0, j + 1).drop_last() == self.parts@.subrange(0, j as int));
            }
            if p.root != id {
                parts.push(p);
            }
            j = j + 1;
        }
        assert(self.parts@.subrange(0, j as int) == self.parts@);
        self.roots = roots;
        self.parts = parts;
        proof {
            lemma_destroy_keeps_wf(pre, id, *self);
        }
        found
    }

    /// Despawns every root and part; the registry and the counters survive.
    pub fn teardown(&mut self)
        requires
            old(self).wf(),
        ensures
            final(self).wf(),
            final(self).roots@.len() == 0,
            final(self).parts@.len() == 0,
            final(self).next_object == old(self).next_object,
            final(self).layer_counter == old(self).layer_counter,
            final(self).spawnconfig.observers@ == old(self).spawnconfig.observers@,
    {
        self.roots = Vec::new();
        self.parts = Vec::new();
    }
}

proof fn lemma_destroy_keeps_wf(a: ModuleHost, id: u64, b: ModuleHost)
    requires
        a.wf(),
        destroyed(a, id, b),
    ensures
        b.wf(),
{
    lemma_roots_without_distinct(a.roots@, id);
    assert forall|k: int| 0 <= k < b.roots@.len() implies #[trigger] b.roots@[k].id < b.next_object by {
        assert(b.roots@.contains(b.roots@[k]));
        a.roots@.lemma_filter_contains_rev(|r: ModuleWin| r.id != id, b.roots@[k]);
    }
    assert forall|p: int| 0 <= p < b.parts@.len() implies #[trigger] b.parts@[p].id < b.next_object
        && has_root(b.roots@, b.parts@[p].root) by {
        let part = b.parts@[p];
        assert(b.parts@.contains(part));
        a.parts@.lemma_filter_contains_rev(|q: ModulePart| q.root != id, part);
        let q = choose|q: int| 0 <= q < a.parts@.len() && a.parts@[q] == part;
        assert(a.parts@[q].id < a.next_object);
        assert(has_root(a.roots@, a.parts@[q].root));
        let k = choose|k: int| 0 <= k < a.roots@.len() && #[trigger] a.roots@[k].id == part.root;
        assert(part.root != id);
        assert(b.roots@.contains(a.roots@[k]));
        let m = choose|m: int| 0 <= m < b.roots@.len() && b.roots@[m] == a.roots@[k];
        assert(b.roots@[m].id == part.root);
    }
}

} // verus!

verus! {

/// Destroying a root cascades to its parts in the same step: afterwards the
/// root is gone, no part refers to it, every part of another root is kept,
/// and every remaining part still belongs to a live root.
pub proof fn lemma_destroy_cascades(a: ModuleHost, id: u64, b: ModuleHost)
    requires
        a.wf(),
        destroyed(a, id, b),
    ensures
        !has_root(b.roots@, id),
        forall|p: int| 0 <= p < b.parts@.len() ==> #[trigger] b.parts@[p].root != id,
        forall|p: int|
            0 <= p < a.parts@.len() && #[trigger] a.parts@[p].root != id ==> b.parts@.contains(a.parts@[p]),
        b.wf(),
{
    lemma_destroy_keeps_wf(a, id, b);
    assert forall|p: int| 0 <= p < a.parts@.len() && #[trigger] a.parts@[p].root != id implies b.parts@.contains(
        a.parts@[p],
    ) by {
        a.parts@.lemma_filter_contains(|q: ModulePart| q.root != id, p);
    }
    assert forall|p: int| 0 <= p < b.parts@.len() implies #[trigger] b.parts@[p].root != id by {
        a.parts@.lemma_filter_pred(|q: ModulePart| q.root != id, p);
    }
    if has_root(b.roots@, id) {
        let k = choose|k: int| 0 <= k < b.roots@.len() && #[trigger] b.roots@[k].id == id;
        a.roots@.lemma_filter_pred(|r: ModuleWin| r.id != id, k);
    }
}

} // verus!
