use vstd::prelude::*;
use crate::host::{
    has_root, part_ids_of, new_root, resize_events, resized, resized_root, root_ids_distinct, spawn_events, spawned,
    ModuleHost,
};
use crate::module::{
    ModuleClass, ModulePart, ModuleWin, RenderSurface, ResizeModule, ResizeModuleInternal, SpawnModuleEvent,
    SpawnModuleInternalEvent, BOXHEIGHT, BOXWIDTH,
};
use crate::registry::{lemma_spawners_of_contains, spawners_distinct, spawners_of, SpawnerEntry};

verus! {

/// Builds the routed spawn event of each spawner in `spawners`, in order.
fn trigger_spawn(spawners: &Vec<u64>, class: ModuleClass, layer: u64, root: u64) -> (r: Vec<
    SpawnModuleInternalEvent,
>)
    ensures
        r@ == spawn_events(spawners@, class, layer, root),
{
    let mut r: Vec<SpawnModuleInternalEvent> = Vec::new();
    let mut i: usize = 0;
    while i < spawners.len()
        invariant
            i <= spawners@.len(),
            r@ == spawn_events(spawners@.subrange(0, i as int), class, layer, root),
        decreases spawners@.len() - i,
    {
        r.push(SpawnModuleInternalEvent { spawner: spawners[i], moduleclass: class, layer, root_id: root });
        i = i + 1;
        assert(r@ =~= spawn_events(spawners@.subrange(0, i as int), class, layer, root));
    }
    assert(spawners@.subrange(0, i as int) == spawners@);
    r
}

/// Builds the routed resize event of each spawner in `spawners`, in order.
fn trigger_resize(spawners: &Vec<u64>, root: u64, width: u32, height: u32) -> (r: Vec<
    ResizeModuleInternal,
>)
    ensures
        r@ == resize_events(spawners@, root, width, height),
{
    let mut r: Vec<ResizeModuleInternal> = Vec::new();
    let mut i: usize = 0;
    while i < spawners.len()
        invariant
            i <= spawners@.len(),
            r@ == resize_events(spawners@.subrange(0, i as int), root, width, height),
        decreases spawners@.len() - i,
    {
        r.push(ResizeModuleInternal { spawner: spawners[i], moduleroot: root, width, height });
        i = i + 1;
        assert(r@ =~= resize_events(spawners@.subrange(0, i as int), root, width, height));
    }
    assert(spawners@.subrange(0, i as int) == spawners@);
    r
}

/// Handles a public spawn request: allocates a root of the requested class
/// with the default size, its off-screen surface at the next depth slot, and
/// returns one routed spawn event for each spawner registered for the class,
/// all carrying the new root's id and its layer token. With no spawner the
/// root is still created and nothing is routed.
pub fn spawn_module_observer(host: &mut ModuleHost, spawn: &SpawnModuleEvent) -> (r: Vec<
    SpawnModuleInternalEvent,
>)
    requires
        old(host).wf(),
        old(host).can_allocate(),
    ensures
        final(host).wf(),
        spawned(*old(host), spawn.moduleclass, *final(host), r@),
{
    let class = spawn.moduleclass;
    let id = host.next_object;
    let layer = host.layer_counter.0;
    host.roots.push(
        ModuleWin {
            id,
            class,
            width: BOXWIDTH,
            height: BOXHEIGHT,
            layer,
            surface: RenderSurface { width: BOXWIDTH, height: BOXHEIGHT, depth_slot: layer },
        },
    );
    host.next_object = id + 1;
    host.layer_counter.0 = layer + 1;
    let spawners = host.spawnconfig.lookup(class);
    proof {
        let pre = *old(host);
        let rs = host.roots@;
        assert(rs == pre.roots@.push(new_root(id, class, layer)));
        assert forall|i: int, j: int|
            0 <= i < rs.len() && 0 <= j < rs.len() && #[trigger] rs[i].id == #[trigger] rs[j].id implies i
                == j by {
            if i < pre.roots@.len() {
                assert(rs[i] == pre.roots@[i]);
                assert(pre.roots@[i].id < id);
            }
            if j < pre.roots@.len() {
                assert(rs[j] == pre.roots@[j]);
                assert(pre.roots@[j].id < id);
            }
        }
        assert(root_ids_distinct(rs));
        assert forall|k: int| 0 <= k < rs.len() implies #[trigger] rs[k].id < host.next_object by {
            if k < pre.roots@.len() {
                assert(rs[k] == pre.roots@[k]);
            }
        }
        assert forall|p: int| 0 <= p < host.parts@.len() implies #[trigger] host.parts@[p].id
            < host.next_object && has_root(rs, host.parts@[p].root) by {
            assert(pre.parts@[p].id < pre.next_object);
            assert(has_root(pre.roots@, pre.parts@[p].root));
            let k = choose|k: int| 0 <= k < pre.roots@.len() && #[trigger] pre.roots@[k].id == pre.parts@[p].root;
            assert(rs[k] == pre.roots@[k]);
        }
        assert forall|e: int| 0 <= e < host.spawnconfig.observers@.len() implies #[trigger] host.spawnconfig.observers@[e].spawner
            < host.next_object by {
            assert(pre.spawnconfig.observers@[e].spawner < pre.next_object);
        }
    }
    trigger_spawn(&spawners, class, layer, id)
}

/// Handles a public resize request: a live root takes the new size (its
/// surface's resolution too) and each spawner registered for the root's class
/// gets one routed resize event. A request for a root that is not live is
/// dropped: nothing changes and nothing is routed.
pub fn resize_image_observer(host: &mut ModuleHost, resize: &ResizeModule) -> (r: Vec<ResizeModuleInternal>)
    requires
        old(host).wf(),
    ensures
        final(host).wf(),
        resized(*old(host), *resize, *final(host), r@),
{
    match host.find_root(resize.entity) {
        None => Vec::new(),
        Some(k) => {
            let w = host.roots[k];
            let nw = ModuleWin {
                width: resize.width,
                height: resize.height,
                surface: RenderSurface {
                    width: resize.width,
                    height: resize.height,
                    depth_slot: w.surface.depth_slot,
                },
                ..w
            };
            host.roots.set(k, nw);
            let spawners = host.spawnconfig.lookup(w.class);
            proof {
                let pre = *old(host);
                let rs = host.roots@;
                assert(rs == pre.roots@.update(k as int, resized_root(w, resize.width, resize.height)));
                assert forall|m: int| 0 <= m < rs.len() implies #[trigger] rs[m].id == pre.roots@[m].id by {}
                assert forall|i: int, j: int|
                    0 <= i < rs.len() && 0 <= j < rs.len() && #[trigger] rs[i].id == #[trigger] rs[j].id implies i
                        == j by {
                    assert(rs[i].id == pre.roots@[i].id);
                    assert(rs[j].id == pre.roots@[j].id);
                }
                assert forall|k2: int| 0 <= k2 < rs.len() implies #[trigger] rs[k2].id < host.next_object by {
                    assert(rs[k2].id == pre.roots@[k2].id);
                }
                assert forall|p: int| 0 <= p < host.parts@.len() implies #[trigger] host.parts@[p].id
                    < host.next_object && has_root(rs, host.parts@[p].root) by {
                    assert(pre.parts@[p].id < pre.next_object);
                    assert(has_root(pre.roots@, pre.parts@[p].root));
                    let m = choose|m: int|
                        0 <= m < pre.roots@.len() && #[trigger] pre.roots@[m].id == pre.parts@[p].root;
                    assert(rs[m].id == pre.roots@[m].id);
                }
                assert forall|k2: int|
                    0 <= k2 < pre.roots@.len() && #[trigger] pre.roots@[k2].id == resize.entity implies k2
                        == k by {}
            }
            trigger_resize(&spawners, resize.entity, resize.width, resize.height)
        },
    }
}

} // verus!

verus! {

proof fn lemma_spawners_of_no_duplicates(entries: Seq<SpawnerEntry>, class: ModuleClass)
    requires
        spawners_distinct(entries),
    ensures
        spawners_of(entries, class).no_duplicates(),
    decreases entries.len(),
{
    if entries.len() > 0 {
        let prev = entries.drop_last();
        assert(spawners_distinct(prev)) by {
            assert forall|i: int, j: int|
                0 <= i < prev.len() && 0 <= j < prev.len() && #[trigger] prev[i].spawner
                    == #[trigger] prev[j].spawner implies i == j by {
                assert(entries[i] == prev[i] && entries[j] == prev[j]);
            }
        }
        lemma_spawners_of_no_duplicates(prev, class);
        let last = entries.last();
        if last.class == class {
            let p = spawners_of(prev, class);
            if p.contains(last.spawner) {
                lemma_spawners_of_contains(prev, class, last.spawner);
                let i = choose|i: int|
                    0 <= i < prev.len() && #[trigger] prev[i] == (SpawnerEntry { class, spawner: last.spawner });
                assert(entries[i] == prev[i]);
                assert(entries[entries.len() - 1] == last);
            }
            let q = p.push(last.spawner);
            assert forall|i: int, j: int| 0 <= i < q.len() && 0 <= j < q.len() && i != j implies q[i] != q[j] by {
                if i < p.len() && j < p.len() {
                } else if i < p.len() {
                    assert(p.contains(p[i]));
                } else {
                    assert(p.contains(p[j]));
                }
            }
        }
    }
}

/// Spawning a class for which no spawner is registered creates exactly one
/// root, of that class, creates no part and routes no event.
pub proof fn lemma_spawn_unregistered(
    a: ModuleHost,
    class: ModuleClass,
    b: ModuleHost,
    events: Seq<SpawnModuleInternalEvent>,
)
    requires
        a.wf(),
        spawners_of(a.spawnconfig.observers@, class).len() == 0,
        spawned(a, class, b, events),
    ensures
        b.roots@.len() == a.roots@.len() + 1,
        b.roots@.drop_last() == a.roots@,
        b.roots@.last().class == class,
        b.parts@ == a.parts@,
        part_ids_of(b.parts@, b.roots@.last().id).len() == 0,
        events.len() == 0,
{
    assert(b.roots@.drop_last() == a.roots@);
    let id = b.roots@.last().id;
    let owned = b.parts@.filter(|p: ModulePart| p.root == id);
    if owned.len() > 0 {
        b.parts@.lemma_filter_pred(|p: ModulePart| p.root == id, 0);
        assert(owned.contains(owned[0]));
        b.parts@.lemma_filter_contains_rev(|p: ModulePart| p.root == id, owned[0]);
        let q = choose|q: int| 0 <= q < a.parts@.len() && a.parts@[q] == owned[0];
        assert(a.parts@[q].id < a.next_object);
        let k = choose|k: int| 0 <= k < a.roots@.len() && #[trigger] a.roots@[k].id == a.parts@[q].root;
        assert(a.roots@[k].id < a.next_object);
    }
}

/// Spawning a class with spawners routes exactly one event to each of them,
/// in registration order, every event carrying the id of the one new root.
pub proof fn lemma_spawn_fans_out(
    a: ModuleHost,
    class: ModuleClass,
    b: ModuleHost,
    events: Seq<SpawnModuleInternalEvent>,
)
    requires
        a.wf(),
        spawned(a, class, b, events),
    ensures
        ({
            let spawners = spawners_of(a.spawnconfig.observers@, class);
            &&& spawners.no_duplicates()
            &&& events.len() == spawners.len()
            &&& b.roots@.len() == a.roots@.len() + 1
            &&& forall|i: int|
                0 <= i < events.len() ==> #[trigger] events[i].spawner == spawners[i]
                    && events[i].root_id == b.roots@.last().id && events[i].moduleclass == class
            &&& forall|s: u64|
                spawners.contains(s) ==> exists|i: int|
                    0 <= i < events.len() && #[trigger] events[i].spawner == s && forall|j: int|
                        0 <= j < events.len() && #[trigger] events[j].spawner == s ==> j == i
        }),
{
    let spawners = spawners_of(a.spawnconfig.observers@, class);
    lemma_spawners_of_no_duplicates(a.spawnconfig.observers@, class);
    assert forall|s: u64| spawners.contains(s) implies exists|i: int|
        0 <= i < events.len() && #[trigger] events[i].spawner == s && forall|j: int|
            0 <= j < events.len() && #[trigger] events[j].spawner == s ==> j == i by {
        let i = choose|i: int| 0 <= i < spawners.len() && spawners[i] == s;
        assert(events[i].spawner == s);
    }
}

/// A resize request for a root that is not live changes nothing and routes
/// nothing.
pub proof fn lemma_resize_stale_is_noop(
    a: ModuleHost,
    req: ResizeModule,
    b: ModuleHost,
    events: Seq<ResizeModuleInternal>,
)
    requires
        !has_root(a.roots@, req.entity),
        resized(a, req, b, events),
    ensures
        b.roots@ == a.roots@,
        b.parts@ == a.parts@,
        b.spawnconfig.observers@ == a.spawnconfig.observers@,
        b.next_object == a.next_object,
        b.layer_counter == a.layer_counter,
        events.len() == 0,
{
}

/// Resize events go only to spawners of the resized root's own class: none
/// reaches a spawner registered for another class.
pub proof fn lemma_resize_isolated(
    a: ModuleHost,
    req: ResizeModule,
    b: ModuleHost,
    events: Seq<ResizeModuleInternal>,
    k: int,
    other: ModuleClass,
)
    requires
        a.wf(),
        0 <= k < a.roots@.len(),
        a.roots@[k].id == req.entity,
        other != a.roots@[k].class,
        resized(a, req, b, events),
    ensures
        forall|i: int|
            0 <= i < events.len() ==> spawners_of(a.spawnconfig.observers@, a.roots@[k].class).contains(
                #[trigger] events[i].spawner,
            ) && !spawners_of(a.spawnconfig.observers@, other).contains(events[i].spawner)
                && events[i].moduleroot == req.entity,
{
    let entries = a.spawnconfig.observers@;
    let own = a.roots@[k].class;
    assert(has_root(a.roots@, req.entity));
    assert forall|i: int| 0 <= i < events.len() implies spawners_of(entries, own).contains(
        #[trigger] events[i].spawner,
    ) && !spawners_of(entries, other).contains(events[i].spawner) && events[i].moduleroot == req.entity by {
        let s = events[i].spawner;
        assert(spawners_of(entries, own)[i] == s);
        assert(spawners_of(entries, own).contains(s));
        lemma_spawners_of_contains(entries, own, s);
        lemma_spawners_of_contains(entries, other, s);
        if spawners_of(entries, other).contains(s) {
            let x = choose|x: int| 0 <= x < entries.len() && #[trigger] entries[x] == (SpawnerEntry { class: own, spawner: s });
            let y = choose|y: int| 0 <= y < entries.len() && #[trigger] entries[y] == (SpawnerEntry { class: other, spawner: s });
            assert(entries[x].spawner == entries[y].spawner);
        }
    }
}

} // verus!

verus! {

/// Layer tokens strictly increase from one spawn to the next, so no two
/// spawned roots share one.
pub proof fn lemma_layer_tokens_increase(
    a: ModuleHost,
    first: ModuleClass,
    b: ModuleHost,
    e1: Seq<SpawnModuleInternalEvent>,
    second: ModuleClass,
    c: ModuleHost,
    e2: Seq<SpawnModuleInternalEvent>,
)
    requires
        spawned(a, first, b, e1),
        spawned(b, second, c, e2),
    ensures
        b.roots@.last().layer < c.roots@.last().layer,
        b.roots@.last().id < c.roots@.last().id,
        forall|i: int, j: int|
            0 <= i < e1.len() && 0 <= j < e2.len() ==> #[trigger] e1[i].layer < #[trigger] e2[j].layer,
{
}

} // verus!
