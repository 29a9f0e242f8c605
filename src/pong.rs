use vstd::prelude::*;
use crate::host::{has_root, nothing_spawned, part_spawned, ModuleHost};
use crate::module::{HDirection, ModuleClass, PartKind, SpawnModuleInternalEvent, VDirection};
use crate::registry::SpawnerEntry;

verus! {

/// The pong module: a ball bouncing inside the module's box.
pub struct PongModule;

/// The ball the pong module adds to a fresh root, heading right and up.
pub open spec fn pong_ball() -> PartKind {
    PartKind::PongBall { h: HDirection::Right, v: VDirection::Up }
}

/// What the pong module's spawn handler does with `ev`: a live root gets one
/// ball; a stale one nothing.
pub open spec fn pong_spawn(a: ModuleHost, ev: SpawnModuleInternalEvent, b: ModuleHost, r: Option<u64>) -> bool {
    if has_root(a.roots@, ev.root_id) {
        part_spawned(a, b, r, ev.root_id, pong_ball())
    } else {
        nothing_spawned(a, b, r)
    }
}

impl PongModule {
    /// Creates the pong module's spawner and registers it for `Pong`.
    pub fn build(&self, host: &mut ModuleHost) -> (r: u64)
        requires
            old(host).wf(),
            old(host).next_object < u64::MAX,
        ensures
            final(host).wf(),
            r == old(host).next_object,
            final(host).next_object == old(host).next_object + 1,
            final(host).spawnconfig.observers@ == old(host).spawnconfig.observers@.push(
                SpawnerEntry { class: ModuleClass::Pong, spawner: r },
            ),
            final(host).roots@ == old(host).roots@,
            final(host).parts@ == old(host).parts@,
            final(host).layer_counter == old(host).layer_counter,
    {
        host.add_spawner(ModuleClass::Pong)
    }
}

/// Spawn handler of the pong module: adds one ball owned by the event's root
/// when that root is live; otherwise changes nothing.
pub fn spawn_module(host: &mut ModuleHost, spawn: &SpawnModuleInternalEvent) -> (r: Option<u64>)
    requires
        old(host).wf(),
        old(host).next_object < u64::MAX,
    ensures
        final(host).wf(),
        pong_spawn(*old(host), *spawn, *final(host), r),
{
    if host.find_root(spawn.root_id).is_none() {
        return None;
    }
    Some(host.add_part(spawn.root_id, PartKind::PongBall { h: HDirection::Right, v: VDirection::Up }))
}

} // verus!
