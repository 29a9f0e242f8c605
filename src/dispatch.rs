use vstd::prelude::*;
use crate::host::{nothing_spawned, same_but_parts, ModuleHost};
use crate::module::{ModuleClass, ModulePart, ResizeModuleInternal, SpawnModuleInternalEvent};
use crate::noise::{noise_spawn, resize_noise_part, resize_surface, spawn_noise_module, NoiseModule};
use crate::pong::{pong_spawn, spawn_module, PongModule};
use crate::registry::{class_of_spawner, SpawnerEntry};

verus! {

/// The module host with the noise and pong modules registered.
pub struct ModulePlugin;

impl ModulePlugin {
    /// A fresh host, its layer counter at one, with the noise module's
    /// spawner (id 1) and then the pong module's (id 2) registered.
    pub fn build(&self) -> (r: ModuleHost)
        ensures
            r.wf(),
            r.layer_counter.0 == 1,
            r.next_object == 3,
            r.roots@.len() == 0,
            r.parts@.len() == 0,
            r.spawnconfig.observers@ == seq![
                SpawnerEntry { class: ModuleClass::Noise, spawner: 1 },
                SpawnerEntry { class: ModuleClass::Pong, spawner: 2 },
            ],
    {
        let mut host = ModuleHost::new();
        NoiseModule.build(&mut host);
        PongModule.build(&mut host);
        assert(host.spawnconfig.observers@ =~= seq![
            SpawnerEntry { class: ModuleClass::Noise, spawner: 1 },
            SpawnerEntry { class: ModuleClass::Pong, spawner: 2 },
        ]);
        host
    }
}

/// Delivers a routed spawn event to the handler of the spawner it is
/// addressed to: the spawner's registered class picks the module; an
/// unregistered spawner has no handler and nothing happens.
pub fn deliver_spawn(host: &mut ModuleHost, ev: &SpawnModuleInternalEvent) -> (r: Option<u64>)
    requires
        old(host).wf(),
        old(host).next_object < u64::MAX,
    ensures
        final(host).wf(),
        match class_of_spawner(old(host).spawnconfig.observers@, ev.spawner) {
            Some(ModuleClass::Noise) => noise_spawn(*old(host), *ev, *final(host), r),
            Some(ModuleClass::Pong) => pong_spawn(*old(host), *ev, *final(host), r),
            None => nothing_spawned(*old(host), *final(host), r),
        },
{
    match host.spawnconfig.class_of(ev.spawner) {
        Some(ModuleClass::Noise) => spawn_noise_module(host, ev),
        Some(ModuleClass::Pong) => spawn_module(host, ev),
        None => None,
    }
}

/// Delivers a routed resize event to the handler of the spawner it is
/// addressed to. Only the noise module handles resizes; for any other
/// spawner nothing changes.
pub fn deliver_resize(host: &mut ModuleHost, ev: &ResizeModuleInternal)
    requires
        old(host).wf(),
    ensures
        final(host).wf(),
        same_but_parts(*old(host), *final(host)),
        class_of_spawner(old(host).spawnconfig.observers@, ev.spawner) == Some(ModuleClass::Noise)
            ==> final(host).parts@ == old(host).parts@.map_values(|p: ModulePart| resize_noise_part(p, *ev)),
        class_of_spawner(old(host).spawnconfig.observers@, ev.spawner) != Some(ModuleClass::Noise)
            ==> final(host).parts@ == old(host).parts@,
{
    match host.spawnconfig.class_of(ev.spawner) {
        Some(ModuleClass::Noise) => resize_surface(host, ev),
        _ => {},
    }
}

} // verus!
