use vstd::prelude::*;
use crate::host::{has_root, nothing_spawned, part_spawned, same_but_parts, ModuleHost};
use crate::module::{
    ModuleClass, ModulePart, NoiseMaterial, PartKind, ResizeModuleInternal, SpawnModuleInternalEvent,
    BOXHEIGHT, BOXWIDTH,
};
use crate::registry::SpawnerEntry;

verus! {

/// Initial animation speed of the noise material, in thousandths.
pub const NOISE_SPEED_MILLI: u32 = 1000;

/// The noise module: one full-screen quad showing the noise material.
pub struct NoiseModule;

/// The part the noise module adds to a fresh root: a quad of the default box
/// size whose material mirrors that size.
pub open spec fn noise_surface() -> PartKind {
    PartKind::NoiseSurface {
        scale_w: BOXWIDTH,
        scale_h: BOXHEIGHT,
        material: NoiseMaterial { width: BOXWIDTH, height: BOXHEIGHT, speed_milli: NOISE_SPEED_MILLI },
    }
}

/// What the noise module's spawn handler does with `ev`: a `Noise` event for a
/// live root gets one noise quad owned by that root; any other event nothing.
pub open spec fn noise_spawn(a: ModuleHost, ev: SpawnModuleInternalEvent, b: ModuleHost, r: Option<u64>) -> bool {
    if ev.moduleclass == ModuleClass::Noise && has_root(a.roots@, ev.root_id) {
        part_spawned(a, b, r, ev.root_id, noise_surface())
    } else {
        nothing_spawned(a, b, r)
    }
}

/// A part after the noise module handled `ev`: a noise quad of the resized
/// root takes the new size as scale and as material uniforms; any other part
/// is left as it is.
pub open spec fn resize_noise_part(p: ModulePart, ev: ResizeModuleInternal) -> ModulePart {
    if p.root == ev.moduleroot {
        match p.kind {
            PartKind::NoiseSurface { material, .. } => ModulePart {
                kind: PartKind::NoiseSurface {
                    scale_w: ev.width,
                    scale_h: ev.height,
                    material: NoiseMaterial { width: ev.width, height: ev.height, ..material },
                },
                ..p
            },
            _ => p,
        }
    } else {
        p
    }
}

impl NoiseModule {
    /// Creates the noise module's spawner and registers it for `Noise`.
    pub fn build(&self, host: &mut ModuleHost) -> (r: u64)
        requires
            old(host).wf(),
            old(host).next_object < u64::MAX,
        ensures
            final(host).wf(),
            r == old(host).next_object,
            final(host).next_object == old(host).next_object + 1,
            final(host).spawnconfig.observers@ == old(host).spawnconfig.observers@.push(
                SpawnerEntry { class: ModuleClass::Noise, spawner: r },
            ),
            final(host).roots@ == old(host).roots@,
            final(host).parts@ == old(host).parts@,
            final(host).layer_counter == old(host).layer_counter,
    {
        host.add_spawner(ModuleClass::Noise)
    }
}

/// Spawn handler of the noise module: for a `Noise` event whose root is live,
/// adds one noise quad owned by that root; any other event changes nothing.
pub fn spawn_noise_module(host: &mut ModuleHost, spawn: &SpawnModuleInternalEvent) -> (r: Option<u64>)
    requires
        old(host).wf(),
        old(host).next_object < u64::MAX,
    ensures
        final(host).wf(),
        noise_spawn(*old(host), *spawn, *final(host), r),
{
    if spawn.moduleclass != ModuleClass::Noise {
        return None;
    }
    if host.find_root(spawn.root_id).is_none() {
        return None;
    }
    let material = NoiseMaterial { width: BOXWIDTH, height: BOXHEIGHT, speed_milli: NOISE_SPEED_MILLI };
    let kind = PartKind::NoiseSurface { scale_w: BOXWIDTH, scale_h: BOXHEIGHT, material };
    Some(host.add_part(spawn.root_id, kind))
}

/// Resize handler of the noise module: every noise quad owned by the resized
/// root takes the new size as its scale and as its material's width and
/// height; parts of other kinds or of other roots are skipped.
pub fn resize_surface(host: &mut ModuleHost, resize: &ResizeModuleInternal)
    requires
        old(host).wf(),
    ensures
        final(host).wf(),
        same_but_parts(*old(host), *final(host)),
        final(host).parts@ == old(host).parts@.map_values(|p: ModulePart| resize_noise_part(p, *resize)),
{
    let ghost pre = *host;
    let mut i: usize = 0;
    while i < host.parts.len()
        invariant
            i <= host.parts@.len(),
            host.parts@.len() == pre.parts@.len(),
            same_but_parts(pre, *host),
            forall|j: int| 0 <= j < i ==> #[trigger] host.parts@[j] == resize_noise_part(pre.parts@[j], *resize),
            forall|j: int| i <= j < host.parts@.len() ==> #[trigger] host.parts@[j] == pre.parts@[j],
        decreases host.parts@.len() - i,
    {
        let p = host.parts[i];
        if p.root == resize.moduleroot {
            match p.kind {
                PartKind::NoiseSurface { material, .. } => {
                    let m = NoiseMaterial { width: resize.width, height: resize.height, ..material };
                    let kind = PartKind::NoiseSurface { scale_w: resize.width, scale_h: resize.height, material: m };
                    host.parts.set(i, ModulePart { kind, ..p });
                },
                PartKind::PongBall { .. } => {},
            }
        }
        i = i + 1;
    }
    assert(host.parts@ =~= pre.parts@.map_values(|p: ModulePart| resize_noise_part(p, *resize)));
    assert forall|p: int| 0 <= p < host.parts@.len() implies #[trigger] host.parts@[p].id < host.next_object
        && has_root(host.roots@, host.parts@[p].root) by {
        assert(pre.parts@[p].id < pre.next_object);
    }
}

} // verus!
