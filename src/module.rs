use vstd::prelude::*;

verus! {

/// Width, in pixels, of a freshly spawned module window.
pub const BOXWIDTH: u32 = 400;

/// Height, in pixels, of a freshly spawned module window.
pub const BOXHEIGHT: u32 = 300;

/// The tag that connects a module implementation to the brokers.
#[derive(Clone, Copy, PartialEq, Eq, Structural, Debug, Hash)]
pub enum ModuleClass {
    Pong,
    Noise,
}

/// Public request: spawn a module instance of the given class.
#[derive(Clone, Copy, PartialEq, Eq, Structural, Debug)]
pub struct SpawnModuleEvent {
    pub moduleclass: ModuleClass,
}

/// Routed spawn event, addressed to one registered spawner.
#[derive(Clone, Copy, PartialEq, Eq, Structural, Debug)]
pub struct SpawnModuleInternalEvent {
    pub spawner: u64,
    pub moduleclass: ModuleClass,
    pub layer: u64,
    pub root_id: u64,
}

impl SpawnModuleInternalEvent {
    pub fn get_module_class(&self) -> (r: ModuleClass)
        ensures
            r == self.moduleclass,
    {
        self.moduleclass
    }
}

/// Public request: resize the module instance `entity` to `width` x `height`.
#[derive(Clone, Copy, PartialEq, Eq, Structural, Debug)]
pub struct ResizeModule {
    pub entity: u64,
    pub width: u32,
    pub height: u32,
}

/// Routed resize event, addressed to one registered spawner.
#[derive(Clone, Copy, PartialEq, Eq, Structural, Debug)]
pub struct ResizeModuleInternal {
    pub spawner: u64,
    pub moduleroot: u64,
    pub width: u32,
    pub height: u32,
}

/// The render-layer counter; each spawned root takes the current value.
#[derive(Clone, Copy, PartialEq, Eq, Structural, Debug)]
pub struct ModuleLayerCounter(pub u64);

/// The off-screen surface a module root renders into, shown as a sprite at a
/// depth slot of the host scene.
#[derive(Clone, Copy, PartialEq, Eq, Structural, Debug)]
pub struct RenderSurface {
    pub width: u32,
    pub height: u32,
    pub depth_slot: u64,
}

/// One live module instance.
#[derive(Clone, Copy, PartialEq, Eq, Structural, Debug)]
pub struct ModuleWin {
    pub id: u64,
    pub class: ModuleClass,
    pub width: u32,
    pub height: u32,
    pub layer: u64,
    pub surface: RenderSurface,
}

/// Uniforms of the full-screen noise material.
#[derive(Clone, Copy, PartialEq, Eq, Structural, Debug)]
pub struct NoiseMaterial {
    pub width: u32,
    pub height: u32,
    /// Animation speed, in thousandths.
    pub speed_milli: u32,
}

/// Horizontal direction of the pong ball.
#[derive(Clone, Copy, PartialEq, Eq, Structural, Debug)]
pub enum HDirection {
    Left,
    Right,
}

/// Vertical direction of the pong ball.
#[derive(Clone, Copy, PartialEq, Eq, Structural, Debug)]
pub enum VDirection {
    Up,
    Down,
}

/// What a part of a module is.
#[derive(Clone, Copy, PartialEq, Eq, Structural, Debug)]
pub enum PartKind {
    /// A quad scaled to `scale_w` x `scale_h` showing the noise material.
    NoiseSurface { scale_w: u32, scale_h: u32, material: NoiseMaterial },
    /// The ball of the pong module.
    PongBall { h: HDirection, v: VDirection },
}

/// A visual part owned by exactly one root (`root`).
#[derive(Clone, Copy, PartialEq, Eq, Structural, Debug)]
pub struct ModulePart {
    pub id: u64,
    pub root: u64,
    pub kind: PartKind,
}

} // verus!
