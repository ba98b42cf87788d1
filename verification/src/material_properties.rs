//! Fixed-function render state that a material asks for.
use vstd::prelude::*;

use crate::gl;

verus! {

#[derive(Clone, Copy, Hash, PartialEq, Eq, Structural, Debug)]
pub enum CullMode {
    Disabled,
    Back,
    Front,
    Both,
}

#[derive(Clone, Copy, Hash, PartialEq, Eq, Structural, Debug)]
pub enum DepthTestMode {
    LessEqual,
    Equal,
    Less,
    Always,
}

#[derive(Clone, Copy, Hash, PartialEq, Eq, Structural, Debug)]
pub enum ShadowCasting {
    Disabled,
    Enabled,
}

#[derive(Clone, Copy, Hash, PartialEq, Eq, Structural, Debug)]
pub enum SurfaceType {
    Opaque,
    Transparent,
}

#[derive(Hash, PartialEq, Eq, Structural, Debug, Clone, Copy)]
pub struct MaterialProperties {
    pub cull_mode: CullMode,
    pub depth_test_mode: DepthTestMode,
    pub surface_type: SurfaceType,
    pub depth_writing_enabled: bool,
    pub shadow_casting: ShadowCasting,
}

/// The render state a material gets when nothing overrides it: back-face
/// culling, `LessEqual` depth test, depth writes on, opaque, no shadows.
pub open spec fn default_material_properties() -> MaterialProperties {
    MaterialProperties {
        cull_mode: CullMode::Back,
        depth_test_mode: DepthTestMode::LessEqual,
        surface_type: SurfaceType::Opaque,
        depth_writing_enabled: true,
        shadow_casting: ShadowCasting::Disabled,
    }
}

impl MaterialProperties {
    pub fn new(
        cull: CullMode,
        depth_test: DepthTestMode,
        depth_writing: bool,
        surface_type: SurfaceType,
        shadow_casting: ShadowCasting,
    ) -> (r: Self)
        ensures
            r.cull_mode == cull,
            r.depth_test_mode == depth_test,
            r.depth_writing_enabled == depth_writing,
            r.surface_type == surface_type,
            r.shadow_casting == shadow_casting,
    {
        Self {
            cull_mode: cull,
            depth_test_mode: depth_test,
            depth_writing_enabled: depth_writing,
            surface_type,
            shadow_casting,
        }
    }

    /// The default render state (see `default_material_properties`).
    pub fn default_properties() -> (r: Self)
        ensures
            r == default_material_properties(),
    {
        MaterialProperties::new(
            CullMode::Back,
            DepthTestMode::LessEqual,
            true,
            SurfaceType::Opaque,
            ShadowCasting::Disabled,
        )
    }
}

/// The OpenGL depth function that stands for a depth test mode.
pub open spec fn depth_test_gl(m: DepthTestMode) -> u32 {
    match m {
        DepthTestMode::LessEqual => gl::LEQUAL,
        DepthTestMode::Equal => gl::EQUAL,
        DepthTestMode::Less => gl::LESS,
        DepthTestMode::Always => gl::ALWAYS,
    }
}

/// The OpenGL face enumerant that stands for a cull mode (`0` when culling is off).
pub open spec fn cull_mode_gl(m: CullMode) -> u32 {
    match m {
        CullMode::Disabled => 0,
        CullMode::Back => gl::BACK,
        CullMode::Front => gl::FRONT,
        CullMode::Both => gl::FRONT_AND_BACK,
    }
}

impl DepthTestMode {
    pub fn to_gl_format(&self) -> (r: u32)
        ensures
            r == depth_test_gl(*self),
    {
        match self {
            DepthTestMode::LessEqual => gl::LEQUAL,
            DepthTestMode::Equal => gl::EQUAL,
            DepthTestMode::Less => gl::LESS,
            DepthTestMode::Always => gl::ALWAYS,
        }
    }
}

impl CullMode {
    pub fn to_gl_format(&self) -> (r: u32)
        ensures
            r == cull_mode_gl(*self),
    {
        match self {
            CullMode::Disabled => 0,
            CullMode::Back => gl::BACK,
            CullMode::Front => gl::FRONT,
            CullMode::Both => gl::FRONT_AND_BACK,
        }
    }
}

} // verus!
