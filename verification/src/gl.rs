//! OpenGL enumerant values used by the renderer.
use vstd::prelude::*;

verus! {

pub const UNSIGNED_BYTE: u32 = 0x1401;
pub const UNSIGNED_SHORT: u32 = 0x1403;
pub const UNSIGNED_INT: u32 = 0x1405;
pub const FLOAT: u32 = 0x1406;

pub const LESS: u32 = 0x0201;
pub const EQUAL: u32 = 0x0202;
pub const LEQUAL: u32 = 0x0203;
pub const ALWAYS: u32 = 0x0207;

pub const FRONT: u32 = 0x0404;
pub const BACK: u32 = 0x0405;
pub const FRONT_AND_BACK: u32 = 0x0408;

pub const SHADER_STORAGE_BUFFER: u32 = 0x90D2;
pub const UNIFORM_BUFFER: u32 = 0x8A11;
pub const ATOMIC_COUNTER_BUFFER: u32 = 0x92C0;
pub const TRANSFORM_FEEDBACK_BUFFER: u32 = 0x8C8E;

pub const STATIC_DRAW: u32 = 0x88E4;
pub const DYNAMIC_DRAW: u32 = 0x88E8;

pub const RED: u32 = 0x1903;
pub const RG: u32 = 0x8227;
pub const RGB: u32 = 0x1907;
pub const RGBA: u32 = 0x1908;

pub const R8: u32 = 0x8229;
pub const RG8: u32 = 0x822B;
pub const RGB8: u32 = 0x8051;
pub const RGBA8: u32 = 0x8058;
pub const SRGB8: u32 = 0x8C41;
pub const SRGB8_ALPHA8: u32 = 0x8C43;
pub const R16F: u32 = 0x822D;
pub const RG16F: u32 = 0x822F;
pub const RGB16F: u32 = 0x881B;
pub const RGBA16F: u32 = 0x881A;
pub const DEPTH_COMPONENT16: u32 = 0x81A5;
pub const DEPTH_COMPONENT24: u32 = 0x81A6;
pub const DEPTH_COMPONENT32: u32 = 0x81A7;
pub const DEPTH24_STENCIL8: u32 = 0x88F0;
pub const DEPTH32F_STENCIL8: u32 = 0x8CAD;

pub const NEAREST: u32 = 0x2600;
pub const LINEAR: u32 = 0x2601;
pub const LINEAR_MIPMAP_LINEAR: u32 = 0x2703;
pub const REPEAT: u32 = 0x2901;
pub const CLAMP_TO_EDGE: u32 = 0x812F;
pub const TEXTURE_MAX_ANISOTROPY_EXT: u32 = 0x84FE;

pub const COLOR_ATTACHMENT0: u32 = 0x8CE0;

} // verus!
