//! GPU buffer objects: the byte size that a buffer was allocated with.
use vstd::prelude::*;

use crate::gl;

verus! {

broadcast use vstd::layout::group_layout_axioms;

#[derive(Clone, Copy, PartialEq, Eq, Structural, Debug)]
pub enum BindingTarget {
    ShaderStorageBuffer,
    UniformBuffer,
    AtomicCounterBuffer,
    TransformFeedbackBuffer,
}

pub open spec fn binding_target_gl(t: BindingTarget) -> u32 {
    match t {
        BindingTarget::ShaderStorageBuffer => gl::SHADER_STORAGE_BUFFER,
        BindingTarget::UniformBuffer => gl::UNIFORM_BUFFER,
        BindingTarget::AtomicCounterBuffer => gl::ATOMIC_COUNTER_BUFFER,
        BindingTarget::TransformFeedbackBuffer => gl::TRANSFORM_FEEDBACK_BUFFER,
    }
}

impl BindingTarget {
    /// The OpenGL buffer target that this binding point belongs to.
    pub fn to_gl_format(&self) -> (r: u32)
        ensures
            r == binding_target_gl(*self),
    {
        match self {
            BindingTarget::ShaderStorageBuffer => gl::SHADER_STORAGE_BUFFER,
            BindingTarget::UniformBuffer => gl::UNIFORM_BUFFER,
            BindingTarget::AtomicCounterBuffer => gl::ATOMIC_COUNTER_BUFFER,
            BindingTarget::TransformFeedbackBuffer => gl::TRANSFORM_FEEDBACK_BUFFER,
        }
    }
}

#[derive(Clone, Copy, PartialEq, Eq, Structural, Debug)]
pub enum Usage {
    Static,
    Dynamic,
}

pub open spec fn usage_gl(u: Usage) -> u32 {
    match u {
        Usage::Static => gl::STATIC_DRAW,
        Usage::Dynamic => gl::DYNAMIC_DRAW,
    }
}

impl Usage {
    /// The OpenGL usage hint for this usage.
    pub fn to_gl_usage(&self) -> (r: u32)
        ensures
            r == usage_gl(*self),
    {
        match self {
            Usage::Static => gl::STATIC_DRAW,
            Usage::Dynamic => gl::DYNAMIC_DRAW,
        }
    }
}

/// A GPU buffer: its OpenGL name and the size of its storage in bytes.
pub struct GraphicsBuffer {
    id: u32,
    byte_size: usize,
}

impl GraphicsBuffer {
    pub closed spec fn spec_id(&self) -> u32 {
        self.id
    }

    pub closed spec fn spec_byte_size(&self) -> usize {
        self.byte_size
    }

    /// A buffer with the OpenGL name `id` and no storage yet.
    pub fn new(id: u32) -> (b: Self)
        ensures
            b.spec_id() == id,
            b.spec_byte_size() == 0,
    {
        Self { id, byte_size: 0 }
    }

    pub fn id(&self) -> (r: u32)
        ensures
            r == self.spec_id(),
    {
        self.id
    }

    pub fn byte_size(&self) -> (r: usize)
        ensures
            r == self.spec_byte_size(),
    {
        self.byte_size
    }

    /// Records a new storage that holds `slice`: its size is the slice's size
    /// in bytes. The caller hands the slice to the GPU with `usage`.
    pub fn allocate<T>(&mut self, slice: &[T], usage: Usage)
        ensures
            final(self).spec_byte_size() == slice@.len() * vstd::layout::size_of::<T>(),
            final(self).spec_id() == old(self).spec_id(),
    {
        self.byte_size = core::mem::size_of_val(slice);
    }

    /// The number of bytes that an upload of `slice` writes at the start of
    /// the storage, which it must fit in.
    pub fn upload_data<T>(&self, slice: &[T]) -> (data_size: usize)
        requires
            slice@.len() * vstd::layout::size_of::<T>() <= self.spec_byte_size(),
        ensures
            data_size == slice@.len() * vstd::layout::size_of::<T>(),
    {
        core::mem::size_of_val(slice)
    }
}

} // verus!
