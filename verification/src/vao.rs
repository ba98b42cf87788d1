//! Vertex array objects: which vertex size their vertex buffer binding uses.
use vstd::prelude::*;

use crate::buffer::GraphicsBuffer;
use crate::vertex::VertexLayout;

verus! {

pub struct VAO {
    id: u32,
    vertex_size_bytes: usize,
}

impl VAO {
    pub closed spec fn spec_id(&self) -> u32 {
        self.id
    }

    pub closed spec fn spec_vertex_size_bytes(&self) -> usize {
        self.vertex_size_bytes
    }

    /// A vertex array with the OpenGL name `id` and no vertex buffer yet.
    pub fn new(id: u32) -> (v: Self)
        ensures
            v.spec_id() == id,
            v.spec_vertex_size_bytes() == 0,
    {
        Self { id, vertex_size_bytes: 0 }
    }

    pub fn id(&self) -> (r: u32)
        ensures
            r == self.spec_id(),
    {
        self.id
    }

    pub fn vertex_size_bytes(&self) -> (r: usize)
        ensures
            r == self.spec_vertex_size_bytes(),
    {
        self.vertex_size_bytes
    }

    /// Records that vertices of `vertex_layout` come from the bound vertex
    /// buffer; the caller binds the buffer and describes each attribute of the
    /// layout to the GPU.
    pub fn set_vertex_buffer(&mut self, vertex_layout: &VertexLayout)
        ensures
            final(self).spec_vertex_size_bytes() == vertex_layout.spec_vertex_byte_size(),
            final(self).spec_id() == old(self).spec_id(),
    {
        self.vertex_size_bytes = vertex_layout.vertex_byte_size();
    }

    /// Whether the vertex buffer holds a whole number of vertices.
    pub fn holds_whole_vertices(&self, vertex_buffer: &GraphicsBuffer) -> (b: bool)
        ensures
            b == (self.spec_vertex_size_bytes() > 0 && vertex_buffer.spec_byte_size()
                % self.spec_vertex_size_bytes() == 0),
    {
        self.vertex_size_bytes > 0 && vertex_buffer.byte_size() % self.vertex_size_bytes == 0
    }
}

} // verus!
