//! Meshes: a vertex buffer, an index buffer and the vertex array that reads them.
use vstd::prelude::*;

use crate::buffer::{GraphicsBuffer, Usage};
use crate::gl;
use crate::vao::VAO;
use crate::vertex::VertexLayout;

verus! {

broadcast use vstd::layout::group_layout_axioms;

#[derive(Copy, Clone, PartialEq, Eq, Structural, Debug)]
pub enum IndexFormat {
    U32,
    U16,
    U8,
}

pub open spec fn index_format_size(f: IndexFormat) -> nat {
    match f {
        IndexFormat::U32 => 4,
        IndexFormat::U16 => 2,
        IndexFormat::U8 => 1,
    }
}

pub open spec fn index_format_gl(f: IndexFormat) -> u32 {
    match f {
        IndexFormat::U32 => gl::UNSIGNED_INT,
        IndexFormat::U16 => gl::UNSIGNED_SHORT,
        IndexFormat::U8 => gl::UNSIGNED_BYTE,
    }
}

/// The integer types that an index buffer can hold.
pub trait IndexFormatDataType: Sized {
    spec fn spec_format() -> IndexFormat;

    fn format() -> (f: IndexFormat)
        ensures
            f == Self::spec_format(),
    ;

    proof fn lemma_format_size()
        ensures
            index_format_size(Self::spec_format()) == vstd::layout::size_of::<Self>(),
    ;
}

impl IndexFormatDataType for u8 {
    open spec fn spec_format() -> IndexFormat {
        IndexFormat::U8
    }

    fn format() -> (f: IndexFormat) {
        IndexFormat::U8
    }

    proof fn lemma_format_size() {
    }
}

impl IndexFormatDataType for u16 {
    open spec fn spec_format() -> IndexFormat {
        IndexFormat::U16
    }

    fn format() -> (f: IndexFormat) {
        IndexFormat::U16
    }

    proof fn lemma_format_size() {
    }
}

impl IndexFormatDataType for u32 {
    open spec fn spec_format() -> IndexFormat {
        IndexFormat::U32
    }

    fn format() -> (f: IndexFormat) {
        IndexFormat::U32
    }

    proof fn lemma_format_size() {
    }
}

impl IndexFormat {
    /// The size of one index in bytes.
    pub fn byte_size(&self) -> (r: usize)
        ensures
            r == index_format_size(*self),
    {
        match self {
            IndexFormat::U32 => 4,
            IndexFormat::U16 => 2,
            IndexFormat::U8 => 1,
        }
    }

    pub fn to_gl_format(&self) -> (r: u32)
        ensures
            r == index_format_gl(*self),
    {
        match self {
            IndexFormat::U32 => gl::UNSIGNED_INT,
            IndexFormat::U16 => gl::UNSIGNED_SHORT,
            IndexFormat::U8 => gl::UNSIGNED_BYTE,
        }
    }
}

pub struct Mesh {
    vertex_buffer: GraphicsBuffer,
    index_buffer: GraphicsBuffer,
    vao: VAO,
    vertex_count: i32,
    index_count: i32,
    index_format: IndexFormat,
}

impl Mesh {
    /// The binding point of the vertex buffer in the vertex array.
    pub const VERTEX_BUFFER_BINDING: u32 = 0;

    pub closed spec fn spec_vertex_count(&self) -> i32 {
        self.vertex_count
    }

    pub closed spec fn spec_index_count(&self) -> i32 {
        self.index_count
    }

    pub closed spec fn spec_index_format(&self) -> IndexFormat {
        self.index_format
    }

    pub closed spec fn spec_vao(&self) -> VAO {
        self.vao
    }

    pub closed spec fn spec_vertex_buffer(&self) -> GraphicsBuffer {
        self.vertex_buffer
    }

    pub closed spec fn spec_index_buffer(&self) -> GraphicsBuffer {
        self.index_buffer
    }

    /// An empty mesh over newly created buffers and vertex array.
    pub fn new(vertex_buffer: GraphicsBuffer, index_buffer: GraphicsBuffer, vao: VAO) -> (m: Self)
        ensures
            m.spec_vertex_count() == 0,
            m.spec_index_count() == 0,
            m.spec_index_format() == IndexFormat::U8,
            m.spec_vao() == vao,
            m.spec_vertex_buffer() == vertex_buffer,
            m.spec_index_buffer() == index_buffer,
    {
        Self {
            vertex_buffer,
            index_buffer,
            vao,
            vertex_count: 0,
            index_count: 0,
            index_format: IndexFormat::U8,
        }
    }

    /// Fills the vertex buffer with `slice`, read as vertices of `layout`:
    /// the vertex count is the buffer size over the vertex size.
    pub fn upload_vertex_buffer_data<T>(&mut self, slice: &[T], layout: &VertexLayout, usage: Usage)
        requires
            layout.spec_vertex_byte_size() > 0,
        ensures
            final(self).spec_vertex_buffer().spec_byte_size() == slice@.len()
                * vstd::layout::size_of::<T>(),
            final(self).spec_vertex_buffer().spec_id() == old(self).spec_vertex_buffer().spec_id(),
            final(self).spec_vertex_count() == (slice@.len() * vstd::layout::size_of::<T>()
                / (layout.spec_vertex_byte_size() as nat)) as i32,
            final(self).spec_vao().spec_vertex_size_bytes() == layout.spec_vertex_byte_size(),
            final(self).spec_vao().spec_id() == old(self).spec_vao().spec_id(),
            final(self).spec_index_buffer() == old(self).spec_index_buffer(),
            final(self).spec_index_count() == old(self).spec_index_count(),
            final(self).spec_index_format() == old(self).spec_index_format(),
    {
        self.vertex_buffer.allocate(slice, usage);
        self.vertex_count = (self.vertex_buffer.byte_size() / layout.vertex_byte_size()) as i32;
        self.vao.set_vertex_buffer(layout);
    }

    /// Fills the index buffer with `slice`: the index format is that of `T`
    /// and the index count is the number of indices.
    pub fn upload_index_buffer_data<T: IndexFormatDataType>(&mut self, slice: &[T], usage: Usage)
        ensures
            final(self).spec_index_format() == T::spec_format(),
            final(self).spec_index_buffer().spec_byte_size() == slice@.len()
                * vstd::layout::size_of::<T>(),
            final(self).spec_index_buffer().spec_id() == old(self).spec_index_buffer().spec_id(),
            final(self).spec_index_count() == slice@.len() as i32,
            final(self).spec_vertex_buffer() == old(self).spec_vertex_buffer(),
            final(self).spec_vertex_count() == old(self).spec_vertex_count(),
            final(self).spec_vao() == old(self).spec_vao(),
    {
        self.index_format = T::format();
        self.index_buffer.allocate(slice, usage);
        proof {
            T::lemma_format_size();
            assert(slice@.len() * vstd::layout::size_of::<T>() / vstd::layout::size_of::<T>()
                == slice@.len()) by (nonlinear_arith)
                requires
                    vstd::layout::size_of::<T>() > 0,
            ;
        }
        self.index_count = (self.index_buffer.byte_size() / self.index_format.byte_size()) as i32;
    }

    pub fn vao(&self) -> (r: &VAO)
        ensures
            *r == self.spec_vao(),
    {
        &self.vao
    }

    pub fn index_count(&self) -> (r: i32)
        ensures
            r == self.spec_index_count(),
    {
        self.index_count
    }

    pub fn vertex_count(&self) -> (r: i32)
        ensures
            r == self.spec_vertex_count(),
    {
        self.vertex_count
    }

    pub fn index_format(&self) -> (r: IndexFormat)
        ensures
            r == self.spec_index_format(),
    {
        self.index_format
    }
}

} // verus!
