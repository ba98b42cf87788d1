//! Vertex layouts: the attributes of a vertex and where each one sits.
use vstd::prelude::*;

use crate::gl;

verus! {

#[derive(Copy, Clone, PartialEq, Eq, Structural, Debug)]
pub enum AttribFormat {
    F32,
}

#[derive(Copy, Clone, PartialEq, Eq, Structural, Debug)]
pub struct AttribDescriptor {
    pub format: AttribFormat,
    pub count: u32,
    pub index: u32,
    pub relative_offset: u32,
}

/// The attributes of a vertex, with their offsets, and the vertex's size in bytes.
pub struct VertexLayout {
    layout: Vec<AttribDescriptor>,
    pub vertex_byte_size: usize,
}

#[derive(Copy, Clone, PartialEq, Eq, Structural, Debug)]
pub struct Attrib {
    pub format: AttribFormat,
    pub count: u32,
}

pub open spec fn attrib_format_size(f: AttribFormat) -> nat {
    match f {
        AttribFormat::F32 => 4,
    }
}

/// The byte offset of attribute `k`: the sizes of the attributes before it.
pub open spec fn attrib_offset(attrs: Seq<Attrib>, k: int) -> nat
    decreases k,
{
    if k <= 0 {
        0
    } else {
        attrib_offset(attrs, k - 1) + (attrs[k - 1].count as nat) * attrib_format_size(attrs[k - 1].format)
    }
}

/// The descriptor of attribute `k`.
pub open spec fn attrib_descriptor(attrs: Seq<Attrib>, k: int) -> AttribDescriptor {
    AttribDescriptor {
        format: attrs[k].format,
        count: attrs[k].count,
        index: k as u32,
        relative_offset: attrib_offset(attrs, k) as u32,
    }
}

proof fn lemma_attrib_offset_mono(attrs: Seq<Attrib>, j: int, k: int)
    requires
        j <= k,
    ensures
        attrib_offset(attrs, j) <= attrib_offset(attrs, k),
    decreases k - j,
{
    if j < k {
        lemma_attrib_offset_mono(attrs, j, k - 1);
    }
}

impl AttribFormat {
    pub fn to_gl_format(&self) -> (r: u32)
        ensures
            r == gl::FLOAT,
    {
        gl::FLOAT
    }

    pub fn byte_size(&self) -> (r: usize)
        ensures
            r == attrib_format_size(*self),
    {
        match self {
            AttribFormat::F32 => 4,
        }
    }
}

impl Attrib {
    pub fn new(format: AttribFormat, count: u32) -> (a: Self)
        ensures
            a.format == format,
            a.count == count,
    {
        Self { format, count }
    }

    /// Three floats.
    pub fn position() -> (a: Self)
        ensures
            a == (Attrib { format: AttribFormat::F32, count: 3 }),
    {
        Attrib::new(AttribFormat::F32, 3)
    }

    /// Three floats.
    pub fn normal() -> (a: Self)
        ensures
            a == (Attrib { format: AttribFormat::F32, count: 3 }),
    {
        Attrib::new(AttribFormat::F32, 3)
    }

    /// Two floats.
    pub fn uv() -> (a: Self)
        ensures
            a == (Attrib { format: AttribFormat::F32, count: 2 }),
    {
        Attrib::new(AttribFormat::F32, 2)
    }
}

impl VertexLayout {
    pub closed spec fn spec_layout(&self) -> Seq<AttribDescriptor> {
        self.layout@
    }

    pub closed spec fn spec_vertex_byte_size(&self) -> usize {
        self.vertex_byte_size
    }

    /// The size of one vertex in bytes.
    pub fn vertex_byte_size(&self) -> (r: usize)
        ensures
            r == self.spec_vertex_byte_size(),
    {
        self.vertex_byte_size
    }

    pub fn layout(&self) -> (r: &[AttribDescriptor])
        ensures
            r@ == self.spec_layout(),
    {
        self.layout.as_slice()
    }

    /// The layout of vertices made of `vertex_attributes`, in order and packed:
    /// attribute `k` has index `k` and sits after the attributes before it.
    pub fn from_attribs(vertex_attributes: &[Attrib]) -> (l: Self)
        requires
            attrib_offset(vertex_attributes@, vertex_attributes@.len() as int) <= u32::MAX,
        ensures
            l.spec_layout().len() == vertex_attributes@.len(),
            forall|k: int|
                0 <= k < vertex_attributes@.len() ==> #[trigger] l.spec_layout()[k]
                    == attrib_descriptor(vertex_attributes@, k),
            l.spec_vertex_byte_size() == attrib_offset(vertex_attributes@, vertex_attributes@.len() as int),
    {
        let ghost attrs = vertex_attributes@;
        let mut offset: u32 = 0;
        let mut layout: Vec<AttribDescriptor> = Vec::new();
        let mut index: usize = 0;
        while index < vertex_attributes.len()
            invariant
                index <= vertex_attributes.len(),
                attrs == vertex_attributes@,
                attrib_offset(attrs, attrs.len() as int) <= u32::MAX,
                offset == attrib_offset(attrs, index as int),
                layout@.len() == index,
                forall|k: int| 0 <= k < index ==> #[trigger] layout@[k] == attrib_descriptor(attrs, k),
            decreases vertex_attributes.len() - index,
        {
            let attrib = vertex_attributes[index];
            let value = AttribDescriptor {
                format: attrib.format,
                count: attrib.count,
                index: index as u32,
                relative_offset: offset,
            };
            proof {
                lemma_attrib_offset_mono(attrs, index + 1, attrs.len() as int);
            }
            let size = attrib.format.byte_size() as u32;
            offset = offset + attrib.count * size;
            layout.push(value);
            index = index + 1;
        }
        Self { layout: layout, vertex_byte_size: offset as usize }
    }
}

/// Attributes are packed in order without overlap: each one's bytes end at
/// or before where any later one starts, and the first starts at zero.
pub proof fn law_attributes_packed(attrs: Seq<Attrib>, j: int, k: int)
    requires
        0 <= j < k <= attrs.len(),
    ensures
        attrib_offset(attrs, 0) == 0,
        attrib_offset(attrs, j) + (attrs[j].count as nat) * attrib_format_size(attrs[j].format) <= attrib_offset(attrs, k),
{
    lemma_attrib_offset_mono(attrs, j + 1, k);
}

} // verus!
