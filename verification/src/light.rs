//! Light kinds, and the GPU buffer of light records: a header holding the
//! light count, then one fixed-size record per light.
use vstd::prelude::*;

use crate::buffer::{GraphicsBuffer, Usage};

verus! {

broadcast use vstd::layout::group_layout_axioms;

#[derive(Clone, Copy, PartialEq, Eq, Structural, Debug)]
pub enum LightType {
    Directional,
    Point,
    Spot,
}

/// The number that a light's GPU record stores for its kind.
pub open spec fn light_type_number(t: LightType) -> u32 {
    match t {
        LightType::Directional => 0,
        LightType::Point => 1,
        LightType::Spot => 2,
    }
}

impl LightType {
    pub fn to_u32(&self) -> (r: u32)
        ensures
            r == light_type_number(*self),
    {
        match self {
            LightType::Directional => 0,
            LightType::Point => 1,
            LightType::Spot => 2,
        }
    }
}

/// The size of the buffer header: four `u32`s, the first the light count.
pub const BUFFER_HEADER_SIZE: usize = 16;

/// The size of one light's GPU record: five vectors of four floats.
pub const LIGHT_DATA_SIZE: usize = 80;

/// The four bytes of `v` in one of the two byte orders a machine can have:
/// little-endian or big-endian.
pub open spec fn u32_bytes_in_some_order(v: u32, b: Seq<u8>) -> bool {
    b == vstd::bytes::spec_u32_to_le_bytes(v) || b == vstd::bytes::spec_u32_to_le_bytes(v).reverse()
}

/// Calls `u32::to_ne_bytes`: the bytes of `v` in the machine's native byte
/// order. Every target has a little- or big-endian order; which one this
/// machine has depends on the machine and is not stated.
#[verifier::external_body]
fn u32_to_ne_bytes(v: u32) -> (r: [u8; 4])
    ensures
        u32_bytes_in_some_order(v, r@),
{
    v.to_ne_bytes()
}

/// The bytes of the light buffer: the light count as the four bytes `count`
/// (a `u32` in the machine's byte order), twelve zero bytes, then the records.
pub open spec fn light_buffer_bytes(count: Seq<u8>, records: Seq<u8>) -> Seq<u8> {
    count + Seq::new(12, |i: int| 0u8) + records
}

/// The lights of a scene (`L` is a light's description) and the GPU buffer
/// that holds their records.
pub struct LightDataBuffer<L> {
    data: Vec<u8>,
    lights: Vec<L>,
    gpu_buffer: GraphicsBuffer,
}

impl<L> LightDataBuffer<L> {
    pub closed spec fn spec_data(&self) -> Seq<u8> {
        self.data@
    }

    pub closed spec fn spec_lights(&self) -> Seq<L> {
        self.lights@
    }

    pub closed spec fn spec_gpu_buffer(&self) -> GraphicsBuffer {
        self.gpu_buffer
    }

    /// A buffer for `light_data`, whose GPU records (`LIGHT_DATA_SIZE` bytes
    /// each, in order) are `records`; `gpu_buffer` gets storage for the header
    /// and the records, which the caller uploads.
    pub fn new(light_data: Vec<L>, records: &[u8], gpu_buffer: GraphicsBuffer) -> (b: Self)
        requires
            light_data@.len() <= u32::MAX,
            records@.len() == light_data@.len() * LIGHT_DATA_SIZE,
        ensures
            b.spec_lights() == light_data@,
            u32_bytes_in_some_order(light_data@.len() as u32, b.spec_data().take(4)),
            b.spec_data() == light_buffer_bytes(b.spec_data().take(4), records@),
            b.spec_gpu_buffer().spec_byte_size() == BUFFER_HEADER_SIZE + LIGHT_DATA_SIZE * light_data@.len(),
            b.spec_gpu_buffer().spec_id() == gpu_buffer.spec_id(),
    {
        let count = light_data.len() as u32;
        let header = u32_to_ne_bytes(count);
        let mut buffer: Vec<u8> = Vec::new();
        crate::text::push_bytes(&mut buffer, &header);
        assert(buffer@ =~= header@);
        let mut i: usize = 0;
        assert(header@ + Seq::new(0, |k: int| 0u8) =~= header@);
        while i < 12
            invariant
                i <= 12,
                u32_bytes_in_some_order(count, header@),
                buffer@ == header@ + Seq::new(i as nat, |k: int| 0u8),
            decreases 12 - i,
        {
            buffer.push(0u8);
            assert(Seq::new((i + 1) as nat, |k: int| 0u8) =~= Seq::new(i as nat, |k: int| 0u8).push(0u8));
            i = i + 1;
        }
        crate::text::push_bytes(&mut buffer, records);
        proof {
            vstd::bytes::lemma_auto_spec_u32_to_from_le_bytes();
            assert(header@.len() == 4);
            assert(buffer@.take(4) =~= header@);
            assert(buffer@ =~= light_buffer_bytes(header@, records@));
        }
        let mut gpu_buffer = gpu_buffer;
        gpu_buffer.allocate(buffer.as_slice(), Usage::Dynamic);
        Self { lights: light_data, gpu_buffer: gpu_buffer, data: buffer }
    }

    pub fn lights(&self) -> (r: &[L])
        ensures
            r@ == self.spec_lights(),
    {
        self.lights.as_slice()
    }

    /// The bytes uploaded to the GPU, while they are kept.
    pub fn data(&self) -> (r: &[u8])
        ensures
            r@ == self.spec_data(),
    {
        self.data.as_slice()
    }

    pub fn gpu_buffer(&self) -> (r: &GraphicsBuffer)
        ensures
            *r == self.spec_gpu_buffer(),
    {
        &self.gpu_buffer
    }

    /// Drops the CPU-side copy of the bytes.
    pub fn clear_cpu_side_buffer(&mut self)
        ensures
            final(self).spec_data().len() == 0,
            final(self).spec_lights() == old(self).spec_lights(),
            final(self).spec_gpu_buffer() == old(self).spec_gpu_buffer(),
    {
        self.data = Vec::new();
    }
}

} // verus!
