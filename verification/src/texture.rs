//! Textures: storage formats and their OpenGL enumerants, mip chain lengths,
//! sampler parameters, and the record of a 2D texture.
use vstd::prelude::*;

use crate::gl;

verus! {

#[derive(Clone, Copy, PartialEq, Eq, Structural, Debug)]
pub enum FilteringMode {
    Nearest,
    Bilinear,
    Trilinear,
    AnisotropicX16,
}

#[derive(Clone, Copy, PartialEq, Eq, Structural, Debug)]
pub enum WrappingMode {
    Repeat,
    Clamp,
}

#[derive(Clone, Copy, PartialEq, Eq, Structural, Debug)]
pub enum StorageFormat {
    R,
    RG,
    RGB,
    RGBA,
    SRGB,
    SRGBA,
    R16F,
    RG16F,
    RGB16F,
    RGBA16F,
    Depth16F,
    Depth24F,
    Depth32F,
    Depth24FStencil,
    Depth32FStencil,
}

#[derive(Clone, Copy, PartialEq, Eq, Structural, Debug)]
pub enum PixelDataType {
    U8,
    U16,
    U32,
}

pub open spec fn pixel_data_type_gl(p: PixelDataType) -> u32 {
    match p {
        PixelDataType::U8 => gl::UNSIGNED_BYTE,
        PixelDataType::U16 => gl::UNSIGNED_SHORT,
        PixelDataType::U32 => gl::UNSIGNED_INT,
    }
}

pub open spec fn storage_format_gl(f: StorageFormat) -> u32 {
    match f {
        StorageFormat::R => gl::R8,
        StorageFormat::RG => gl::RG8,
        StorageFormat::RGB => gl::RGB8,
        StorageFormat::RGBA => gl::RGBA8,
        StorageFormat::SRGB => gl::SRGB8,
        StorageFormat::SRGBA => gl::SRGB8_ALPHA8,
        StorageFormat::R16F => gl::R16F,
        StorageFormat::RG16F => gl::RG16F,
        StorageFormat::RGB16F => gl::RGB16F,
        StorageFormat::RGBA16F => gl::RGBA16F,
        StorageFormat::Depth16F => gl::DEPTH_COMPONENT16,
        StorageFormat::Depth24F => gl::DEPTH_COMPONENT24,
        StorageFormat::Depth32F => gl::DEPTH_COMPONENT32,
        StorageFormat::Depth24FStencil => gl::DEPTH24_STENCIL8,
        StorageFormat::Depth32FStencil => gl::DEPTH32F_STENCIL8,
    }
}

/// The formats that hold depth (with or without stencil).
pub open spec fn is_depth(f: StorageFormat) -> bool {
    match f {
        StorageFormat::Depth16F | StorageFormat::Depth24F | StorageFormat::Depth32F
        | StorageFormat::Depth24FStencil | StorageFormat::Depth32FStencil => true,
        _ => false,
    }
}

impl PixelDataType {
    pub fn to_gl_format(&self) -> (r: u32)
        ensures
            r == pixel_data_type_gl(*self),
    {
        match self {
            PixelDataType::U8 => gl::UNSIGNED_BYTE,
            PixelDataType::U16 => gl::UNSIGNED_SHORT,
            PixelDataType::U32 => gl::UNSIGNED_INT,
        }
    }
}

impl StorageFormat {
    pub fn to_gl_format(&self) -> (r: u32)
        ensures
            r == storage_format_gl(*self),
    {
        match self {
            StorageFormat::R => gl::R8,
            StorageFormat::RG => gl::RG8,
            StorageFormat::RGB => gl::RGB8,
            StorageFormat::RGBA => gl::RGBA8,
            StorageFormat::SRGB => gl::SRGB8,
            StorageFormat::SRGBA => gl::SRGB8_ALPHA8,
            StorageFormat::R16F => gl::R16F,
            StorageFormat::RG16F => gl::RG16F,
            StorageFormat::RGB16F => gl::RGB16F,
            StorageFormat::RGBA16F => gl::RGBA16F,
            StorageFormat::Depth16F => gl::DEPTH_COMPONENT16,
            StorageFormat::Depth24F => gl::DEPTH_COMPONENT24,
            StorageFormat::Depth32F => gl::DEPTH_COMPONENT32,
            StorageFormat::Depth24FStencil => gl::DEPTH24_STENCIL8,
            StorageFormat::Depth32FStencil => gl::DEPTH32F_STENCIL8,
        }
    }

    /// Whether the format holds depth.
    pub fn is_depth_format(&self) -> (r: bool)
        ensures
            r == is_depth(*self),
    {
        match self {
            StorageFormat::Depth16F | StorageFormat::Depth24F | StorageFormat::Depth32F
            | StorageFormat::Depth24FStencil | StorageFormat::Depth32FStencil => true,
            _ => false,
        }
    }
}

/// The number of binary digits of `n` (`0` for `0`).
pub open spec fn bit_length(n: nat) -> nat
    decreases n,
{
    if n == 0 {
        0
    } else {
        1 + bit_length(n / 2)
    }
}

proof fn lemma_bit_length_bound(n: nat, k: nat)
    requires
        n < vstd::arithmetic::power2::pow2(k),
    ensures
        bit_length(n) <= k,
    decreases n,
{
    if n > 0 {
        if k == 0 {
            vstd::arithmetic::power2::lemma2_to64();
        } else {
            vstd::arithmetic::power2::lemma_pow2_unfold(k);
            lemma_bit_length_bound(n / 2, (k - 1) as nat);
        }
    } else {
    }
}

fn bit_length_u32(v: u32) -> (r: u32)
    ensures
        r == bit_length(v as nat),
        r <= 32,
{
    let mut n = v;
    let mut count: u32 = 0;
    proof {
        vstd::arithmetic::power2::lemma2_to64();
        lemma_bit_length_bound(v as nat, 32);
    }
    while n > 0
        invariant
            count + bit_length(n as nat) == bit_length(v as nat),
            bit_length(v as nat) <= 32,
        decreases n,
    {
        n = n / 2;
        count = count + 1;
    }
    count
}

/// The length of the full mip chain of a `width` by `height` image:
/// `floor(log2(max(width, height))) + 1`.
pub open spec fn mip_levels(width: nat, height: nat) -> nat {
    bit_length(if width >= height {
        width
    } else {
        height
    })
}

/// The number of mip levels of a full chain; the dimensions must be positive.
pub fn mip_level_count(width: u32, height: u32) -> (r: u32)
    requires
        width > 0 && height > 0,
    ensures
        r == mip_levels(width as nat, height as nat),
        r >= 1,
{
    let m = if width >= height {
        width
    } else {
        height
    };
    bit_length_u32(m)
}

/// What `calulate_mip_count` returns: 32 less the leading zero bits of the
/// larger dimension's 32-bit pattern (so 32 for a negative one).
pub open spec fn mip_count_i32(width: i32, height: i32) -> int {
    let m = if width >= height {
        width
    } else {
        height
    };
    if m < 0 {
        32
    } else {
        bit_length(m as nat) as int
    }
}

pub fn calulate_mip_count(width: i32, height: i32) -> (r: i32)
    ensures
        r == mip_count_i32(width, height),
{
    let m = if width >= height {
        width
    } else {
        height
    };
    if m < 0 {
        32
    } else {
        bit_length_u32(m as u32) as i32
    }
}

/// The internal format for an 8-bit image with `channels` channels.
pub open spec fn data_format(channels: i32) -> u32 {
    if channels == 1 {
        gl::R8
    } else if channels == 2 {
        gl::RG8
    } else if channels == 3 {
        gl::RGB8
    } else {
        gl::RGBA8
    }
}

pub fn get_data_format(channels: i32) -> (r: u32)
    requires
        1 <= channels <= 4,
    ensures
        r == data_format(channels),
{
    match channels {
        1 => gl::R8,
        2 => gl::RG8,
        3 => gl::RGB8,
        _ => gl::RGBA8,
    }
}

/// The internal format for an 8-bit sRGB image with `channels` channels.
pub open spec fn data_format_srgb(channels: i32) -> u32 {
    if channels == 1 {
        gl::R8
    } else if channels == 2 {
        gl::RG8
    } else if channels == 3 {
        gl::SRGB8
    } else {
        gl::SRGB8_ALPHA8
    }
}

pub fn get_data_format_srgb(channels: i32) -> (r: u32)
    requires
        1 <= channels <= 4,
    ensures
        r == data_format_srgb(channels),
{
    match channels {
        1 => gl::R8,
        2 => gl::RG8,
        3 => gl::SRGB8,
        _ => gl::SRGB8_ALPHA8,
    }
}

/// The pixel transfer format of an image with `channels` channels.
pub open spec fn input_data_format(channels: i32) -> u32 {
    if channels == 1 {
        gl::RED
    } else if channels == 2 {
        gl::RG
    } else if channels == 3 {
        gl::RGB
    } else {
        gl::RGBA
    }
}

pub fn get_input_data_format(channels: i32) -> (r: u32)
    requires
        1 <= channels <= 4,
    ensures
        r == input_data_format(channels),
{
    match channels {
        1 => gl::RED,
        2 => gl::RG,
        3 => gl::RGB,
        _ => gl::RGBA,
    }
}

/// The minification and magnification filters, and whether 16x anisotropic
/// filtering is asked for, of a filtering mode.
pub open spec fn filtering_params(f: FilteringMode) -> (u32, u32, bool) {
    match f {
        FilteringMode::Nearest => (gl::NEAREST, gl::NEAREST, false),
        FilteringMode::Bilinear => (gl::LINEAR, gl::LINEAR, false),
        FilteringMode::Trilinear => (gl::LINEAR_MIPMAP_LINEAR, gl::LINEAR, false),
        FilteringMode::AnisotropicX16 => (gl::LINEAR_MIPMAP_LINEAR, gl::LINEAR, true),
    }
}

pub fn filtering_parameters(filtering: FilteringMode) -> (r: (u32, u32, bool))
    ensures
        r == filtering_params(filtering),
{
    match filtering {
        FilteringMode::Nearest => (gl::NEAREST, gl::NEAREST, false),
        FilteringMode::Bilinear => (gl::LINEAR, gl::LINEAR, false),
        FilteringMode::Trilinear => (gl::LINEAR_MIPMAP_LINEAR, gl::LINEAR, false),
        FilteringMode::AnisotropicX16 => (gl::LINEAR_MIPMAP_LINEAR, gl::LINEAR, true),
    }
}

/// The wrap mode of a wrapping mode, for both texture axes.
pub open spec fn wrapping_param(w: WrappingMode) -> u32 {
    match w {
        WrappingMode::Clamp => gl::CLAMP_TO_EDGE,
        WrappingMode::Repeat => gl::REPEAT,
    }
}

pub fn wrapping_parameter(wrapping: WrappingMode) -> (r: u32)
    ensures
        r == wrapping_param(wrapping),
{
    match wrapping {
        WrappingMode::Clamp => gl::CLAMP_TO_EDGE,
        WrappingMode::Repeat => gl::REPEAT,
    }
}

/// A GPU texture: its OpenGL name and its bindless handle (`0` for none).
pub trait Texture {
    fn id(&self) -> u32;

    fn bindless_handle(&self) -> u64;
}

/// A 2D texture: its OpenGL name, size, channel count, storage format and
/// bindless handle.
pub struct Texture2D {
    id: u32,
    width: i32,
    height: i32,
    channels: i32,
    storage_format: StorageFormat,
    bindless_handle: u64,
}

impl Texture for Texture2D {
    fn id(&self) -> (r: u32)
        ensures
            r == self.spec_id(),
    {
        self.id
    }

    fn bindless_handle(&self) -> (r: u64)
        ensures
            r == self.spec_bindless_handle(),
    {
        self.bindless_handle
    }
}

impl Texture2D {
    pub closed spec fn spec_id(&self) -> u32 {
        self.id
    }

    pub closed spec fn spec_width(&self) -> i32 {
        self.width
    }

    pub closed spec fn spec_height(&self) -> i32 {
        self.height
    }

    pub closed spec fn spec_channels(&self) -> i32 {
        self.channels
    }

    pub closed spec fn spec_storage_format(&self) -> StorageFormat {
        self.storage_format
    }

    pub closed spec fn spec_bindless_handle(&self) -> u64 {
        self.bindless_handle
    }

    /// A texture with the OpenGL name `id` and no storage yet.
    pub fn create_empty_texture(id: u32, storage_format: StorageFormat) -> (t: Texture2D)
        ensures
            t.spec_id() == id,
            t.spec_width() == 0,
            t.spec_height() == 0,
            t.spec_channels() == 0,
            t.spec_storage_format() == storage_format,
            t.spec_bindless_handle() == 0,
    {
        Texture2D { id, width: 0, height: 0, channels: 0, storage_format, bindless_handle: 0 }
    }

    /// Records the size and channel count of the texture's storage.
    pub fn set_dimensions(&mut self, width: i32, height: i32, channels: i32)
        ensures
            final(self).spec_width() == width,
            final(self).spec_height() == height,
            final(self).spec_channels() == channels,
            final(self).spec_id() == old(self).spec_id(),
            final(self).spec_storage_format() == old(self).spec_storage_format(),
            final(self).spec_bindless_handle() == old(self).spec_bindless_handle(),
    {
        self.width = width;
        self.height = height;
        self.channels = channels;
    }

    /// Records the bindless handle that the texture was given; its sampler
    /// state is fixed from then on.
    pub fn set_bindless_handle(&mut self, handle: u64)
        ensures
            final(self).spec_bindless_handle() == handle,
            final(self).spec_id() == old(self).spec_id(),
            final(self).spec_width() == old(self).spec_width(),
            final(self).spec_height() == old(self).spec_height(),
            final(self).spec_channels() == old(self).spec_channels(),
            final(self).spec_storage_format() == old(self).spec_storage_format(),
    {
        self.bindless_handle = handle;
    }

    /// Whether the sampler state can still change: only before a bindless
    /// handle exists.
    pub fn sampler_is_mutable(&self) -> (b: bool)
        ensures
            b == (self.spec_bindless_handle() == 0),
    {
        self.bindless_handle == 0
    }

    /// The mip levels that the texture's storage gets; its size must be positive.
    pub fn storage_mip_levels(&self) -> (r: u32)
        requires
            self.spec_width() > 0,
            self.spec_height() > 0,
        ensures
            r == mip_levels(self.spec_width() as nat, self.spec_height() as nat),
    {
        mip_level_count(self.width as u32, self.height as u32)
    }

    pub fn storage_format(&self) -> (r: StorageFormat)
        ensures
            r == self.spec_storage_format(),
    {
        self.storage_format
    }

    pub fn width(&self) -> (r: i32)
        ensures
            r == self.spec_width(),
    {
        self.width
    }

    pub fn height(&self) -> (r: i32)
        ensures
            r == self.spec_height(),
    {
        self.height
    }
}

/// A positive number has `k` binary digits exactly when it lies between
/// `2^(k-1)` and `2^k - 1`.
pub proof fn law_bit_length(n: nat)
    requires
        n > 0,
    ensures
        bit_length(n) >= 1,
        vstd::arithmetic::power2::pow2((bit_length(n) - 1) as nat) <= n < vstd::arithmetic::power2::pow2(bit_length(n)),
    decreases n,
{
    let b = bit_length(n);
    vstd::arithmetic::power2::lemma_pow2_unfold(b);
    if n == 1 {
        assert(bit_length(0) == 0);
        vstd::arithmetic::power2::lemma2_to64();
    } else {
        let h = n / 2;
        law_bit_length(h);
        let bh = bit_length(h);
        assert(b == bh + 1);
        assert(b - 1 == bh);
        vstd::arithmetic::power2::lemma_pow2_unfold(bh);
        assert(2 * h <= n <= 2 * h + 1);
    }
}

/// A full mip chain has one level per halving of the larger side down to a
/// single texel: with `k` levels, the larger side is at least `2^(k-1)` and
/// below `2^k`.
pub proof fn law_mip_levels(width: nat, height: nat)
    requires
        width > 0 && height > 0,
    ensures
        ({
            let m = if width >= height { width } else { height };
            let k = mip_levels(width, height);
            k >= 1 && vstd::arithmetic::power2::pow2((k - 1) as nat) <= m < vstd::arithmetic::power2::pow2(k)
        }),
{
    let m = if width >= height { width } else { height };
    law_bit_length(m);
}

/// Images with different channel counts (one to four) get different
/// internal and transfer formats; the sRGB formats differ from the linear
/// ones exactly for the color channels of three- and four-channel images.
pub proof fn law_channel_formats(a: i32, b: i32)
    requires
        1 <= a <= 4,
        1 <= b <= 4,
    ensures
        (data_format(a) == data_format(b)) <==> a == b,
        (data_format_srgb(a) == data_format_srgb(b)) <==> a == b,
        (input_data_format(a) == input_data_format(b)) <==> a == b,
        (data_format_srgb(a) != data_format(a)) <==> a >= 3,
{
}

} // verus!
