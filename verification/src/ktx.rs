//! Decoder for the KTX texture container.
//!
//! A texture file starts with an identifier of twelve bytes, a word that
//! tells the byte order, and a header of twelve little-endian words. Key
//! and value data that the header sizes follow, and are skipped. The rest
//! of the file is pixel data. What kind of texture it holds follows from
//! which of the header's extents are zero.

pub mod proofs;

use crate::reader::{
    le_u32, read_le_u32, record_at, starts_with, BufferReader, ReadError, Record,
};
use vstd::prelude::*;

verus! {

/// Base internal format with one channel (OpenGL's `RED`).
pub const RED: u32 = 0x1903;

/// Base internal format with two channels (OpenGL's `RG`).
pub const RG: u32 = 0x8227;

/// Base internal format with three channels (OpenGL's `RGB`).
pub const RGB: u32 = 0x1907;

/// Base internal format with three channels, blue first (OpenGL's `BGR`).
pub const BGR: u32 = 0x80e0;

/// Base internal format with four channels (OpenGL's `RGBA`).
pub const RGBA: u32 = 0x1908;

/// Base internal format with four channels, blue first (OpenGL's `BGRA`).
pub const BGRA: u32 = 0x80e1;

/// The byte-order word of a file whose words are stored the other way
/// round. Such files are not decoded.
pub const FOREIGN_ENDIAN: u32 = 0x0102_0304;

/// The header of a texture file.
#[derive(Debug, Clone, Copy, PartialEq, Eq, Structural)]
pub struct Header {
    /// Type of one channel value.
    pub gl_type: u32,
    /// Size in bytes of one channel value.
    pub gl_type_size: u32,
    /// Pixel format.
    pub gl_format: u32,
    /// Internal format.
    pub gl_internal_format: u32,
    /// Base internal format: which channels a pixel has.
    pub gl_base_internal_format: u32,
    /// Width in pixels; not zero in a valid header.
    pub pixel_width: u32,
    /// Height in pixels; zero for a one-dimensional texture.
    pub pixel_height: u32,
    /// Depth in pixels; zero unless the texture is three-dimensional.
    pub pixel_depth: u32,
    /// Number of array elements; zero unless the texture is an array.
    pub array_elements: u32,
    /// Number of faces; zero unless the texture is a cube map.
    pub faces: u32,
    /// Number of mip levels; zero stands for one.
    pub mip_levels: u32,
    /// Length in bytes of the key and value data after the header.
    pub key_pair_bytes: u32,
}

/// The kind of a texture.
#[derive(Debug, Clone, Copy, PartialEq, Eq, Structural)]
pub enum Target {
    Texture1D,
    Texture1DArray,
    Texture2D,
    Texture2DArray,
    TextureCubeMap,
    TextureCubeMapArray,
    Texture3D,
}

/// OpenGL's name for one-dimensional textures, `TEXTURE_1D`.
pub const TEXTURE_1D: u32 = 0x0de0;

/// OpenGL's name for arrays of one-dimensional textures,
/// `TEXTURE_1D_ARRAY`.
pub const TEXTURE_1D_ARRAY: u32 = 0x8c18;

/// OpenGL's name for two-dimensional textures, `TEXTURE_2D`.
pub const TEXTURE_2D: u32 = 0x0de1;

/// OpenGL's name for arrays of two-dimensional textures,
/// `TEXTURE_2D_ARRAY`.
pub const TEXTURE_2D_ARRAY: u32 = 0x8c1a;

/// OpenGL's name for cube maps, `TEXTURE_CUBE_MAP`.
pub const TEXTURE_CUBE_MAP: u32 = 0x8513;

/// OpenGL's name for arrays of cube maps, `TEXTURE_CUBE_MAP_ARRAY`.
pub const TEXTURE_CUBE_MAP_ARRAY: u32 = 0x9009;

/// OpenGL's name for three-dimensional textures, `TEXTURE_3D`.
pub const TEXTURE_3D: u32 = 0x806f;

impl Target {
    /// The number by which OpenGL names this kind of texture.
    pub open spec fn spec_gl_enum(self) -> u32 {
        match self {
            Target::Texture1D => TEXTURE_1D,
            Target::Texture1DArray => TEXTURE_1D_ARRAY,
            Target::Texture2D => TEXTURE_2D,
            Target::Texture2DArray => TEXTURE_2D_ARRAY,
            Target::TextureCubeMap => TEXTURE_CUBE_MAP,
            Target::TextureCubeMapArray => TEXTURE_CUBE_MAP_ARRAY,
            Target::Texture3D => TEXTURE_3D,
        }
    }

    /// The number by which OpenGL names this kind of texture.
    #[verifier::when_used_as_spec(spec_gl_enum)]
    pub fn gl_enum(self) -> (r: u32)
        ensures
            r == self.spec_gl_enum(),
    {
        match self {
            Target::Texture1D => TEXTURE_1D,
            Target::Texture1DArray => TEXTURE_1D_ARRAY,
            Target::Texture2D => TEXTURE_2D,
            Target::Texture2DArray => TEXTURE_2D_ARRAY,
            Target::TextureCubeMap => TEXTURE_CUBE_MAP,
            Target::TextureCubeMapArray => TEXTURE_CUBE_MAP_ARRAY,
            Target::Texture3D => TEXTURE_3D,
        }
    }
}

/// Why a texture could not be decoded.
#[derive(Debug, Clone, Copy, PartialEq, Eq, Structural)]
pub enum LoadError {
    /// The file does not start with the identifier, or its words are
    /// stored in the foreign byte order.
    MagicError,
    /// The header contradicts itself, or names a base internal format
    /// whose channels are not known.
    HeaderError,
    /// The file is shorter than its header says.
    BufferOverrun,
}

impl From<ReadError> for LoadError {
    fn from(e: ReadError) -> (r: LoadError) {
        LoadError::BufferOverrun
    }
}

impl vstd::std_specs::convert::FromSpecImpl<ReadError> for LoadError {
    open spec fn obeys_from_spec() -> bool {
        true
    }

    open spec fn from_spec(e: ReadError) -> LoadError {
        LoadError::BufferOverrun
    }
}

impl Record for Header {
    open spec fn spec_size() -> nat {
        48
    }

    open spec fn spec_decode(bytes: Seq<u8>) -> Header {
        Header {
            gl_type: le_u32(bytes, 0),
            gl_type_size: le_u32(bytes, 4),
            gl_format: le_u32(bytes, 8),
            gl_internal_format: le_u32(bytes, 12),
            gl_base_internal_format: le_u32(bytes, 16),
            pixel_width: le_u32(bytes, 20),
            pixel_height: le_u32(bytes, 24),
            pixel_depth: le_u32(bytes, 28),
            array_elements: le_u32(bytes, 32),
            faces: le_u32(bytes, 36),
            mip_levels: le_u32(bytes, 40),
            key_pair_bytes: le_u32(bytes, 44),
        }
    }

    fn size() -> (n: usize) {
        48
    }

    fn decode(bytes: &[u8]) -> (r: Header) {
        Header {
            gl_type: read_le_u32(bytes, 0),
            gl_type_size: read_le_u32(bytes, 4),
            gl_format: read_le_u32(bytes, 8),
            gl_internal_format: read_le_u32(bytes, 12),
            gl_base_internal_format: read_le_u32(bytes, 16),
            pixel_width: read_le_u32(bytes, 20),
            pixel_height: read_le_u32(bytes, 24),
            pixel_depth: read_le_u32(bytes, 28),
            array_elements: read_le_u32(bytes, 32),
            faces: read_le_u32(bytes, 36),
            mip_levels: read_le_u32(bytes, 40),
            key_pair_bytes: read_le_u32(bytes, 44),
        }
    }
}

/// The twelve bytes a texture file starts with.
pub open spec fn identifier() -> Seq<u8> {
    seq![
        0xabu8, 0x4bu8, 0x54u8, 0x58u8, 0x20u8, 0x31u8, 0x31u8, 0xbbu8, 0x0du8, 0x0au8, 0x1au8,
        0x0au8,
    ]
}

/// The number of channels of a base internal format, where it is known.
pub open spec fn spec_channels(format: u32) -> Option<u32> {
    if format == RED {
        Some(1)
    } else if format == RG {
        Some(2)
    } else if format == BGR || format == RGB {
        Some(3)
    } else if format == BGRA || format == RGBA {
        Some(4)
    } else {
        None
    }
}

/// The number of channels of a base internal format, where it is known.
pub fn channels(format: u32) -> (r: Option<u32>)
    ensures
        r == spec_channels(format),
{
    if format == RED {
        Some(1)
    } else if format == RG {
        Some(2)
    } else if format == BGR || format == RGB {
        Some(3)
    } else if format == BGRA || format == RGBA {
        Some(4)
    } else {
        None
    }
}

/// `size` padded to the alignment `pad` by masking:
/// `(size + pad - 1) & !(pad - 1)`. For a `pad` that is a power of two
/// this is `size` rounded up to a multiple of `pad`.
pub open spec fn padded(size: u128, pad: u128) -> u128 {
    ((size + (pad - 1)) as u128) & !((pad - 1) as u128)
}

/// `size` rounded up to a multiple of `pad`: the least multiple of `pad`
/// that is not below `size`.
pub open spec fn rounded_up(size: int, pad: int) -> int {
    (size + pad - 1) / pad * pad
}

/// Whether `pad` is one of the alignments that OpenGL knows for rows of
/// pixels: 1, 2, 4 or 8.
pub open spec fn is_row_alignment(pad: int) -> bool {
    pad == 1 || pad == 2 || pad == 4 || pad == 8
}

/// At the alignments 1, 2, 4 and 8, padding by masking rounds up to a
/// multiple of the alignment.
pub proof fn lemma_padded_is_rounded_up(size: u128, pad: u128)
    requires
        is_row_alignment(pad as int),
        size <= 0xffff_ffff_ffff_ffff_ffff_ffff,
    ensures
        padded(size, pad) == rounded_up(size as int, pad as int),
{
    if pad == 1 {
        assert(((size + 0) as u128) & !(0 as u128) == (size + 0) / 1 * 1) by (bit_vector)
            requires
                size <= 0xffff_ffff_ffff_ffff_ffff_ffff,
        ;
    } else if pad == 2 {
        assert(((size + 1) as u128) & !(1 as u128) == (size + 1) / 2 * 2) by (bit_vector)
            requires
                size <= 0xffff_ffff_ffff_ffff_ffff_ffff,
        ;
    } else if pad == 4 {
        assert(((size + 3) as u128) & !(3 as u128) == (size + 3) / 4 * 4) by (bit_vector)
            requires
                size <= 0xffff_ffff_ffff_ffff_ffff_ffff,
        ;
    } else {
        assert(((size + 7) as u128) & !(7 as u128) == (size + 7) / 8 * 8) by (bit_vector)
            requires
                size <= 0xffff_ffff_ffff_ffff_ffff_ffff,
        ;
    }
}

impl Header {
    /// Whether the extents make sense: there is a width, and no depth
    /// without a height.
    pub open spec fn spec_valid(&self) -> bool {
        self.pixel_width != 0 && !(self.pixel_height == 0 && self.pixel_depth != 0)
    }

    /// Whether the extents make sense: there is a width, and no depth
    /// without a height.
    #[verifier::when_used_as_spec(spec_valid)]
    pub fn valid(&self) -> (b: bool)
        ensures
            b == self.spec_valid(),
    {
        self.pixel_width != 0 && !(self.pixel_height == 0 && self.pixel_depth != 0)
    }

    /// The kind of texture that the extents describe.
    pub open spec fn spec_target(&self) -> Target {
        if self.pixel_height == 0 {
            if self.array_elements == 0 {
                Target::Texture1D
            } else {
                Target::Texture1DArray
            }
        } else if self.pixel_depth == 0 {
            if self.array_elements == 0 {
                if self.faces == 0 {
                    Target::Texture2D
                } else {
                    Target::TextureCubeMap
                }
            } else {
                if self.faces == 0 {
                    Target::Texture2DArray
                } else {
                    Target::TextureCubeMapArray
                }
            }
        } else {
            Target::Texture3D
        }
    }

    /// The kind of texture that the extents describe.
    #[verifier::when_used_as_spec(spec_target)]
    pub fn target(&self) -> (t: Target)
        ensures
            t == self.spec_target(),
    {
        if self.pixel_height == 0 {
            if self.array_elements == 0 {
                Target::Texture1D
            } else {
                Target::Texture1DArray
            }
        } else if self.pixel_depth == 0 {
            if self.array_elements == 0 {
                if self.faces == 0 {
                    Target::Texture2D
                } else {
                    Target::TextureCubeMap
                }
            } else {
                if self.faces == 0 {
                    Target::Texture2DArray
                } else {
                    Target::TextureCubeMapArray
                }
            }
        } else {
            Target::Texture3D
        }
    }

    /// The number of mip levels, with the header's zero read as one.
    pub open spec fn spec_levels(&self) -> u32 {
        if self.mip_levels == 0 {
            1
        } else {
            self.mip_levels
        }
    }

    /// The number of mip levels, with the header's zero read as one.
    #[verifier::when_used_as_spec(spec_levels)]
    pub fn levels(&self) -> (n: u32)
        ensures
            n == self.spec_levels(),
    {
        if self.mip_levels == 0 {
            1
        } else {
            self.mip_levels
        }
    }

    /// Bytes in one row of `width` pixels, before padding.
    pub open spec fn row_bytes(self, channels: u32, width: u32) -> int {
        self.gl_type_size * channels * width
    }

    /// The stride of a row of `width` pixels at alignment `pad`: `None`
    /// where the channels of the base internal format are not known.
    pub open spec fn spec_stride(self, width: u32, pad: usize) -> Option<u128> {
        match spec_channels(self.gl_base_internal_format) {
            Some(c) => Some(padded(self.row_bytes(c, width) as u128, pad as u128)),
            None => None,
        }
    }
}

/// A row of pixels is never longer than 2^66 bytes.
pub proof fn lemma_row_bytes_bound(h: Header, channels: u32, width: u32)
    requires
        channels <= 4,
    ensures
        0 <= h.row_bytes(channels, width) <= 4 * 0xffff_ffff * 0xffff_ffff,
{
    let a = h.gl_type_size as int;
    let c = channels as int;
    let w = width as int;
    assert(0 <= a * c <= 0xffff_ffff * 4) by (nonlinear_arith)
        requires
            0 <= a <= 0xffff_ffff,
            0 <= c <= 4,
    ;
    assert(0 <= (a * c) * w <= (0xffff_ffff * 4) * 0xffff_ffff) by (nonlinear_arith)
        requires
            0 <= a * c <= 0xffff_ffff * 4,
            0 <= w <= 0xffff_ffff,
    ;
}

/// Calculates the stride of a row of `width` pixels: the bytes of the row,
/// padded to the alignment `pad`.
///
/// Fails with [`LoadError::HeaderError`] where the channels of the base
/// internal format are not known.
pub fn calculate_stride(h: &Header, width: u32, pad: usize) -> (r: Result<u128, LoadError>)
    requires
        pad >= 1,
    ensures
        match r {
            Ok(stride) => {
                &&& h.spec_stride(width, pad) == Some(stride)
                &&& is_row_alignment(pad as int) ==> stride == rounded_up(
                    h.row_bytes(spec_channels(h.gl_base_internal_format).unwrap(), width),
                    pad as int,
                )
            },
            Err(e) => e == LoadError::HeaderError && h.spec_stride(width, pad) is None,
        },
{
    let channels = match channels(h.gl_base_internal_format) {
        Some(c) => c,
        None => {
            return Err(LoadError::HeaderError);
        },
    };
    proof {
        lemma_row_bytes_bound(*h, channels, width);
        let a = h.gl_type_size as int;
        let c = channels as int;
        assert(0 <= a * c <= 0xffff_ffff * 4) by (nonlinear_arith)
            requires
                0 <= a <= 0xffff_ffff,
                0 <= c <= 4,
        ;
    }
    let row: u128 = (h.gl_type_size as u128) * (channels as u128) * (width as u128);
    let mask: u128 = pad as u128 - 1;
    proof {
        if is_row_alignment(pad as int) {
            lemma_padded_is_rounded_up(row, pad as u128);
        }
    }
    Ok((row + mask) & !mask)
}

/// One image of a texture: where its pixel data lie in the file, and its
/// extents.
#[derive(Debug, Clone, Copy, PartialEq, Eq)]
pub struct Image {
    /// Where in the file the image's data start.
    pub offset: usize,
    /// Length of the image's data in bytes.
    pub len: usize,
    /// Width in pixels.
    pub width: u32,
    /// Height in pixels.
    pub height: u32,
    /// Bytes from one row to the next; `None` where the decoder does not
    /// lay the rows out, and the data are one region for the backend.
    pub stride: Option<usize>,
}

/// The extent of mip level `level` of a texture whose level 0 has extent
/// `extent`: each level has half the extent of the one before, rounded
/// down, but never less than 1.
pub open spec fn level_extent(extent: u32, level: nat) -> u32
    decreases level,
{
    if level == 0 {
        extent
    } else {
        let half = level_extent(extent, (level - 1) as nat) / 2;
        if half == 0 {
            1
        } else {
            half
        }
    }
}

impl Header {
    /// The stride of mip level `level`, rows tightly packed: the bytes of
    /// one row, and 0 where the channels are not known.
    pub open spec fn level_stride(self, level: nat) -> int {
        match spec_channels(self.gl_base_internal_format) {
            Some(c) => self.row_bytes(c, level_extent(self.pixel_width, level)),
            None => 0,
        }
    }

    /// Bytes that mip level `level` takes.
    pub open spec fn level_size(self, level: nat) -> int {
        self.level_stride(level) * level_extent(self.pixel_height, level)
    }

    /// Bytes that the first `count` mip levels take together.
    pub open spec fn levels_size(self, count: nat) -> int
        decreases count,
    {
        if count == 0 {
            0
        } else {
            self.levels_size((count - 1) as nat) + self.level_size((count - 1) as nat)
        }
    }

    /// Mip level `level` of a two-dimensional texture whose pixel data
    /// start at `start`.
    pub open spec fn level_image(self, start: int, level: nat) -> Image {
        Image {
            offset: (start + self.levels_size(level)) as usize,
            len: self.level_size(level) as usize,
            width: level_extent(self.pixel_width, level),
            height: level_extent(self.pixel_height, level),
            stride: Some(self.level_stride(level) as usize),
        }
    }

    /// The stride of a cube-map face, rows padded to four bytes: the
    /// bytes of one row rounded up to a multiple of 4, and 0 where the
    /// channels are not known.
    pub open spec fn face_stride(self) -> int {
        match spec_channels(self.gl_base_internal_format) {
            Some(c) => rounded_up(self.row_bytes(c, self.pixel_width), 4),
            None => 0,
        }
    }

    /// Bytes that one face of a cube map takes.
    pub open spec fn face_size(self) -> int {
        self.face_stride() * self.pixel_height
    }

    /// Face `face` of a cube map whose pixel data start at `start`.
    pub open spec fn face_image(self, start: int, face: nat) -> Image {
        Image {
            offset: (start + face * self.face_size()) as usize,
            len: self.face_size() as usize,
            width: self.pixel_width,
            height: self.pixel_height,
            stride: Some(self.face_stride() as usize),
        }
    }

    /// The one image of a texture whose pixel data, `len` bytes from
    /// `start`, are left to the backend whole.
    pub open spec fn whole_image(self, start: int, len: int) -> Image {
        Image {
            offset: start as usize,
            len: len as usize,
            width: self.pixel_width,
            height: self.pixel_height,
            stride: None,
        }
    }

    /// The images of a two-dimensional texture whose pixel data are the
    /// `len` bytes from `start`: one for each mip level, one behind the
    /// other, rows tightly packed.
    pub open spec fn spec_mip_images(self, start: int, len: int) -> Result<Seq<Image>, LoadError> {
        if spec_channels(self.gl_base_internal_format) is None {
            Err(LoadError::HeaderError)
        } else if self.levels_size(self.spec_levels() as nat) > len {
            Err(LoadError::BufferOverrun)
        } else {
            Ok(Seq::new(self.spec_levels() as nat, |i: int| self.level_image(start, i as nat)))
        }
    }

    /// The images of a cube map whose pixel data are the `len` bytes from
    /// `start`: one for each face, all of one size, rows padded to four
    /// bytes. Only the first mip level is laid out.
    pub open spec fn spec_face_images(self, start: int, len: int) -> Result<Seq<Image>, LoadError> {
        if spec_channels(self.gl_base_internal_format) is None {
            Err(LoadError::HeaderError)
        } else if self.faces * self.face_size() > len {
            Err(LoadError::BufferOverrun)
        } else {
            Ok(Seq::new(self.faces as nat, |i: int| self.face_image(start, i as nat)))
        }
    }

    /// The images of a texture with this header whose pixel data are the
    /// `len` bytes from `start`. A texture that is neither two-dimensional
    /// nor a cube map has one image, which is all the pixel data.
    pub open spec fn spec_images(self, start: int, len: int) -> Result<Seq<Image>, LoadError> {
        match self.spec_target() {
            Target::Texture2D => self.spec_mip_images(start, len),
            Target::TextureCubeMap => self.spec_face_images(start, len),
            _ => Ok(seq![self.whole_image(start, len)]),
        }
    }
}

/// A decoded texture as a mathematical value.
pub struct TextureModel {
    /// The header as it stands in the file.
    pub header: Header,
    /// The kind of texture.
    pub target: Target,
    /// The number of mip levels, at least 1.
    pub mip_levels: u32,
    /// The images, in file order.
    pub images: Seq<Image>,
    /// Whether the backend is to generate the mip chain: the file holds
    /// one level only.
    pub generate_mipmaps: bool,
    /// The file.
    pub data: Seq<u8>,
}

impl TextureModel {
    /// Every image lies within the file.
    pub open spec fn images_fit(self) -> bool {
        forall|i: int|
            0 <= i < self.images.len() ==> (#[trigger] self.images[i]).offset
                + self.images[i].len <= self.data.len()
    }
}

/// What decoding the file `bytes` gives: the texture, or the first fault
/// found.
pub open spec fn spec_load(bytes: Seq<u8>) -> Result<TextureModel, LoadError> {
    if !starts_with(bytes, identifier()) {
        Err(LoadError::MagicError)
    } else if bytes.len() < 16 {
        Err(LoadError::BufferOverrun)
    } else if le_u32(bytes, 12) == FOREIGN_ENDIAN {
        Err(LoadError::MagicError)
    } else if bytes.len() < 64 {
        Err(LoadError::BufferOverrun)
    } else {
        let header = record_at::<Header>(bytes, 16);
        let start = 64 + header.key_pair_bytes;
        if !header.spec_valid() {
            Err(LoadError::HeaderError)
        } else if start > bytes.len() {
            Err(LoadError::BufferOverrun)
        } else {
            match header.spec_images(start, bytes.len() - start) {
                Err(e) => Err(e),
                Ok(images) => Ok(
                    TextureModel {
                        header,
                        target: header.spec_target(),
                        mip_levels: header.spec_levels(),
                        images,
                        generate_mipmaps: header.spec_levels() == 1,
                        data: bytes,
                    },
                ),
            }
        }
    }
}

/// No mip level of a texture that has an extent has none.
pub proof fn lemma_level_extent_positive(extent: u32, level: nat)
    requires
        extent >= 1,
    ensures
        1 <= level_extent(extent, level) <= extent,
    decreases level,
{
    if level > 0 {
        lemma_level_extent_positive(extent, (level - 1) as nat);
    }
}

/// A mip level takes no more bytes than 2^98, and not fewer than none.
pub proof fn lemma_level_size_bound(h: Header, level: nat)
    ensures
        0 <= h.level_stride(level) <= 4 * 0xffff_ffff * 0xffff_ffff,
        0 <= h.level_size(level) <= 4 * 0xffff_ffff * 0xffff_ffff * 0xffff_ffff,
        level_extent(h.pixel_height, level) >= 1 ==> h.level_stride(level) <= h.level_size(level),
{
    let width = level_extent(h.pixel_width, level);
    let height = level_extent(h.pixel_height, level) as int;
    let stride = h.level_stride(level);
    match spec_channels(h.gl_base_internal_format) {
        Some(c) => {
            lemma_row_bytes_bound(h, c, width);
        },
        None => {},
    }
    assert(0 <= stride * height <= 4 * 0xffff_ffff * 0xffff_ffff * 0xffff_ffff)
        by (nonlinear_arith)
        requires
            0 <= stride <= 4 * 0xffff_ffff * 0xffff_ffff,
            0 <= height <= 0xffff_ffff,
    ;
    assert(height >= 1 ==> stride <= stride * height) by (nonlinear_arith)
        requires
            0 <= stride,
    ;
}

/// More mip levels take no fewer bytes.
pub proof fn lemma_levels_size_monotonic(h: Header, fewer: nat, more: nat)
    requires
        fewer <= more,
    ensures
        0 <= h.levels_size(fewer) <= h.levels_size(more),
    decreases more,
{
    if more == 0 {
    } else if fewer == more {
        lemma_levels_size_monotonic(h, (fewer - 1) as nat, (more - 1) as nat);
        lemma_level_size_bound(h, (more - 1) as nat);
    } else {
        lemma_levels_size_monotonic(h, fewer, (more - 1) as nat);
        lemma_level_size_bound(h, (more - 1) as nat);
    }
}

/// A cube-map face takes no more bytes than 2^99, and not fewer than none.
pub proof fn lemma_face_size_bound(h: Header)
    ensures
        0 <= h.face_stride() <= 4 * 0xffff_ffff * 0xffff_ffff + 3,
        0 <= h.face_size() <= (4 * 0xffff_ffff * 0xffff_ffff + 3) * 0xffff_ffff,
        h.pixel_height >= 1 ==> h.face_stride() <= h.face_size(),
{
    let height = h.pixel_height as int;
    let stride = h.face_stride();
    match spec_channels(h.gl_base_internal_format) {
        Some(c) => {
            lemma_row_bytes_bound(h, c, h.pixel_width);
        },
        None => {},
    }
    assert(0 <= stride * height <= (4 * 0xffff_ffff * 0xffff_ffff + 3) * 0xffff_ffff)
        by (nonlinear_arith)
        requires
            0 <= stride <= 4 * 0xffff_ffff * 0xffff_ffff + 3,
            0 <= height <= 0xffff_ffff,
    ;
    assert(height >= 1 ==> stride <= stride * height) by (nonlinear_arith)
        requires
            0 <= stride,
    ;
}

/// Calculates the size of one face of a cube map: its rows, padded to four
/// bytes, times its height.
///
/// Fails with [`LoadError::HeaderError`] where the channels of the base
/// internal format are not known.
pub fn calculate_face_size(h: &Header) -> (r: Result<u128, LoadError>)
    ensures
        match r {
            Ok(size) => spec_channels(h.gl_base_internal_format) is Some && size == h.face_size(),
            Err(e) => e == LoadError::HeaderError && spec_channels(h.gl_base_internal_format)
                is None,
        },
{
    let stride = match calculate_stride(h, h.pixel_width, 4) {
        Ok(s) => s,
        Err(e) => {
            return Err(e);
        },
    };
    proof {
        lemma_face_size_bound(*h);
    }
    Ok(stride * (h.pixel_height as u128))
}

/// Half of `extent`, but not less than 1: the extent of the next mip level.
fn halve(extent: u32) -> (r: u32)
    ensures
        r == (if extent / 2 == 0 {
            1
        } else {
            extent / 2
        }),
{
    let half = extent / 2;
    if half == 0 {
        1
    } else {
        half
    }
}

impl Header {
    /// Lays out the mip levels of a two-dimensional texture in the `len`
    /// bytes from `start`.
    fn mip_images(&self, start: usize, len: usize) -> (r: Result<Vec<Image>, LoadError>)
        requires
            self.pixel_height != 0,
            start + len <= usize::MAX,
        ensures
            match r {
                Ok(images) => self.spec_mip_images(start as int, len as int) == Ok::<
                    _,
                    LoadError,
                >(images@),
                Err(e) => self.spec_mip_images(start as int, len as int) == Err::<Seq<Image>, _>(
                    e,
                ),
            },
    {
        if channels(self.gl_base_internal_format).is_none() {
            return Err(LoadError::HeaderError);
        }
        let levels = self.levels();
        let mut images: Vec<Image> = Vec::new();
        let mut width = self.pixel_width;
        let mut height = self.pixel_height;
        let mut used: usize = 0;
        let mut i: u32 = 0;
        while i < levels
            invariant
                i <= levels,
                levels == self.spec_levels(),
                self.pixel_height != 0,
                start + len <= usize::MAX,
                spec_channels(self.gl_base_internal_format) is Some,
                used == self.levels_size(i as nat),
                used <= len,
                width == level_extent(self.pixel_width, i as nat),
                height == level_extent(self.pixel_height, i as nat),
                images@ == Seq::new(i as nat, |k: int| self.level_image(start as int, k as nat)),
            decreases levels - i,
        {
            let stride = match calculate_stride(self, width, 1) {
                Ok(s) => s,
                Err(e) => {
                    return Err(e);
                },
            };
            proof {
                lemma_level_size_bound(*self, i as nat);
                lemma_level_extent_positive(self.pixel_height, i as nat);
            }
            let size: u128 = stride * (height as u128);
            if size > (len - used) as u128 {
                proof {
                    lemma_levels_size_monotonic(*self, (i + 1) as nat, levels as nat);
                }
                return Err(LoadError::BufferOverrun);
            }
            images.push(
                Image {
                    offset: start + used,
                    len: size as usize,
                    width,
                    height,
                    stride: Some(stride as usize),
                },
            );
            assert(images@ =~= Seq::new(
                (i + 1) as nat,
                |k: int| self.level_image(start as int, k as nat),
            ));
            used = used + size as usize;
            width = halve(width);
            height = halve(height);
            i = i + 1;
        }
        Ok(images)
    }

    /// Lays out the faces of a cube map in the `len` bytes from `start`.
    fn face_images(&self, start: usize, len: usize) -> (r: Result<Vec<Image>, LoadError>)
        requires
            self.pixel_height != 0,
            start + len <= usize::MAX,
        ensures
            match r {
                Ok(images) => self.spec_face_images(start as int, len as int) == Ok::<
                    _,
                    LoadError,
                >(images@),
                Err(e) => self.spec_face_images(start as int, len as int) == Err::<
                    Seq<Image>,
                    _,
                >(e),
            },
    {
        let face_size = match calculate_face_size(self) {
            Ok(s) => s,
            Err(e) => {
                return Err(e);
            },
        };
        let stride = match calculate_stride(self, self.pixel_width, 4) {
            Ok(s) => s,
            Err(e) => {
                return Err(e);
            },
        };
        proof {
            lemma_face_size_bound(*self);
        }
        let faces = self.faces;
        let mut images: Vec<Image> = Vec::new();
        if faces == 0 {
            assert(images@ =~= Seq::new(0, |k: int| self.face_image(start as int, k as nat)));
            assert(self.faces * self.face_size() == 0) by (nonlinear_arith)
                requires
                    self.faces == 0,
            ;
            return Ok(images);
        }
        if face_size > len as u128 {
            assert(self.faces * self.face_size() >= self.face_size()) by (nonlinear_arith)
                requires
                    self.faces >= 1,
                    self.face_size() >= 0,
            ;
            return Err(LoadError::BufferOverrun);
        }
        assert(0 <= self.faces * self.face_size() <= 0xffff_ffff * 0xffff_ffff_ffff_ffff)
            by (nonlinear_arith)
            requires
                0 <= self.faces <= 0xffff_ffff,
                0 <= self.face_size() <= 0xffff_ffff_ffff_ffff,
        ;
        if (faces as u128) * face_size > len as u128 {
            return Err(LoadError::BufferOverrun);
        }
        let each: usize = face_size as usize;
        let mut i: u32 = 0;
        while i < faces
            invariant
                i <= faces,
                faces == self.faces,
                each == self.face_size(),
                stride == self.face_stride(),
                stride <= each,
                faces * each <= len,
                start + len <= usize::MAX,
                images@ == Seq::new(i as nat, |k: int| self.face_image(start as int, k as nat)),
            decreases faces - i,
        {
            proof {
                assert((i + 1) * each == i * each + each) by (nonlinear_arith);
                assert((i + 1) * each <= faces * each) by (nonlinear_arith)
                    requires
                        i + 1 <= faces,
                        each >= 0,
                ;
            }
            let offset = start + (i as usize) * each;
            images.push(
                Image {
                    offset,
                    len: each,
                    width: self.pixel_width,
                    height: self.pixel_height,
                    stride: Some(stride as usize),
                },
            );
            assert(images@ =~= Seq::new(
                (i + 1) as nat,
                |k: int| self.face_image(start as int, k as nat),
            ));
            i = i + 1;
        }
        Ok(images)
    }

    /// Lays out the images of a texture with this header in the `len`
    /// bytes from `start`.
    fn images(&self, start: usize, len: usize) -> (r: Result<Vec<Image>, LoadError>)
        requires
            self.spec_valid(),
            start + len <= usize::MAX,
        ensures
            match r {
                Ok(images) => self.spec_images(start as int, len as int) == Ok::<_, LoadError>(
                    images@,
                ),
                Err(e) => self.spec_images(start as int, len as int) == Err::<Seq<Image>, _>(e),
            },
    {
        match self.target() {
            Target::Texture2D => self.mip_images(start, len),
            Target::TextureCubeMap => self.face_images(start, len),
            _ => {
                let mut images: Vec<Image> = Vec::new();
                images.push(
                    Image {
                        offset: start,
                        len,
                        width: self.pixel_width,
                        height: self.pixel_height,
                        stride: None,
                    },
                );
                assert(images@ =~= seq![self.whole_image(start as int, len as int)]);
                Ok(images)
            },
        }
    }
}

/// A decoded texture: its header, what follows from it, and the file that
/// the images point into.
///
/// Every image lies within the file.
#[derive(Debug)]
pub struct Texture {
    header: Header,
    target: Target,
    mip_levels: u32,
    images: Vec<Image>,
    generate_mipmaps: bool,
    data: Vec<u8>,
}

impl View for Texture {
    type V = TextureModel;

    closed spec fn view(&self) -> TextureModel {
        TextureModel {
            header: self.header,
            target: self.target,
            mip_levels: self.mip_levels,
            images: self.images@,
            generate_mipmaps: self.generate_mipmaps,
            data: self.data@,
        }
    }
}

impl Texture {
    #[verifier::type_invariant]
    spec fn images_in_data(self) -> bool {
        self@.images_fit()
    }
}

/// The images that [`Header::spec_images`] lays out in the `len` bytes from
/// `start` lie within those bytes.
pub proof fn lemma_images_fit(h: Header, start: int, len: int)
    requires
        h.spec_valid(),
        0 <= start,
        0 <= len,
        start + len <= usize::MAX,
    ensures
        h.spec_images(start, len) matches Ok(images) ==> forall|i: int|
            0 <= i < images.len() ==> start <= (#[trigger] images[i]).offset && images[i].offset
                + images[i].len <= start + len,
{
    match h.spec_images(start, len) {
        Ok(images) => {
            assert forall|i: int| 0 <= i < images.len() implies start <= (
            #[trigger] images[i]).offset && images[i].offset + images[i].len <= start + len by {
                if h.spec_target() == Target::Texture2D {
                    let levels = h.spec_levels() as nat;
                    lemma_level_size_bound(h, i as nat);
                    lemma_levels_size_monotonic(h, i as nat, levels);
                    lemma_levels_size_monotonic(h, (i + 1) as nat, levels);
                    lemma_levels_size_monotonic(h, 0, i as nat);
                } else if h.spec_target() == Target::TextureCubeMap {
                    lemma_face_size_bound(h);
                    let size = h.face_size();
                    assert(0 <= i * size && (i + 1) * size <= h.faces * size
                        && (i + 1) * size == i * size + size) by (nonlinear_arith)
                        requires
                            0 <= i,
                            i + 1 <= h.faces,
                            0 <= size,
                    ;
                }
            }
        },
        Err(_) => {},
    }
}

/// The outcome of a decoding as a mathematical value.
pub open spec fn outcome(r: Result<Texture, LoadError>) -> Result<TextureModel, LoadError> {
    match r {
        Ok(texture) => Ok(texture@),
        Err(e) => Err(e),
    }
}

/// Decodes the texture file `bytes`.
///
/// Decoding is all or nothing: the result is the whole texture or the
/// first fault found, and depends on nothing but `bytes`.
///
/// The faults, in the order in which they are found:
/// - the file does not start with the identifier: [`LoadError::MagicError`];
/// - the file ends before its byte-order word: [`LoadError::BufferOverrun`];
/// - the byte-order word is [`FOREIGN_ENDIAN`]: [`LoadError::MagicError`];
/// - the file ends within its header: [`LoadError::BufferOverrun`];
/// - the header has no width, or a depth without a height:
///   [`LoadError::HeaderError`];
/// - the file ends within the key and value data:
///   [`LoadError::BufferOverrun`];
/// - the texture is two-dimensional or a cube map, and the channels of
///   its base internal format are not known: [`LoadError::HeaderError`];
/// - the pixel data are shorter than the mip levels, or the faces, that
///   the header claims: [`LoadError::BufferOverrun`].
pub fn load(bytes: Vec<u8>) -> (r: Result<Texture, LoadError>)
    ensures
        outcome(r) == spec_load(bytes@),
{
    let ghost file = bytes@;
    let mut reader = BufferReader::new(bytes);

    let id = match reader.pop_slice::<u8>(12) {
        Ok(id) => id,
        Err(_) => {
            return Err(LoadError::MagicError);
        },
    };
    assert(id@ =~= file.subrange(0, 12));
    if id[0] != 0xab || id[1] != 0x4b || id[2] != 0x54 || id[3] != 0x58 || id[4] != 0x20 || id[5]
        != 0x31 || id[6] != 0x31 || id[7] != 0xbb || id[8] != 0x0d || id[9] != 0x0a || id[10]
        != 0x1a || id[11] != 0x0a {
        return Err(LoadError::MagicError);
    }
    assert(id@ =~= identifier());

    let endianness = match reader.pop_value::<u32>() {
        Ok(word) => word,
        Err(e) => {
            return Err(LoadError::from(e));
        },
    };
    if endianness == FOREIGN_ENDIAN {
        return Err(LoadError::MagicError);
    }
    let header = match reader.pop_value::<Header>() {
        Ok(h) => h,
        Err(e) => {
            return Err(LoadError::from(e));
        },
    };
    if !header.valid() {
        return Err(LoadError::HeaderError);
    }
    match reader.skip_bytes(header.key_pair_bytes as usize) {
        Ok(()) => {},
        Err(e) => {
            return Err(LoadError::from(e));
        },
    }
    let start = reader.bytes_read();
    let len = reader.len() - start;
    let images = match header.images(start, len) {
        Ok(images) => images,
        Err(e) => {
            return Err(e);
        },
    };
    proof {
        lemma_images_fit(header, start as int, len as int);
    }
    let mip_levels = header.levels();
    Ok(
        Texture {
            header,
            target: header.target(),
            mip_levels,
            images,
            generate_mipmaps: mip_levels == 1,
            data: reader.into_inner(),
        },
    )
}

impl Texture {
    /// The header as it stands in the file.
    pub fn header(&self) -> (r: Header)
        ensures
            r == self@.header,
    {
        self.header
    }

    /// The kind of texture.
    pub fn target(&self) -> (r: Target)
        ensures
            r == self@.target,
    {
        self.target
    }

    /// The number of mip levels, at least 1 in a decoded texture.
    pub fn mip_levels(&self) -> (r: u32)
        ensures
            r == self@.mip_levels,
    {
        self.mip_levels
    }

    /// Whether the backend is to generate the mip chain after the upload,
    /// the file holding one level only.
    pub fn generate_mipmaps(&self) -> (r: bool)
        ensures
            r == self@.generate_mipmaps,
    {
        self.generate_mipmaps
    }

    /// The images, in file order.
    pub fn images(&self) -> (r: &[Image])
        ensures
            r@ == self@.images,
    {
        self.images.as_slice()
    }

    /// The file.
    pub fn data(&self) -> (r: &[u8])
        ensures
            r@ == self@.data,
    {
        self.data.as_slice()
    }

    /// The pixel data of image `i`: the region of the file that the image
    /// names. `None` where the texture has no image `i`.
    pub fn image_data(&self, i: usize) -> (r: Option<&[u8]>)
        ensures
            r is Some <==> i < self@.images.len(),
            r matches Some(s) ==> {
                let image = self@.images[i as int];
                image.offset + image.len <= self@.data.len() && s@ == self@.data.subrange(
                    image.offset as int,
                    image.offset + image.len,
                )
            },
    {
        proof {
            use_type_invariant(self);
        }
        if i >= self.images.len() {
            return None;
        }
        let image = self.images[i];
        let data = self.data.as_slice();
        let len = data.len();
        assert(self@.images[i as int].offset + self@.images[i as int].len <= len);
        Some(vstd::slice::slice_subrange(data, image.offset, image.offset + image.len))
    }
}

} // verus!
