//! What holds of every texture file: which files are rejected and why,
//! which are decoded, and how the images of a decoded texture lie.

use crate::ktx::{
    identifier, lemma_face_size_bound, lemma_images_fit, lemma_level_extent_positive,
    lemma_level_size_bound, lemma_levels_size_monotonic, level_extent, outcome, padded,
    spec_channels, spec_load, Texture,
    Header, LoadError, Target, TextureModel, FOREIGN_ENDIAN,
};
use crate::reader::{le_u32, lemma_record_in_prefix, record_at, starts_with};
use vstd::arithmetic::div_mod::lemma_div_denominator;
use vstd::arithmetic::power2::{lemma_pow2_pos, lemma_pow2_unfold, pow2};
use vstd::prelude::*;

verus! {

/// A file that does not start with the identifier is rejected for that,
/// however long or short it is and whatever else it holds.
pub proof fn lemma_identifier_required(bytes: Seq<u8>)
    requires
        !starts_with(bytes, identifier()),
    ensures
        spec_load(bytes) == Err::<TextureModel, _>(LoadError::MagicError),
{
}

/// Decoding is a function of the bytes: two decodings of the same bytes
/// give the same texture, or the same fault.
pub proof fn lemma_load_deterministic(
    bytes: Seq<u8>,
    first: Result<Texture, LoadError>,
    second: Result<Texture, LoadError>,
)
    requires
        outcome(first) == spec_load(bytes),
        outcome(second) == spec_load(bytes),
    ensures
        outcome(first) == outcome(second),
{
}

/// The byte-order word of a file in the foreign byte order: the bytes 4,
/// 3, 2, 1 in that order.
pub proof fn lemma_foreign_endian_bytes(bytes: Seq<u8>)
    requires
        bytes.len() >= 16,
    ensures
        le_u32(bytes, 12) == FOREIGN_ENDIAN <==> bytes[12] == 4 && bytes[13] == 3 && bytes[14]
            == 2 && bytes[15] == 1,
{
}

/// A file in the foreign byte order is rejected like one without the
/// identifier, whether or not the rest of it is a well-formed texture.
pub proof fn lemma_foreign_endian_rejected(bytes: Seq<u8>)
    requires
        bytes.len() >= 16,
        le_u32(bytes, 12) == FOREIGN_ENDIAN,
    ensures
        spec_load(bytes) == Err::<TextureModel, _>(LoadError::MagicError),
{
}

/// The kind of a texture, row by row: a texture without a height is
/// one-dimensional; one with a height and without a depth is
/// two-dimensional or a cube map; one with both is three-dimensional. The
/// first two are arrays where the header counts array elements, and a
/// cube map is what has faces.
pub proof fn lemma_target_table(h: Header)
    ensures
        h.pixel_height == 0 && h.array_elements == 0 ==> h.spec_target() == Target::Texture1D,
        h.pixel_height == 0 && h.array_elements != 0 ==> h.spec_target()
            == Target::Texture1DArray,
        h.pixel_height != 0 && h.pixel_depth == 0 && h.array_elements == 0 && h.faces == 0
            ==> h.spec_target() == Target::Texture2D,
        h.pixel_height != 0 && h.pixel_depth == 0 && h.array_elements == 0 && h.faces != 0
            ==> h.spec_target() == Target::TextureCubeMap,
        h.pixel_height != 0 && h.pixel_depth == 0 && h.array_elements != 0 && h.faces == 0
            ==> h.spec_target() == Target::Texture2DArray,
        h.pixel_height != 0 && h.pixel_depth == 0 && h.array_elements != 0 && h.faces != 0
            ==> h.spec_target() == Target::TextureCubeMapArray,
        h.pixel_height != 0 && h.pixel_depth != 0 ==> h.spec_target() == Target::Texture3D,
{
}

/// Bytes of pixel data that a header claims: all mip levels of a
/// two-dimensional texture, all faces of a cube map, and nothing for the
/// textures whose pixel data are taken whole.
pub open spec fn claimed_pixel_bytes(h: Header) -> int {
    match h.spec_target() {
        Target::Texture2D => h.levels_size(h.spec_levels() as nat),
        Target::TextureCubeMap => h.faces * h.face_size(),
        _ => 0,
    }
}

/// Length that a header claims for its file: identifier, byte-order word
/// and header, the key and value data, and the pixel data.
pub open spec fn claimed_len(h: Header) -> int {
    64 + h.key_pair_bytes + claimed_pixel_bytes(h)
}

/// Whether the images of a texture with header `h` can be laid out: the
/// channels of the base internal format are known, where rows are laid
/// out at all.
pub open spec fn layout_known(h: Header) -> bool {
    (h.spec_target() == Target::Texture2D || h.spec_target() == Target::TextureCubeMap)
        ==> spec_channels(h.gl_base_internal_format) is Some
}

/// A file that is cut short is rejected as overrun: one that ends within
/// its header, and one with a sound header that claims more bytes than
/// the file has. Nothing is read past the end and nothing is returned.
pub proof fn lemma_short_file_overruns(bytes: Seq<u8>)
    requires
        starts_with(bytes, identifier()),
        bytes.len() >= 16 ==> le_u32(bytes, 12) != FOREIGN_ENDIAN,
        bytes.len() >= 64 ==> {
            let h = record_at::<Header>(bytes, 16);
            h.spec_valid() && layout_known(h) && bytes.len() < claimed_len(h)
        },
    ensures
        spec_load(bytes) == Err::<TextureModel, _>(LoadError::BufferOverrun),
{
}

/// A file that is decoded is no longer decoded when it is cut short: cut
/// off anywhere behind the identifier and before the last byte its header
/// claims, it is rejected as overrun.
pub proof fn lemma_truncated_file_overruns(bytes: Seq<u8>, k: int)
    requires
        spec_load(bytes) is Ok,
        12 <= k < claimed_len(record_at::<Header>(bytes, 16)),
    ensures
        claimed_len(record_at::<Header>(bytes, 16)) <= bytes.len(),
        spec_load(bytes.subrange(0, k)) == Err::<TextureModel, _>(LoadError::BufferOverrun),
{
    let cut = bytes.subrange(0, k);
    assert(cut.subrange(0, 12) =~= bytes.subrange(0, 12));
    if k >= 64 {
        lemma_record_in_prefix::<Header>(bytes, k, 16);
    }
    lemma_short_file_overruns(cut);
}

/// A file with the identifier, in the native byte order, with a sound
/// header whose layout is known, and at least as long as its header
/// claims, is decoded.
pub proof fn lemma_whole_file_decodes(bytes: Seq<u8>)
    requires
        starts_with(bytes, identifier()),
        bytes.len() >= 64,
        le_u32(bytes, 12) != FOREIGN_ENDIAN,
        record_at::<Header>(bytes, 16).spec_valid(),
        layout_known(record_at::<Header>(bytes, 16)),
        bytes.len() >= claimed_len(record_at::<Header>(bytes, 16)),
    ensures
        spec_load(bytes) is Ok,
{
    let h = record_at::<Header>(bytes, 16);
    lemma_levels_size_monotonic(h, 0, h.spec_levels() as nat);
    lemma_face_size_bound(h);
    assert(0 <= h.faces * h.face_size()) by (nonlinear_arith)
        requires
            0 <= h.faces,
            0 <= h.face_size(),
    ;
}

/// What a decoded texture holds: the file, the header as it stands in the
/// file, the kind that follows from the header, at least one mip level,
/// the request to generate the mip chain exactly where the file holds one
/// level, and at least one image, each within the file.
pub proof fn lemma_decoded_texture(bytes: Seq<u8>)
    requires
        bytes.len() <= usize::MAX,
    ensures
        spec_load(bytes) matches Ok(t) ==> {
            &&& t.data == bytes
            &&& t.header == record_at::<Header>(bytes, 16)
            &&& t.header.spec_valid()
            &&& t.target == t.header.spec_target()
            &&& t.mip_levels >= 1
            &&& t.mip_levels == t.header.mip_levels || t.header.mip_levels == 0
            &&& t.generate_mipmaps == (t.mip_levels == 1)
            &&& t.images.len() >= 1
            &&& t.images_fit()
        },
{
    match spec_load(bytes) {
        Ok(t) => {
            let start = 64 + t.header.key_pair_bytes;
            lemma_images_fit(t.header, start, bytes.len() - start);
        },
        Err(_) => {},
    }
}

/// Of a mip level that lies, with all levels of the texture, within a file
/// of `len` bytes: where it starts and ends, and how its stride and size
/// come about.
proof fn lemma_level_facts(h: Header, start: int, len: int, level: nat)
    requires
        h.pixel_width >= 1,
        h.pixel_height >= 1,
        spec_channels(h.gl_base_internal_format) is Some,
        level < h.spec_levels(),
        0 <= start,
        start + h.levels_size(h.spec_levels() as nat) <= len,
    ensures
        0 <= h.levels_size(level) <= h.levels_size(level + 1) <= len - start,
        h.level_size(level) == h.levels_size(level + 1) - h.levels_size(level),
        0 <= h.level_stride(level) <= h.level_size(level),
        1 <= level_extent(h.pixel_width, level),
        1 <= level_extent(h.pixel_height, level),
        h.level_stride(level) == h.row_bytes(
            spec_channels(h.gl_base_internal_format).unwrap(),
            level_extent(h.pixel_width, level),
        ),
{
    let channels = spec_channels(h.gl_base_internal_format).unwrap();
    let width = level_extent(h.pixel_width, level);
    lemma_levels_size_monotonic(h, level, level + 1);
    lemma_levels_size_monotonic(h, level + 1, h.spec_levels() as nat);
    lemma_level_size_bound(h, level);
    lemma_level_extent_positive(h.pixel_width, level);
    lemma_level_extent_positive(h.pixel_height, level);
    crate::ktx::lemma_row_bytes_bound(h, channels, width);
}

/// The mip chain of a decoded two-dimensional texture: one image for each
/// level, the first right behind the key and value data and each next one
/// right behind the one before; each level half as wide and as high as
/// the one before, and none without a width or a height.
pub proof fn lemma_mip_chain(bytes: Seq<u8>)
    requires
        bytes.len() <= usize::MAX,
    ensures
        spec_load(bytes) matches Ok(t) ==> t.target == Target::Texture2D ==> {
            &&& t.images.len() == t.mip_levels
            &&& t.images[0].offset == 64 + t.header.key_pair_bytes
            &&& t.images[0].width == t.header.pixel_width
            &&& t.images[0].height == t.header.pixel_height
            &&& forall|i: int|
                0 <= i < t.images.len() ==> {
                    &&& (#[trigger] t.images[i]).width == level_extent(
                        t.header.pixel_width,
                        i as nat,
                    )
                    &&& t.images[i].height == level_extent(t.header.pixel_height, i as nat)
                    &&& t.images[i].width >= 1
                    &&& t.images[i].height >= 1
                    &&& t.images[i].stride == Some(
                        (t.header.gl_type_size * spec_channels(
                            t.header.gl_base_internal_format,
                        ).unwrap() * t.images[i].width) as usize,
                    )
                    &&& t.images[i].len == t.images[i].stride.unwrap() * t.images[i].height
                }
            &&& forall|i: int|
                0 <= i && i + 1 < t.images.len() ==> (#[trigger] t.images[i + 1]).offset
                    == t.images[i].offset + t.images[i].len
        },
{
    match spec_load(bytes) {
        Ok(t) => {
            if t.target == Target::Texture2D {
                let h = t.header;
                let start = 64 + h.key_pair_bytes;
                let levels = h.spec_levels() as nat;
                assert(t.images[0] == h.level_image(start, 0));
                assert forall|i: int| 0 <= i < t.images.len() implies {
                    &&& (#[trigger] t.images[i]).width == level_extent(h.pixel_width, i as nat)
                    &&& t.images[i].height == level_extent(h.pixel_height, i as nat)
                    &&& t.images[i].width >= 1
                    &&& t.images[i].height >= 1
                    &&& t.images[i].stride == Some(
                        (h.gl_type_size * spec_channels(h.gl_base_internal_format).unwrap()
                            * t.images[i].width) as usize,
                    )
                    &&& t.images[i].len == t.images[i].stride.unwrap() * t.images[i].height
                } by {
                    lemma_level_facts(h, start, bytes.len() as int, i as nat);
                    assert(t.images[i] == h.level_image(start, i as nat));
                }
                assert forall|i: int| 0 <= i && i + 1 < t.images.len() implies (
                #[trigger] t.images[i + 1]).offset == t.images[i].offset + t.images[i].len by {
                    lemma_level_facts(h, start, bytes.len() as int, i as nat);
                    lemma_level_facts(h, start, bytes.len() as int, (i + 1) as nat);
                    assert(t.images[i] == h.level_image(start, i as nat));
                    assert(t.images[i + 1] == h.level_image(start, (i + 1) as nat));
                }
            }
        },
        Err(_) => {},
    }
}

/// The faces of a decoded cube map: one image for each face, all as wide
/// and as high as the header says and all of one size, the first right
/// behind the key and value data and each next one right behind the one
/// before.
pub proof fn lemma_cube_faces(bytes: Seq<u8>)
    requires
        bytes.len() <= usize::MAX,
    ensures
        spec_load(bytes) matches Ok(t) ==> t.target == Target::TextureCubeMap ==> {
            &&& t.images.len() == t.header.faces
            &&& forall|i: int|
                0 <= i < t.images.len() ==> {
                    &&& (#[trigger] t.images[i]).offset == 64 + t.header.key_pair_bytes + i
                        * t.header.face_size()
                    &&& t.images[i].len == t.header.face_size()
                    &&& t.images[i].width == t.header.pixel_width
                    &&& t.images[i].height == t.header.pixel_height
                    &&& t.images[i].stride == Some(t.header.face_stride() as usize)
                    &&& t.images[i].stride.unwrap() % 4 == 0
                    &&& t.images[i].len == t.images[i].stride.unwrap() * t.images[i].height
                }
        },
{
    match spec_load(bytes) {
        Ok(t) => {
            if t.target == Target::TextureCubeMap {
                let h = t.header;
                let start = 64 + h.key_pair_bytes;
                let size = h.face_size();
                lemma_face_size_bound(h);
                assert forall|i: int| 0 <= i < t.images.len() implies {
                    &&& (#[trigger] t.images[i]).offset == start + i * size
                    &&& t.images[i].len == size
                    &&& t.images[i].width == h.pixel_width
                    &&& t.images[i].height == h.pixel_height
                    &&& t.images[i].stride == Some(h.face_stride() as usize)
                    &&& t.images[i].stride.unwrap() % 4 == 0
                    &&& t.images[i].len == t.images[i].stride.unwrap() * t.images[i].height
                } by {
                    assert(t.images[i] == h.face_image(start, i as nat));
                    assert(0 <= i * size && (i + 1) * size <= h.faces * size && (i + 1) * size
                        == i * size + size) by (nonlinear_arith)
                        requires
                            0 <= i,
                            i + 1 <= h.faces,
                            0 <= size,
                    ;
                }
            }
        },
        Err(_) => {},
    }
}

/// Whether `pad` is a power of two.
pub open spec fn is_power_of_two(pad: u128) -> bool {
    pad != 0 && pad & ((pad - 1) as u128) == 0
}

/// At an alignment that is a power of two, padding rounds up to the next
/// multiple of the alignment: the padded size has none of the bits below
/// the alignment set, is not below the size, and is less than one
/// alignment above it.
pub proof fn lemma_padded_rounds_up(size: u128, pad: u128)
    requires
        is_power_of_two(pad),
        size <= 0xffff_ffff_ffff_ffff_ffff_ffff,
        pad <= 0xffff_ffff_ffff_ffff,
    ensures
        padded(size, pad) & ((pad - 1) as u128) == 0,
        size <= padded(size, pad) < size + pad,
{
    let p = padded(size, pad);
    let mask = (pad - 1) as u128;
    assert(p & mask == 0) by (bit_vector)
        requires
            p == ((size + mask) as u128) & !mask,
    ;
    assert(size <= p && p < size + pad) by (bit_vector)
        requires
            p == ((size + mask) as u128) & !mask,
            mask == (pad - 1) as u128,
            pad != 0,
            pad & mask == 0,
            size <= 0xffff_ffff_ffff_ffff_ffff_ffff,
            pad <= 0xffff_ffff_ffff_ffff,
    ;
}

/// The extent of a mip level in closed form: the extent of level 0
/// divided by two to the power of the level, rounded down, but not less
/// than 1.
pub proof fn lemma_level_extent_closed_form(extent: u32, level: nat)
    requires
        extent >= 1,
    ensures
        pow2(level) > 0,
        level_extent(extent, level) == (if extent as int / pow2(level) as int == 0 {
            1
        } else {
            extent as int / pow2(level) as int
        }),
    decreases level,
{
    lemma_pow2_pos(level);
    if level == 0 {
        assert(pow2(0) == 1) by {
            vstd::arithmetic::power2::lemma2_to64();
        }
    } else {
        let before = (level - 1) as nat;
        lemma_level_extent_closed_form(extent, before);
        lemma_pow2_unfold(level);
        lemma_div_denominator(extent as int, pow2(before) as int, 2);
        assert(pow2(before) as int * 2 == pow2(level) as int);
    }
}

} // verus!
