use sb6::ktx::{
    calculate_face_size, calculate_stride, channels, load, Header, Image, LoadError, Target,
    Texture, BGR, BGRA, FOREIGN_ENDIAN, RED, RG, RGB, RGBA, TEXTURE_1D, TEXTURE_1D_ARRAY,
    TEXTURE_2D, TEXTURE_2D_ARRAY, TEXTURE_3D, TEXTURE_CUBE_MAP, TEXTURE_CUBE_MAP_ARRAY,
};

const IDENTIFIER: [u8; 12] =
    [0xab, 0x4b, 0x54, 0x58, 0x20, 0x31, 0x31, 0xbb, 0x0d, 0x0a, 0x1a, 0x0a];

const UNSIGNED_BYTE: u32 = 0x1401;

const RGBA8: u32 = 0x8058;

fn header() -> Header {
    Header {
        gl_type: UNSIGNED_BYTE,
        gl_type_size: 1,
        gl_format: RGBA,
        gl_internal_format: RGBA8,
        gl_base_internal_format: RGBA,
        pixel_width: 16,
        pixel_height: 16,
        pixel_depth: 0,
        array_elements: 0,
        faces: 0,
        mip_levels: 1,
        key_pair_bytes: 0,
    }
}

fn file_with(endianness: u32, h: &Header, rest: usize) -> Vec<u8> {
    let mut out = IDENTIFIER.to_vec();
    let fields = [
        endianness,
        h.gl_type,
        h.gl_type_size,
        h.gl_format,
        h.gl_internal_format,
        h.gl_base_internal_format,
        h.pixel_width,
        h.pixel_height,
        h.pixel_depth,
        h.array_elements,
        h.faces,
        h.mip_levels,
        h.key_pair_bytes,
    ];
    for field in fields {
        out.extend_from_slice(&field.to_le_bytes());
    }
    out.extend((0..rest).map(|i| (i % 251) as u8));
    out
}

fn file(h: &Header, rest: usize) -> Vec<u8> {
    file_with(0x0403_0201, h, rest)
}

fn texture(h: &Header, rest: usize) -> Texture {
    load(file(h, rest)).unwrap()
}

fn error(bytes: Vec<u8>) -> LoadError {
    load(bytes).unwrap_err()
}

fn whole(offset: usize, len: usize, h: &Header) -> Image {
    Image { offset, len, width: h.pixel_width, height: h.pixel_height, stride: None }
}

#[test]
fn formats_and_targets_are_those_of_opengl() {
    assert_eq!(RED, gl::RED);
    assert_eq!(RG, gl::RG);
    assert_eq!(RGB, gl::RGB);
    assert_eq!(BGR, gl::BGR);
    assert_eq!(RGBA, gl::RGBA);
    assert_eq!(BGRA, gl::BGRA);
    assert_eq!(TEXTURE_1D, gl::TEXTURE_1D);
    assert_eq!(TEXTURE_1D_ARRAY, gl::TEXTURE_1D_ARRAY);
    assert_eq!(TEXTURE_2D, gl::TEXTURE_2D);
    assert_eq!(TEXTURE_2D_ARRAY, gl::TEXTURE_2D_ARRAY);
    assert_eq!(TEXTURE_CUBE_MAP, gl::TEXTURE_CUBE_MAP);
    assert_eq!(TEXTURE_CUBE_MAP_ARRAY, gl::TEXTURE_CUBE_MAP_ARRAY);
    assert_eq!(TEXTURE_3D, gl::TEXTURE_3D);
    assert_eq!(UNSIGNED_BYTE, gl::UNSIGNED_BYTE);
    assert_eq!(RGBA8, gl::RGBA8);
}

#[test]
fn targets_have_their_opengl_names() {
    assert_eq!(Target::Texture1D.gl_enum(), gl::TEXTURE_1D);
    assert_eq!(Target::Texture1DArray.gl_enum(), gl::TEXTURE_1D_ARRAY);
    assert_eq!(Target::Texture2D.gl_enum(), gl::TEXTURE_2D);
    assert_eq!(Target::Texture2DArray.gl_enum(), gl::TEXTURE_2D_ARRAY);
    assert_eq!(Target::TextureCubeMap.gl_enum(), gl::TEXTURE_CUBE_MAP);
    assert_eq!(Target::TextureCubeMapArray.gl_enum(), gl::TEXTURE_CUBE_MAP_ARRAY);
    assert_eq!(Target::Texture3D.gl_enum(), gl::TEXTURE_3D);
}

#[test]
fn channels_of_the_base_formats() {
    assert_eq!(channels(RED), Some(1));
    assert_eq!(channels(RG), Some(2));
    assert_eq!(channels(RGB), Some(3));
    assert_eq!(channels(BGR), Some(3));
    assert_eq!(channels(RGBA), Some(4));
    assert_eq!(channels(BGRA), Some(4));
    assert_eq!(channels(0), None);
    assert_eq!(channels(RGBA8), None);
    assert_eq!(channels(gl::DEPTH_COMPONENT), None);
    assert_eq!(channels(u32::MAX), None);
}

#[test]
fn empty_file_has_no_identifier() {
    assert_eq!(error(Vec::new()), LoadError::MagicError);
}

#[test]
fn file_shorter_than_the_identifier_has_none() {
    for k in 0..12 {
        assert_eq!(error(IDENTIFIER[..k].to_vec()), LoadError::MagicError);
    }
}

#[test]
fn wrong_identifier_is_rejected() {
    for i in 0..12 {
        let mut bytes = file(&header(), 1024);
        bytes[i] ^= 0x01;
        assert_eq!(error(bytes), LoadError::MagicError, "byte {i} changed");
    }
    let mut bytes = file(&header(), 1024);
    bytes[..4].copy_from_slice(b"SB6M");
    assert_eq!(error(bytes), LoadError::MagicError);
    assert_eq!(error(vec![0; 2000]), LoadError::MagicError);
}

#[test]
fn foreign_byte_order_is_rejected() {
    assert_eq!(FOREIGN_ENDIAN, 0x0102_0304);
    assert_eq!(error(file_with(FOREIGN_ENDIAN, &header(), 1024)), LoadError::MagicError);
    let mut bytes = file(&header(), 1024);
    assert!(load(bytes.clone()).is_ok());
    bytes[12..16].copy_from_slice(&[4, 3, 2, 1]);
    assert_eq!(error(bytes.clone()), LoadError::MagicError);
    bytes.truncate(16);
    assert_eq!(error(bytes), LoadError::MagicError);
    let mut broken = header();
    broken.pixel_width = 0;
    assert_eq!(error(file_with(FOREIGN_ENDIAN, &broken, 0)), LoadError::MagicError);
}

#[test]
fn any_other_byte_order_word_is_accepted() {
    assert!(load(file_with(0x0403_0201, &header(), 1024)).is_ok());
    assert!(load(file_with(0, &header(), 1024)).is_ok());
    assert!(load(file_with(u32::MAX, &header(), 1024)).is_ok());
}

#[test]
fn texture_that_ends_in_its_header_overruns() {
    let bytes = file(&header(), 0);
    assert_eq!(bytes.len(), 64);
    for k in 12..64 {
        assert_eq!(error(bytes[..k].to_vec()), LoadError::BufferOverrun, "cut after {k} bytes");
    }
}

#[test]
fn header_is_read_field_by_field() {
    let h = Header {
        gl_type: 1,
        gl_type_size: 2,
        gl_format: 3,
        gl_internal_format: 4,
        gl_base_internal_format: 5,
        pixel_width: 6,
        pixel_height: 7,
        pixel_depth: 8,
        array_elements: 9,
        faces: 10,
        mip_levels: 11,
        key_pair_bytes: 12,
    };
    let texture = texture(&h, 12);
    assert_eq!(texture.header(), h);
    assert_eq!(texture.target(), Target::Texture3D);
    assert_eq!(texture.mip_levels(), 11);
}

#[test]
fn header_without_width_is_rejected() {
    let mut h = header();
    h.pixel_width = 0;
    assert_eq!(error(file(&h, 1024)), LoadError::HeaderError);
    h.pixel_height = 0;
    assert_eq!(error(file(&h, 1024)), LoadError::HeaderError);
}

#[test]
fn header_with_depth_but_no_height_is_rejected() {
    let mut h = header();
    h.pixel_height = 0;
    h.pixel_depth = 4;
    assert_eq!(error(file(&h, 1024)), LoadError::HeaderError);
    assert!(!h.valid());
    h.pixel_depth = 0;
    assert!(h.valid());
    assert!(load(file(&h, 1024)).is_ok());
}

#[test]
fn header_fault_comes_before_overrun() {
    let mut h = header();
    h.pixel_width = 0;
    h.key_pair_bytes = 1_000_000;
    assert_eq!(error(file(&h, 0)), LoadError::HeaderError);
}

#[test]
fn target_follows_from_the_extents() {
    let table = [
        (0, 0, 0, 0, Target::Texture1D),
        (0, 0, 0, 6, Target::Texture1D),
        (0, 0, 5, 0, Target::Texture1DArray),
        (0, 0, 5, 6, Target::Texture1DArray),
        (64, 0, 0, 0, Target::Texture2D),
        (64, 0, 0, 6, Target::TextureCubeMap),
        (64, 0, 5, 0, Target::Texture2DArray),
        (64, 0, 5, 6, Target::TextureCubeMapArray),
        (64, 8, 0, 0, Target::Texture3D),
        (64, 8, 5, 0, Target::Texture3D),
        (64, 8, 0, 6, Target::Texture3D),
        (64, 8, 5, 6, Target::Texture3D),
        (1, 0, 0, 1, Target::TextureCubeMap),
        (u32::MAX, 0, u32::MAX, 0, Target::Texture2DArray),
    ];
    for (height, depth, array_elements, faces, target) in table {
        let mut h = header();
        h.pixel_width = 2;
        h.pixel_height = height;
        h.pixel_depth = depth;
        h.array_elements = array_elements;
        h.faces = faces;
        assert_eq!(h.target(), target, "{h:?}");
    }
}

#[test]
fn decoder_infers_the_target() {
    let mut h = header();
    h.pixel_width = 4;
    h.pixel_height = 0;
    assert_eq!(texture(&h, 64).target(), Target::Texture1D);
    h.array_elements = 3;
    assert_eq!(texture(&h, 64).target(), Target::Texture1DArray);
    h.pixel_height = 64;
    h.array_elements = 0;
    h.faces = 6;
    h.pixel_width = 64;
    assert_eq!(texture(&h, 6 * 64 * 64 * 4).target(), Target::TextureCubeMap);
    h.array_elements = 2;
    assert_eq!(texture(&h, 0).target(), Target::TextureCubeMapArray);
    h.faces = 0;
    assert_eq!(texture(&h, 0).target(), Target::Texture2DArray);
    h.pixel_depth = 2;
    assert_eq!(texture(&h, 0).target(), Target::Texture3D);
    h = header();
    assert_eq!(texture(&h, 1024).target(), Target::Texture2D);
}

#[test]
fn mip_levels_halve_down_to_one() {
    let mut h = header();
    h.mip_levels = 5;
    let texture = texture(&h, 1364);
    assert_eq!(texture.mip_levels(), 5);
    assert!(!texture.generate_mipmaps());
    let images = texture.images();
    assert_eq!(images.len(), 5);
    let widths: Vec<u32> = images.iter().map(|i| i.width).collect();
    let heights: Vec<u32> = images.iter().map(|i| i.height).collect();
    assert_eq!(widths, [16, 8, 4, 2, 1]);
    assert_eq!(heights, [16, 8, 4, 2, 1]);
    assert_eq!(
        images,
        &[
            Image { offset: 64, len: 1024, width: 16, height: 16, stride: Some(64) },
            Image { offset: 1088, len: 256, width: 8, height: 8, stride: Some(32) },
            Image { offset: 1344, len: 64, width: 4, height: 4, stride: Some(16) },
            Image { offset: 1408, len: 16, width: 2, height: 2, stride: Some(8) },
            Image { offset: 1424, len: 4, width: 1, height: 1, stride: Some(4) },
        ][..]
    );
}

#[test]
fn mip_levels_beyond_the_smallest_stay_at_one() {
    let mut h = header();
    h.pixel_width = 4;
    h.pixel_height = 1;
    h.gl_base_internal_format = RED;
    h.mip_levels = 6;
    let texture = texture(&h, 11);
    let extents: Vec<(u32, u32, usize)> =
        texture.images().iter().map(|i| (i.width, i.height, i.len)).collect();
    assert_eq!(extents, [(4, 1, 4), (2, 1, 2), (1, 1, 1), (1, 1, 1), (1, 1, 1), (1, 1, 1)]);
    assert_eq!(texture.images()[5].offset, 64 + 9);
}

#[test]
fn odd_extents_are_halved_rounding_down() {
    let mut h = header();
    h.pixel_width = 7;
    h.pixel_height = 5;
    h.gl_base_internal_format = RGB;
    h.gl_type_size = 2;
    h.mip_levels = 3;
    let texture = texture(&h, 210 + 36 + 6);
    assert_eq!(
        texture.images(),
        &[
            Image { offset: 64, len: 210, width: 7, height: 5, stride: Some(42) },
            Image { offset: 274, len: 36, width: 3, height: 2, stride: Some(18) },
            Image { offset: 310, len: 6, width: 1, height: 1, stride: Some(6) },
        ][..]
    );
}

#[test]
fn rows_of_a_two_dimensional_texture_are_not_padded() {
    let mut h = header();
    h.pixel_width = 3;
    h.pixel_height = 3;
    h.gl_base_internal_format = RGB;
    let texture = texture(&h, 27);
    assert_eq!(
        texture.images(),
        &[Image { offset: 64, len: 27, width: 3, height: 3, stride: Some(9) }][..]
    );
}

#[test]
fn no_mip_levels_means_one() {
    let mut h = header();
    h.mip_levels = 0;
    let texture = texture(&h, 1024);
    assert_eq!(texture.mip_levels(), 1);
    assert_eq!(texture.header().mip_levels, 0);
    assert_eq!(texture.images().len(), 1);
    assert!(texture.generate_mipmaps());
    assert_eq!(h.levels(), 1);
}

#[test]
fn mipmaps_are_to_be_generated_for_a_single_level() {
    let mut h = header();
    for (levels, generate) in [(0, true), (1, true), (2, false), (5, false)] {
        h.mip_levels = levels;
        assert_eq!(texture(&h, 2048).generate_mipmaps(), generate);
    }
    h.pixel_height = 0;
    h.mip_levels = 1;
    assert!(texture(&h, 0).generate_mipmaps());
    h.mip_levels = 7;
    assert!(!texture(&h, 0).generate_mipmaps());
}

#[test]
fn pixel_data_shorter_than_the_levels_overrun() {
    let mut h = header();
    h.mip_levels = 5;
    assert_eq!(error(file(&h, 1363)), LoadError::BufferOverrun);
    assert_eq!(error(file(&h, 1024)), LoadError::BufferOverrun);
    assert_eq!(error(file(&h, 1023)), LoadError::BufferOverrun);
    assert_eq!(error(file(&h, 0)), LoadError::BufferOverrun);
    assert!(load(file(&h, 1364)).is_ok());
    assert!(load(file(&h, 1365)).is_ok());
}

#[test]
fn texture_cut_short_anywhere_overruns() {
    let mut h = header();
    h.pixel_width = 4;
    h.pixel_height = 4;
    h.mip_levels = 3;
    h.key_pair_bytes = 8;
    let bytes = file(&h, 8 + 64 + 16 + 4);
    assert!(load(bytes.clone()).is_ok());
    for k in 12..bytes.len() {
        assert_eq!(error(bytes[..k].to_vec()), LoadError::BufferOverrun, "cut after {k} bytes");
    }
}

#[test]
fn huge_extents_overrun_and_do_not_wrap() {
    let mut h = header();
    h.pixel_width = u32::MAX;
    h.pixel_height = u32::MAX;
    h.gl_type_size = u32::MAX;
    h.mip_levels = u32::MAX;
    assert_eq!(error(file(&h, 4096)), LoadError::BufferOverrun);
    h.faces = u32::MAX;
    assert_eq!(error(file(&h, 4096)), LoadError::BufferOverrun);
    h.pixel_width = 0x4000_0000;
    h.pixel_height = 1;
    h.gl_type_size = 1;
    h.faces = 0;
    h.mip_levels = 1;
    assert_eq!(error(file(&h, 4096)), LoadError::BufferOverrun);
}

#[test]
fn bytes_behind_the_levels_are_ignored() {
    let texture = texture(&header(), 5000);
    assert_eq!(
        texture.images(),
        &[Image { offset: 64, len: 1024, width: 16, height: 16, stride: Some(64) }][..]
    );
    assert_eq!(texture.data().len(), 5064);
}

#[test]
fn key_and_value_data_are_skipped() {
    let mut h = header();
    h.key_pair_bytes = 28;
    h.mip_levels = 2;
    let bytes = file(&h, 28 + 1024 + 256);
    let texture = load(bytes.clone()).unwrap();
    assert_eq!(texture.images()[0].offset, 92);
    assert_eq!(texture.images()[1].offset, 92 + 1024);
    assert_eq!(texture.image_data(0), Some(&bytes[92..1116]));
    assert_eq!(texture.image_data(1), Some(&bytes[1116..1372]));
    assert_eq!(texture.image_data(2), None);
}

#[test]
fn key_and_value_data_beyond_the_file_overrun() {
    let mut h = header();
    h.key_pair_bytes = 28;
    assert_eq!(error(file(&h, 27)), LoadError::BufferOverrun);
    assert_eq!(error(file(&h, 0)), LoadError::BufferOverrun);
    h.key_pair_bytes = u32::MAX;
    assert_eq!(error(file(&h, 4096)), LoadError::BufferOverrun);
    h.pixel_height = 0;
    h.key_pair_bytes = 28;
    assert_eq!(error(file(&h, 27)), LoadError::BufferOverrun);
    assert_eq!(texture(&h, 28).images(), &[whole(92, 0, &h)][..]);
}

#[test]
fn unknown_base_format_of_a_two_dimensional_texture_is_rejected() {
    let mut h = header();
    h.gl_base_internal_format = RGBA8;
    assert_eq!(error(file(&h, 1024)), LoadError::HeaderError);
    assert_eq!(error(file(&h, 0)), LoadError::HeaderError);
    h.gl_base_internal_format = 0;
    h.faces = 6;
    assert_eq!(error(file(&h, 6 * 1024)), LoadError::HeaderError);
    assert_eq!(error(file(&h, 0)), LoadError::HeaderError);
}

#[test]
fn unknown_base_format_does_not_matter_where_rows_are_not_laid_out() {
    let mut h = header();
    h.gl_base_internal_format = 0;
    h.pixel_height = 0;
    assert_eq!(texture(&h, 64).images(), &[whole(64, 64, &h)][..]);
    h.pixel_height = 16;
    h.pixel_depth = 16;
    assert_eq!(texture(&h, 10).images(), &[whole(64, 10, &h)][..]);
    h.pixel_depth = 0;
    h.array_elements = 4;
    assert_eq!(texture(&h, 10).images(), &[whole(64, 10, &h)][..]);
    h.faces = 6;
    assert_eq!(texture(&h, 10).images(), &[whole(64, 10, &h)][..]);
}

#[test]
fn cube_map_has_one_image_for_each_face() {
    let mut h = header();
    h.pixel_width = 3;
    h.pixel_height = 3;
    h.gl_base_internal_format = RGB;
    h.faces = 6;
    h.mip_levels = 4;
    let bytes = file(&h, 216);
    let texture = load(bytes.clone()).unwrap();
    assert_eq!(texture.target(), Target::TextureCubeMap);
    assert_eq!(texture.mip_levels(), 4);
    let faces: Vec<Image> = (0..6)
        .map(|i| Image { offset: 64 + 36 * i, len: 36, width: 3, height: 3, stride: Some(12) })
        .collect();
    assert_eq!(texture.images(), &faces[..]);
    assert_eq!(texture.image_data(5), Some(&bytes[244..280]));
    assert_eq!(texture.image_data(6), None);
}

#[test]
fn cube_map_with_too_few_faces_in_the_file_overruns() {
    let mut h = header();
    h.pixel_width = 3;
    h.pixel_height = 3;
    h.gl_base_internal_format = RGB;
    h.faces = 6;
    assert_eq!(error(file(&h, 215)), LoadError::BufferOverrun);
    assert_eq!(error(file(&h, 35)), LoadError::BufferOverrun);
    assert_eq!(error(file(&h, 0)), LoadError::BufferOverrun);
    assert!(load(file(&h, 216)).is_ok());
    assert!(load(file(&h, 217)).is_ok());
}

#[test]
fn cube_map_takes_as_many_faces_as_the_header_says() {
    let mut h = header();
    h.pixel_width = 2;
    h.pixel_height = 2;
    h.gl_base_internal_format = RG;
    h.faces = 2;
    assert_eq!(
        texture(&h, 16).images(),
        &[
            Image { offset: 64, len: 8, width: 2, height: 2, stride: Some(4) },
            Image { offset: 72, len: 8, width: 2, height: 2, stride: Some(4) },
        ][..]
    );
}

#[test]
fn other_textures_have_all_pixel_data_as_one_image() {
    let mut h = header();
    h.pixel_height = 0;
    h.key_pair_bytes = 4;
    let bytes = file(&h, 100);
    let texture = load(bytes.clone()).unwrap();
    assert_eq!(texture.images(), &[whole(68, 96, &h)][..]);
    assert_eq!(texture.image_data(0), Some(&bytes[68..]));
    h.array_elements = 2;
    assert_eq!(load(file(&h, 100)).unwrap().images(), &[whole(68, 96, &h)][..]);
    h.pixel_height = 16;
    assert_eq!(load(file(&h, 100)).unwrap().images(), &[whole(68, 96, &h)][..]);
    h.faces = 6;
    assert_eq!(load(file(&h, 100)).unwrap().images(), &[whole(68, 96, &h)][..]);
    h.pixel_depth = 3;
    assert_eq!(load(file(&h, 4)).unwrap().images(), &[whole(68, 0, &h)][..]);
}

#[test]
fn stride_is_the_row_padded_to_the_alignment() {
    let mut h = header();
    h.gl_base_internal_format = RGB;
    assert_eq!(calculate_stride(&h, 3, 1), Ok(9));
    assert_eq!(calculate_stride(&h, 3, 2), Ok(10));
    assert_eq!(calculate_stride(&h, 3, 4), Ok(12));
    assert_eq!(calculate_stride(&h, 3, 8), Ok(16));
    assert_eq!(calculate_stride(&h, 4, 4), Ok(12));
    assert_eq!(calculate_stride(&h, 0, 4), Ok(0));
    h.gl_type_size = 4;
    h.gl_base_internal_format = BGRA;
    assert_eq!(calculate_stride(&h, 17, 1), Ok(272));
    assert_eq!(calculate_stride(&h, 17, 4), Ok(272));
    h.gl_type_size = 2;
    h.gl_base_internal_format = RED;
    assert_eq!(calculate_stride(&h, 5, 4), Ok(12));
    h.gl_base_internal_format = RG;
    assert_eq!(calculate_stride(&h, 5, 8), Ok(24));
    h.gl_base_internal_format = BGR;
    assert_eq!(calculate_stride(&h, 5, 4), Ok(32));
    h.gl_base_internal_format = RGBA;
    assert_eq!(calculate_stride(&h, 5, 1), Ok(40));
}

#[test]
fn alignment_that_is_no_power_of_two_is_masked_all_the_same() {
    let mut h = header();
    h.gl_base_internal_format = RGB;
    assert_eq!(calculate_stride(&h, 3, 3), Ok((9 + 2) & !2));
    assert_eq!(calculate_stride(&h, 3, 3), Ok(9));
    assert_eq!(calculate_stride(&h, 3, 6), Ok(10));
}

#[test]
fn stride_of_the_largest_row_does_not_wrap() {
    let mut h = header();
    h.gl_type_size = u32::MAX;
    let row = 4 * (u32::MAX as u128) * (u32::MAX as u128);
    assert_eq!(calculate_stride(&h, u32::MAX, 1), Ok(row));
    assert_eq!(calculate_stride(&h, u32::MAX, 4), Ok(row));
    assert_eq!(calculate_stride(&h, u32::MAX, 8), Ok(row + 4));
    h.pixel_width = u32::MAX;
    h.pixel_height = u32::MAX;
    assert_eq!(calculate_face_size(&h), Ok(row * u32::MAX as u128));
}

#[test]
fn stride_of_an_unknown_base_format_is_a_header_fault() {
    let mut h = header();
    h.gl_base_internal_format = RGBA8;
    assert_eq!(calculate_stride(&h, 3, 4), Err(LoadError::HeaderError));
    assert_eq!(calculate_face_size(&h), Err(LoadError::HeaderError));
}

#[test]
fn face_size_is_the_padded_row_times_the_height() {
    let mut h = header();
    assert_eq!(calculate_face_size(&h), Ok(1024));
    h.pixel_width = 3;
    h.pixel_height = 5;
    h.gl_base_internal_format = RGB;
    assert_eq!(calculate_face_size(&h), Ok(60));
    h.pixel_height = 0;
    assert_eq!(calculate_face_size(&h), Ok(0));
}

#[test]
fn image_data_are_the_bytes_of_the_file() {
    let mut h = header();
    h.pixel_width = 2;
    h.pixel_height = 2;
    h.gl_base_internal_format = RED;
    h.mip_levels = 2;
    let bytes = file(&h, 5);
    let texture = load(bytes.clone()).unwrap();
    assert_eq!(texture.data(), &bytes[..]);
    assert_eq!(texture.image_data(0), Some(&[0u8, 1, 2, 3][..]));
    assert_eq!(texture.image_data(1), Some(&[4u8][..]));
    assert_eq!(texture.image_data(2), None);
    assert_eq!(texture.image_data(usize::MAX), None);
}

#[test]
fn decoding_a_texture_twice_gives_the_same() {
    let mut h = header();
    h.mip_levels = 3;
    h.key_pair_bytes = 12;
    let bytes = file(&h, 12 + 1024 + 256 + 64);
    let first = load(bytes.clone()).unwrap();
    let second = load(bytes.clone()).unwrap();
    assert_eq!(first.header(), second.header());
    assert_eq!(first.target(), second.target());
    assert_eq!(first.mip_levels(), second.mip_levels());
    assert_eq!(first.generate_mipmaps(), second.generate_mipmaps());
    assert_eq!(first.images(), second.images());
    assert_eq!(first.data(), second.data());
    let mut broken = bytes;
    broken.truncate(700);
    assert_eq!(error(broken.clone()), error(broken));
}
