use fast_image_resize::color::gamma::{gamma22_into_linear, linear_into_gamma22};
use fast_image_resize::color::srgb::{rgb_into_srgb, srgb_into_rgb};
use fast_image_resize::color::{MappingTable, MappingTablesGroup, PixelComponentMapper};
use fast_image_resize::image_view::{ImageView, MappingError, TypedImageView};
use fast_image_resize::pixels::Pixel;

fn invert_u8() -> MappingTable<u8, u8> {
    MappingTable::from_table((0..=255u8).map(|v| 255 - v).collect()).unwrap()
}

fn group(offset: u16) -> MappingTablesGroup {
    MappingTablesGroup {
        u8_u8: MappingTable::from_table((0..=255u32).map(|v| ((v + offset as u32) % 256) as u8).collect()).unwrap(),
        u8_u16: MappingTable::from_table((0..=255u32).map(|v| (v * 2) as u16).collect()).unwrap(),
        u16_u8: MappingTable::from_table((0..=65535u32).map(|v| (v / 512) as u8).collect()).unwrap(),
        u16_u16: MappingTable::from_table((0..=65535u32).map(|v| (65535 - v) as u16).collect()).unwrap(),
    }
}

fn mapper() -> PixelComponentMapper {
    PixelComponentMapper::from_tables(group(1), group(255))
}

#[test]
fn table_needs_one_value_per_input_value() {
    assert!(MappingTable::<u8, u8>::from_table(vec![0; 255]).is_none());
    assert!(MappingTable::<u8, u16>::from_table(vec![0; 256]).is_some());
    assert!(MappingTable::<u16, u8>::from_table(vec![0; 256]).is_none());
    assert!(MappingTable::<u16, u8>::from_table(vec![0; 65536]).is_some());
}

#[test]
fn map_buffers() {
    let table = invert_u8();
    assert_eq!(table.lookup(0), 255);
    let mut dst = vec![7u8; 4];
    table.map(&[0, 10, 255], &mut dst);
    assert_eq!(dst, vec![255, 245, 0, 7]);

    let mut dst = vec![7u8; 4];
    table.map_with_gaps(&[0, 10, 255, 3], &mut dst, 2);
    assert_eq!(dst, vec![255, 10, 0, 3]);

    let mut buf = vec![0u8, 10, 255];
    table.map_inplace(&mut buf);
    assert_eq!(buf, vec![255, 245, 0]);

    let mut buf = vec![0u8, 10, 255, 3];
    table.map_with_gaps_inplace(&mut buf, 4);
    assert_eq!(buf, vec![255, 245, 0, 3]);
}

#[test]
fn map_with_gaps_converts_alpha() {
    let table: MappingTable<u8, u16> = MappingTable::from_table((0..=255u32).map(|v| v as u16 * 2).collect()).unwrap();
    let mut dst = vec![0u16; 2];
    table.map_with_gaps(&[10, 1], &mut dst, 2);
    assert_eq!(dst, vec![20, 257]);
}

#[test]
fn map_pixels_keeps_alpha() {
    let table = invert_u8();
    assert_eq!(table.map_pixel(Pixel([0u8, 200])), Pixel([255u8, 200]));
    assert_eq!(table.map_pixel(Pixel([0u8, 1, 2])), Pixel([255u8, 254, 253]));
    assert_eq!(table.map_pixel(Pixel([0u8, 1, 2, 3])), Pixel([255u8, 254, 253, 3]));
    assert_eq!(table.map_pixel_inplace(Pixel([0u8, 1, 2, 3])), Pixel([255u8, 254, 253, 3]));
    assert_eq!(table.map_pixel_inplace(Pixel([9u8])), Pixel([246u8]));
}

#[test]
fn map_typed_images() {
    let table = invert_u8();
    let src = TypedImageView::from_rows(2, 1, vec![vec![Pixel([0u8, 100]), Pixel([5u8, 6])]]).unwrap();
    let mut dst = TypedImageView::filled(3, 2, Pixel([1u8, 1]));
    table.map_image_typed(&src, &mut dst);
    assert_eq!(
        dst.into_rows(),
        vec![vec![Pixel([255u8, 100]), Pixel([250u8, 6]), Pixel([1u8, 1])], vec![Pixel([1u8, 1]); 3]]
    );

    let mut image = TypedImageView::from_rows(1, 1, vec![vec![Pixel([0u8, 100])]]).unwrap();
    table.map_image_inplace_typed(&mut image);
    assert_eq!(image.row(0)[0], Pixel([255u8, 100]));
}

#[test]
fn map_dynamic_images() {
    let table = invert_u8();
    let src = ImageView::U8x3(TypedImageView::filled(1, 1, Pixel([0u8, 1, 2])));
    let mut dst = ImageView::U8x3(TypedImageView::filled(1, 1, Pixel([9u8, 9, 9])));
    assert_eq!(table.map_image(&src, &mut dst), Ok(()));
    match &dst {
        ImageView::U8x3(img) => assert_eq!(img.row(0)[0], Pixel([255u8, 254, 253])),
        _ => panic!("pixel type changed"),
    }
    let mut wrong = ImageView::U8x4(TypedImageView::filled(1, 1, Pixel([9u8, 9, 9, 9])));
    assert_eq!(table.map_image(&src, &mut wrong), Err(MappingError::UnsupportedCombinationOfImageTypes));

    let mut image = ImageView::U8(TypedImageView::filled(2, 1, Pixel([3u8])));
    assert_eq!(table.map_image_inplace(&mut image), Ok(()));
    match &image {
        ImageView::U8(img) => assert_eq!(img.row(0)[1], Pixel([252u8])),
        _ => panic!("pixel type changed"),
    }
    let mut image = ImageView::I32(TypedImageView::filled(2, 1, Pixel([3i32])));
    assert_eq!(table.map_image_inplace(&mut image), Err(MappingError::UnsupportedCombinationOfImageTypes));
}

#[test]
fn mapper_forward_and_backward() {
    let mapper = mapper();
    let src = ImageView::U8x4(TypedImageView::filled(2, 2, Pixel([0u8, 10, 255, 77])));
    let mut dst = ImageView::U8x4(TypedImageView::filled(2, 2, Pixel([0u8; 4])));
    assert_eq!(mapper.forward_map(&src, &mut dst), Ok(()));
    match &dst {
        ImageView::U8x4(img) => assert_eq!(img.row(1)[1], Pixel([1u8, 11, 0, 77])),
        _ => panic!("pixel type changed"),
    }
    assert_eq!(mapper.backward_map(&dst, &mut ImageView::U8x4(TypedImageView::filled(2, 2, Pixel([0u8; 4])))), Ok(()));

    let mut wide = ImageView::U16x4(TypedImageView::filled(2, 2, Pixel([0u16; 4])));
    assert_eq!(mapper.forward_map(&src, &mut wide), Ok(()));
    match &wide {
        ImageView::U16x4(img) => assert_eq!(img.row(0)[0], Pixel([0u16, 20, 510, 77 * 257])),
        _ => panic!("pixel type changed"),
    }
    let mut narrow = ImageView::U8x4(TypedImageView::filled(2, 2, Pixel([0u8; 4])));
    assert_eq!(mapper.forward_map(&wide, &mut narrow), Ok(()));
    match &narrow {
        ImageView::U8x4(img) => assert_eq!(img.row(0)[0], Pixel([0u8, 0, 0, 77])),
        _ => panic!("pixel type changed"),
    }

    let mut image = ImageView::U16(TypedImageView::filled(1, 1, Pixel([5u16])));
    assert_eq!(mapper.forward_map_inplace(&mut image), Ok(()));
    match &image {
        ImageView::U16(img) => assert_eq!(img.row(0)[0], Pixel([65530u16])),
        _ => panic!("pixel type changed"),
    }
    assert_eq!(mapper.backward_map_inplace(&mut image), Ok(()));
}

#[test]
fn mapper_errors() {
    let mapper = mapper();
    let src = ImageView::U8x4(TypedImageView::filled(2, 2, Pixel([0u8; 4])));
    let mut smaller = ImageView::U8x4(TypedImageView::filled(1, 2, Pixel([0u8; 4])));
    assert_eq!(mapper.forward_map(&src, &mut smaller), Err(MappingError::DifferentDimensions));
    let mut other = ImageView::U8x3(TypedImageView::filled(2, 2, Pixel([0u8; 3])));
    assert_eq!(mapper.forward_map(&src, &mut other), Err(MappingError::UnsupportedCombinationOfImageTypes));
    let mut float = ImageView::F32x4(TypedImageView::filled(2, 2, Pixel([0u32; 4])));
    assert_eq!(mapper.backward_map(&src, &mut float), Err(MappingError::UnsupportedCombinationOfImageTypes));
    let mut smaller_other = ImageView::U8x3(TypedImageView::filled(1, 1, Pixel([0u8; 3])));
    assert_eq!(mapper.forward_map(&src, &mut smaller_other), Err(MappingError::DifferentDimensions));
    let mut image = ImageView::F32(TypedImageView::filled(1, 1, Pixel([0u32])));
    assert_eq!(mapper.backward_map_inplace(&mut image), Err(MappingError::UnsupportedCombinationOfImageTypes));
}

#[test]
fn gamma_and_srgb() {
    let mapper = mapper();
    let src = ImageView::U8(TypedImageView::filled(1, 1, Pixel([4u8])));
    let mut dst = ImageView::U8(TypedImageView::filled(1, 1, Pixel([0u8])));
    assert_eq!(gamma22_into_linear(&mapper, &src, &mut dst), Ok(()));
    match &dst {
        ImageView::U8(img) => assert_eq!(img.row(0)[0], Pixel([5u8])),
        _ => panic!("pixel type changed"),
    }
    assert_eq!(linear_into_gamma22(&mapper, &dst, &mut ImageView::U8(TypedImageView::filled(1, 1, Pixel([0u8])))), Ok(()));
    assert_eq!(srgb_into_rgb(&mapper, &src, &mut dst), Err(MappingError::UnsupportedCombinationOfImageTypes));

    let src = ImageView::U8x3(TypedImageView::filled(1, 1, Pixel([4u8, 5, 6])));
    let mut dst = ImageView::U8x3(TypedImageView::filled(1, 1, Pixel([0u8; 3])));
    assert_eq!(srgb_into_rgb(&mapper, &src, &mut dst), Ok(()));
    assert_eq!(rgb_into_srgb(&mapper, &src, &mut dst), Ok(()));
    match &dst {
        ImageView::U8x3(img) => assert_eq!(img.row(0)[0], Pixel([3u8, 4, 5])),
        _ => panic!("pixel type changed"),
    }
    let mut bigger = ImageView::U8x3(TypedImageView::filled(2, 1, Pixel([0u8; 3])));
    assert_eq!(rgb_into_srgb(&mapper, &src, &mut bigger), Err(MappingError::DifferentDimensions));
}

#[test]
fn inplace_mapping_matches_mapping_into_another_image() {
    let table = invert_u8();
    let pixels = vec![vec![Pixel([0u8, 1, 2, 3]), Pixel([200u8, 100, 50, 25])]];
    let src = TypedImageView::from_rows(2, 1, pixels.clone()).unwrap();
    let mut dst = TypedImageView::filled(2, 1, Pixel([0u8; 4]));
    table.map_image_typed(&src, &mut dst);
    let mut image = TypedImageView::from_rows(2, 1, pixels).unwrap();
    table.map_image_inplace_typed(&mut image);
    assert_eq!(image.into_rows(), dst.into_rows());
}

#[test]
fn mapper_inplace_matches_mapping_into_another_image() {
    let mapper = mapper();
    let pixels = vec![vec![Pixel([0u16, 1, 65535, 9]), Pixel([300u16, 70, 5, 65535])]];
    let src = ImageView::U16x4(TypedImageView::from_rows(2, 1, pixels.clone()).unwrap());
    let mut dst = ImageView::U16x4(TypedImageView::filled(2, 1, Pixel([0u16; 4])));
    assert_eq!(mapper.forward_map(&src, &mut dst), Ok(()));
    let mut image = ImageView::U16x4(TypedImageView::from_rows(2, 1, pixels).unwrap());
    assert_eq!(mapper.forward_map_inplace(&mut image), Ok(()));
    match (dst, image) {
        (ImageView::U16x4(a), ImageView::U16x4(b)) => assert_eq!(a.into_rows(), b.into_rows()),
        _ => panic!("pixel type changed"),
    }
}
