use fast_image_resize::change_components_type::{change_type_of_pixel_components, change_type_of_pixel_components_typed};
use fast_image_resize::image_view::{DifferentDimensionsError, ImageView, MappingError, TypedImageView};
use fast_image_resize::pixels::{IntoPixelComponent, Pixel};

#[test]
fn component_conversions() {
    assert_eq!(IntoPixelComponent::<u16>::into_component(255u8), 65535u16);
    assert_eq!(IntoPixelComponent::<u16>::into_component(1u8), 257u16);
    assert_eq!(IntoPixelComponent::<u8>::into_component(65535u16), 255u8);
    assert_eq!(IntoPixelComponent::<u8>::into_component(511u16), 1u8);
    assert_eq!(IntoPixelComponent::<u8>::into_component(7u8), 7u8);
    for v in 0..=255u8 {
        let wide: u16 = v.into_component();
        let back: u8 = wide.into_component();
        assert_eq!(back, v);
    }
}

#[test]
fn typed_change() {
    let src = TypedImageView::from_rows(2, 1, vec![vec![Pixel([0u8, 1, 255]), Pixel([128u8, 2, 3])]]).unwrap();
    let mut dst = TypedImageView::filled(2, 1, Pixel([0u16; 3]));
    assert_eq!(change_type_of_pixel_components_typed(&src, &mut dst), Ok(()));
    assert_eq!(dst.row(0).clone(), vec![Pixel([0u16, 257, 65535]), Pixel([32896u16, 514, 771])]);
    let mut back = TypedImageView::filled(2, 1, Pixel([9u8; 3]));
    assert_eq!(change_type_of_pixel_components_typed(&dst, &mut back), Ok(()));
    assert_eq!(back.row(0).clone(), src.row(0).clone());

    let mut wrong = TypedImageView::filled(2, 2, Pixel([0u16; 3]));
    assert_eq!(change_type_of_pixel_components_typed(&src, &mut wrong), Err(DifferentDimensionsError));
    assert_eq!(wrong.row(0)[0], Pixel([0u16; 3]));
}

#[test]
fn dynamic_change() {
    let src = ImageView::U16x2(TypedImageView::filled(1, 1, Pixel([65535u16, 256])));
    let mut dst = ImageView::U8x2(TypedImageView::filled(1, 1, Pixel([0u8; 2])));
    assert_eq!(change_type_of_pixel_components(&src, &mut dst), Ok(()));
    match &dst {
        ImageView::U8x2(img) => assert_eq!(img.row(0)[0], Pixel([255u8, 1])),
        _ => panic!("pixel type changed"),
    }
    let mut other = ImageView::U8x3(TypedImageView::filled(1, 1, Pixel([0u8; 3])));
    assert_eq!(change_type_of_pixel_components(&src, &mut other), Err(MappingError::UnsupportedCombinationOfImageTypes));
    let mut bigger = ImageView::U8x2(TypedImageView::filled(2, 1, Pixel([0u8; 2])));
    assert_eq!(change_type_of_pixel_components(&src, &mut bigger), Err(MappingError::DifferentDimensions));
    let mut bigger_other = ImageView::I32(TypedImageView::filled(2, 1, Pixel([0i32])));
    assert_eq!(change_type_of_pixel_components(&src, &mut bigger_other), Err(MappingError::UnsupportedCombinationOfImageTypes));
}
