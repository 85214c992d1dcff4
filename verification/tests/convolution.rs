use fast_image_resize::convolution::native::{horiz_convolution, vert_convolution};
use fast_image_resize::convolution::native_u16::{horiz_convolution_u16, vert_convolution_u16};
use fast_image_resize::convolution::optimisations::{get_clip_table, Normalizer16, Normalizer32};
use fast_image_resize::convolution::{Bound, CreateFilterError, NativeU8x4};
use fast_image_resize::image_view::TypedImageView;
use fast_image_resize::pixels::Pixel;

#[test]
fn clip_table() {
    let table = get_clip_table();
    assert_eq!(table.len(), 1280);
    assert_eq!(table[0], 0);
    assert_eq!(table[639], 0);
    assert_eq!(table[640], 0);
    assert_eq!(table[641], 1);
    assert_eq!(table[894], 254);
    assert_eq!(table[895], 255);
    assert_eq!(table[1279], 255);
}

#[test]
fn normalizer16_chunks() {
    let bounds = vec![Bound { start: 0, size: 2 }, Bound { start: 3, size: 5 }, Bound { start: 9, size: 1 }];
    let values: Vec<i16> = vec![1, 2, 3, 4, 5, 6, 7];
    let n = Normalizer16::from_scaled_coefficients(7, &values, 3, &bounds);
    assert_eq!(n.precision(), 7);
    assert_eq!(n.chunks_len(), 2);
    assert_eq!(n.chunks()[0].start, 0);
    assert_eq!(n.chunks()[0].values(), &[1, 2]);
    assert_eq!(n.chunks()[1].start, 3);
    assert_eq!(n.chunks()[1].values(), &[4, 5, 6]);
    let empty = Normalizer16::from_scaled_coefficients(7, &values, 0, &bounds);
    assert_eq!(empty.chunks_len(), 0);
}

#[test]
fn normalizer16_clip() {
    let n = Normalizer16::from_scaled_coefficients(8, &vec![], 1, &vec![]);
    assert_eq!(n.clip(0), 0);
    assert_eq!(n.clip(256 * 10 + 255), 10);
    assert_eq!(n.clip(-1), 0);
    assert_eq!(n.clip(-256 * 600), 0);
    assert_eq!(n.clip(256 * 300), 255);
    assert_eq!(n.clip(256 * 255), 255);
}

#[test]
fn normalizer32() {
    let bounds = vec![Bound { start: 2, size: 1 }];
    let n = Normalizer32::from_scaled_coefficients(16, &vec![65536, 0], 2, &bounds);
    assert_eq!(n.precision(), 16);
    assert_eq!(n.chunks_len(), 1);
    assert_eq!(n.chunks()[0].start, 2);
    assert_eq!(n.chunks()[0].values(), &[65536]);
    assert_eq!(n.clip(65536 * 1000), 1000);
    assert_eq!(n.clip(-5), 0);
    assert_eq!(n.clip(i64::MAX), 65535);
}

#[test]
fn horizontal_convolution() {
    let bounds = vec![Bound { start: 0, size: 2 }, Bound { start: 1, size: 2 }];
    let normalizer = Normalizer16::from_scaled_coefficients(8, &vec![128, 128, 128, 128], 2, &bounds);
    let src = TypedImageView::from_rows(3, 2, vec![vec![Pixel([10u8]), Pixel([20u8]), Pixel([30u8])], vec![Pixel([50u8]); 3]]).unwrap();
    let mut dst = TypedImageView::filled(2, 2, Pixel([0u8]));
    horiz_convolution(&src, &mut dst, 0, &normalizer);
    assert_eq!(dst.row(0).clone(), vec![Pixel([15u8]), Pixel([25u8])]);
    assert_eq!(dst.row(1).clone(), vec![Pixel([50u8]), Pixel([50u8])]);

    let mut dst = TypedImageView::filled(3, 2, Pixel([7u8]));
    horiz_convolution(&src, &mut dst, 1, &normalizer);
    assert_eq!(dst.row(0).clone(), vec![Pixel([50u8]), Pixel([50u8]), Pixel([7u8])]);
    assert_eq!(dst.row(1).clone(), vec![Pixel([7u8]); 3]);
}

#[test]
fn negative_lobes_are_clipped() {
    let bounds = vec![Bound { start: 0, size: 3 }];
    let normalizer = Normalizer16::from_scaled_coefficients(8, &vec![-64, 384, -64], 3, &bounds);
    let src = TypedImageView::from_rows(3, 1, vec![vec![Pixel([255u8, 0]), Pixel([0u8, 255]), Pixel([255u8, 0])]]).unwrap();
    let mut dst = TypedImageView::filled(1, 1, Pixel([9u8, 9]));
    horiz_convolution(&src, &mut dst, 0, &normalizer);
    assert_eq!(dst.row(0)[0], Pixel([0u8, 255]));
}

#[test]
fn vertical_convolution() {
    let bounds = vec![Bound { start: 0, size: 2 }, Bound { start: 1, size: 2 }];
    let normalizer = Normalizer16::from_scaled_coefficients(8, &vec![128, 128, 64, 192], 2, &bounds);
    let src = TypedImageView::from_rows(
        2,
        3,
        vec![
            vec![Pixel([10u8, 0, 0, 255]), Pixel([0u8; 4])],
            vec![Pixel([20u8, 0, 0, 255]), Pixel([4u8; 4])],
            vec![Pixel([40u8, 0, 0, 255]), Pixel([8u8; 4])],
        ],
    )
    .unwrap();
    let mut dst = TypedImageView::filled(2, 3, Pixel([1u8; 4]));
    NativeU8x4.vert_convolution(&src, &mut dst, &normalizer);
    assert_eq!(dst.row(0).clone(), vec![Pixel([15u8, 0, 0, 255]), Pixel([2u8; 4])]);
    assert_eq!(dst.row(1).clone(), vec![Pixel([35u8, 0, 0, 255]), Pixel([7u8; 4])]);
    assert_eq!(dst.row(2).clone(), vec![Pixel([1u8; 4]); 2]);
    let _ = vert_convolution::<4>;
}

#[test]
fn native_u8x4_horizontal() {
    let bounds = vec![Bound { start: 1, size: 1 }];
    let normalizer = Normalizer16::from_scaled_coefficients(6, &vec![64], 1, &bounds);
    let src = TypedImageView::from_rows(2, 1, vec![vec![Pixel([1u8, 2, 3, 4]), Pixel([5u8, 6, 7, 8])]]).unwrap();
    let mut dst = TypedImageView::filled(1, 1, Pixel([0u8; 4]));
    NativeU8x4.horiz_convolution(&src, &mut dst, 0, &normalizer);
    assert_eq!(dst.row(0)[0], Pixel([5u8, 6, 7, 8]));
}

#[test]
fn filter_error() {
    assert_eq!(CreateFilterError::InvalidSupport, CreateFilterError::InvalidSupport);
}

#[test]
fn flat_color_is_preserved() {
    // The coefficients of each output pixel sum to 2 ^ 8.
    let bounds = vec![Bound { start: 0, size: 3 }, Bound { start: 1, size: 3 }];
    let normalizer = Normalizer16::from_scaled_coefficients(8, &vec![-32, 320, -32, 64, 128, 64], 3, &bounds);
    let src = TypedImageView::filled(4, 1, Pixel([200u8, 0, 255, 17]));
    let mut dst = TypedImageView::filled(2, 1, Pixel([0u8; 4]));
    NativeU8x4.horiz_convolution(&src, &mut dst, 0, &normalizer);
    assert_eq!(dst.row(0).clone(), vec![Pixel([200u8, 0, 255, 17]); 2]);

    let src = TypedImageView::filled(1, 4, Pixel([200u8, 0, 255, 17]));
    let mut dst = TypedImageView::filled(1, 2, Pixel([0u8; 4]));
    NativeU8x4.vert_convolution(&src, &mut dst, &normalizer);
    assert_eq!(dst.into_rows(), vec![vec![Pixel([200u8, 0, 255, 17])]; 2]);
}

#[test]
fn weights_beyond_the_clip_table_saturate() {
    let bounds = vec![Bound { start: 0, size: 1 }, Bound { start: 1, size: 1 }];
    let normalizer = Normalizer16::from_scaled_coefficients(8, &vec![2000, -2000], 1, &bounds);
    let src = TypedImageView::from_rows(2, 1, vec![vec![Pixel([200u8, 0]), Pixel([200u8, 1])]]).unwrap();
    let mut dst = TypedImageView::filled(2, 1, Pixel([9u8, 9]));
    horiz_convolution(&src, &mut dst, 0, &normalizer);
    assert_eq!(dst.row(0).clone(), vec![Pixel([255u8, 0]), Pixel([0u8, 0])]);
}

#[test]
fn horizontal_convolution_u16() {
    let bounds = vec![Bound { start: 0, size: 2 }, Bound { start: 1, size: 2 }];
    let normalizer = Normalizer32::from_scaled_coefficients(8, &vec![128, 128, 128, 128], 2, &bounds);
    let src = TypedImageView::from_rows(
        3,
        2,
        vec![vec![Pixel([1000u16]), Pixel([2000u16]), Pixel([3000u16])], vec![Pixel([65535u16]); 3]],
    )
    .unwrap();
    let mut dst = TypedImageView::filled(2, 2, Pixel([0u16]));
    horiz_convolution_u16(&src, &mut dst, 0, &normalizer);
    assert_eq!(dst.row(0).clone(), vec![Pixel([1500u16]), Pixel([2500u16])]);
    assert_eq!(dst.row(1).clone(), vec![Pixel([65535u16]), Pixel([65535u16])]);

    let mut dst = TypedImageView::filled(3, 2, Pixel([7u16]));
    horiz_convolution_u16(&src, &mut dst, 1, &normalizer);
    assert_eq!(dst.row(0).clone(), vec![Pixel([65535u16]), Pixel([65535u16]), Pixel([7u16])]);
    assert_eq!(dst.row(1).clone(), vec![Pixel([7u16]); 3]);
}

#[test]
fn u16_results_are_clamped() {
    let bounds = vec![Bound { start: 0, size: 1 }, Bound { start: 0, size: 1 }];
    let normalizer = Normalizer32::from_scaled_coefficients(8, &vec![512, -256], 1, &bounds);
    let src = TypedImageView::from_rows(1, 1, vec![vec![Pixel([65535u16, 100])]]).unwrap();
    let mut dst = TypedImageView::filled(2, 1, Pixel([1u16, 1]));
    horiz_convolution_u16(&src, &mut dst, 0, &normalizer);
    assert_eq!(dst.row(0).clone(), vec![Pixel([65535u16, 200]), Pixel([0u16, 0])]);
}

#[test]
fn vertical_convolution_u16() {
    let bounds = vec![Bound { start: 0, size: 2 }, Bound { start: 1, size: 2 }];
    let normalizer = Normalizer32::from_scaled_coefficients(8, &vec![64, 192, 64, 192], 2, &bounds);
    let src = TypedImageView::from_rows(
        2,
        3,
        vec![
            vec![Pixel([100u16, 0, 0, 65535]), Pixel([0u16; 4])],
            vec![Pixel([200u16, 0, 0, 65535]), Pixel([4u16; 4])],
            vec![Pixel([400u16, 0, 0, 65535]), Pixel([8u16; 4])],
        ],
    )
    .unwrap();
    let mut dst = TypedImageView::filled(2, 3, Pixel([1u16; 4]));
    vert_convolution_u16(&src, &mut dst, &normalizer);
    assert_eq!(dst.row(0).clone(), vec![Pixel([175u16, 0, 0, 65535]), Pixel([3u16; 4])]);
    assert_eq!(dst.row(1).clone(), vec![Pixel([350u16, 0, 0, 65535]), Pixel([7u16; 4])]);
    assert_eq!(dst.row(2).clone(), vec![Pixel([1u16; 4]); 2]);
}

#[test]
fn flat_color_is_preserved_u16() {
    let bounds = vec![Bound { start: 0, size: 3 }];
    let normalizer = Normalizer32::from_scaled_coefficients(8, &vec![-32, 320, -32], 3, &bounds);
    let src = TypedImageView::filled(3, 3, Pixel([40000u16, 65535, 0]));
    let mut dst = TypedImageView::filled(1, 3, Pixel([1u16; 3]));
    horiz_convolution_u16(&src, &mut dst, 0, &normalizer);
    assert_eq!(dst.into_rows(), vec![vec![Pixel([40000u16, 65535, 0])]; 3]);
    let mut dst = TypedImageView::filled(3, 1, Pixel([1u16; 3]));
    vert_convolution_u16(&src, &mut dst, &normalizer);
    assert_eq!(dst.into_rows(), vec![vec![Pixel([40000u16, 65535, 0]); 3]]);
}
