use fast_image_resize::alpha::common::{div_and_clip, get_recip_alpha_array, mul_div_255, recip_alpha};
use fast_image_resize::alpha::u8x4::{
    divide_alpha, divide_alpha_inplace, divide_alpha_pixel, divide_alpha_row, divide_alpha_row_inplace,
    multiply_alpha, multiply_alpha_inplace, multiply_alpha_pixel, multiply_alpha_row,
    multiply_alpha_row_inplace,
};
use fast_image_resize::image_view::TypedImageView;
use fast_image_resize::pixels::{Pixel, U8x4};

fn px(c: [u8; 4]) -> U8x4 {
    Pixel(c)
}

#[test]
fn mul_div_255_rounds_to_nearest() {
    assert_eq!(mul_div_255(255, 255), 255);
    assert_eq!(mul_div_255(0, 255), 0);
    assert_eq!(mul_div_255(128, 255), 128);
    assert_eq!(mul_div_255(100, 128), 50);
    assert_eq!(mul_div_255(1, 128), 1);
    assert_eq!(mul_div_255(1, 127), 0);
    for a in 0..=255u32 {
        for b in 0..=255u32 {
            let expected = ((a * b) as f64 / 255.0 + 0.5).floor() as u8;
            assert_eq!(mul_div_255(a as u8, b as u8), expected, "{} * {}", a, b);
        }
    }
}

#[test]
fn recip_alpha_values() {
    assert_eq!(recip_alpha(0), 0);
    assert_eq!(recip_alpha(1), 65280);
    assert_eq!(recip_alpha(128), 510);
    assert_eq!(recip_alpha(255), 256);
    let table = get_recip_alpha_array();
    assert_eq!(table.len(), 256);
    for a in 0..=255u8 {
        assert_eq!(table[a as usize], recip_alpha(a));
    }
}

#[test]
fn div_and_clip_clips_to_255() {
    assert_eq!(div_and_clip(64, 510), 127);
    assert_eq!(div_and_clip(128, 510), 255);
    assert_eq!(div_and_clip(200, 510), 255);
    assert_eq!(div_and_clip(200, 0), 0);
}

#[test]
fn multiply_pixel() {
    assert_eq!(multiply_alpha_pixel(px([255, 128, 0, 128])), px([128, 64, 0, 128]));
    assert_eq!(multiply_alpha_pixel(px([10, 20, 30, 255])), px([10, 20, 30, 255]));
    assert_eq!(multiply_alpha_pixel(px([10, 20, 30, 0])), px([0, 0, 0, 0]));
}

#[test]
fn divide_pixel() {
    assert_eq!(divide_alpha_pixel(px([128, 64, 0, 128])), px([255, 127, 0, 128]));
    assert_eq!(divide_alpha_pixel(px([10, 20, 30, 255])), px([10, 20, 30, 255]));
    assert_eq!(divide_alpha_pixel(px([10, 20, 30, 0])), px([0, 0, 0, 0]));
    assert_eq!(divide_alpha_pixel(px([200, 20, 30, 100])), px([255, 51, 76, 100]));
}

#[test]
fn premultiplied_components_do_not_exceed_alpha() {
    for a in 0..=255u8 {
        let p = multiply_alpha_pixel(px([255, 200, 17, a]));
        assert!(p.0[0] <= a && p.0[1] <= a && p.0[2] <= a);
        assert_eq!(p.0[3], a);
    }
}

#[test]
fn opaque_pixels_roundtrip() {
    let p = px([1, 2, 3, 255]);
    assert_eq!(divide_alpha_pixel(multiply_alpha_pixel(p)), p);
}

#[test]
fn rows_are_processed_as_far_as_the_shorter_goes() {
    let src = vec![px([255, 128, 0, 128]), px([10, 20, 30, 0])];
    let mut dst = vec![px([1, 1, 1, 1]); 3];
    multiply_alpha_row(&src, &mut dst);
    assert_eq!(dst, vec![px([128, 64, 0, 128]), px([0, 0, 0, 0]), px([1, 1, 1, 1])]);

    let mut dst = vec![px([9, 9, 9, 9]); 1];
    divide_alpha_row(&[px([128, 64, 0, 128]), px([1, 1, 1, 1])], &mut dst);
    assert_eq!(dst, vec![px([255, 127, 0, 128])]);

    let mut row = vec![px([255, 128, 0, 128]), px([10, 20, 30, 255])];
    multiply_alpha_row_inplace(&mut row);
    assert_eq!(row, vec![px([128, 64, 0, 128]), px([10, 20, 30, 255])]);
    divide_alpha_row_inplace(&mut row);
    assert_eq!(row, vec![px([255, 127, 0, 128]), px([10, 20, 30, 255])]);
}

#[test]
fn images() {
    let src = TypedImageView::from_rows(
        2,
        2,
        vec![
            vec![px([255, 128, 0, 128]), px([10, 20, 30, 255])],
            vec![px([10, 20, 30, 0]), px([100, 100, 100, 51])],
        ],
    )
    .unwrap();
    let mut dst = TypedImageView::filled(3, 1, px([7, 7, 7, 7]));
    multiply_alpha(&src, &mut dst);
    let rows = dst.into_rows();
    assert_eq!(rows, vec![vec![px([128, 64, 0, 128]), px([10, 20, 30, 255]), px([7, 7, 7, 7])]]);

    let mut image = TypedImageView::from_rows(1, 2, vec![vec![px([100, 100, 100, 51])], vec![px([255, 255, 255, 0])]]).unwrap();
    multiply_alpha_inplace(&mut image);
    assert_eq!(image.row(0)[0], px([20, 20, 20, 51]));
    assert_eq!(image.row(1)[0], px([0, 0, 0, 0]));
    divide_alpha_inplace(&mut image);
    assert_eq!(image.row(0)[0], px([100, 100, 100, 51]));
    assert_eq!(image.row(1)[0], px([0, 0, 0, 0]));

    let mut dst = TypedImageView::filled(2, 2, px([0, 0, 0, 0]));
    divide_alpha(&src, &mut dst);
    assert_eq!(dst.row(0)[0], px([255, 255, 0, 128]));
    assert_eq!(dst.row(1)[1], px([255, 255, 255, 51]));
}
