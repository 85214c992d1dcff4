use fast_image_resize::alpha::u8x2::{
    divide_alpha, divide_alpha_inplace, divide_alpha_pixel, divide_alpha_row, divide_alpha_row_inplace,
    multiply_alpha, multiply_alpha_inplace, multiply_alpha_pixel, multiply_alpha_row,
    multiply_alpha_row_inplace,
};
use fast_image_resize::image_view::TypedImageView;
use fast_image_resize::pixels::{Pixel, U8x2};

fn px(c: [u8; 2]) -> U8x2 {
    Pixel(c)
}

#[test]
fn luma_alpha_pixels() {
    assert_eq!(multiply_alpha_pixel(px([255, 128])), px([128, 128]));
    assert_eq!(multiply_alpha_pixel(px([77, 255])), px([77, 255]));
    assert_eq!(multiply_alpha_pixel(px([77, 0])), px([0, 0]));
    assert_eq!(divide_alpha_pixel(px([128, 128])), px([255, 128]));
    assert_eq!(divide_alpha_pixel(px([64, 128])), px([127, 128]));
    assert_eq!(divide_alpha_pixel(px([200, 100])), px([255, 100]));
    assert_eq!(divide_alpha_pixel(px([10, 0])), px([0, 0]));
}

#[test]
fn luma_alpha_rows_and_images() {
    let mut dst = vec![px([1, 1]); 3];
    multiply_alpha_row(&[px([255, 128]), px([10, 0])], &mut dst);
    assert_eq!(dst, vec![px([128, 128]), px([0, 0]), px([1, 1])]);
    let mut dst = vec![px([1, 1]); 1];
    divide_alpha_row(&[px([64, 128]), px([1, 1])], &mut dst);
    assert_eq!(dst, vec![px([127, 128])]);

    let mut row = vec![px([100, 51]), px([5, 255])];
    multiply_alpha_row_inplace(&mut row);
    assert_eq!(row, vec![px([20, 51]), px([5, 255])]);
    divide_alpha_row_inplace(&mut row);
    assert_eq!(row, vec![px([100, 51]), px([5, 255])]);

    let src = TypedImageView::from_rows(2, 1, vec![vec![px([255, 128]), px([100, 51])]]).unwrap();
    let mut dst = TypedImageView::filled(2, 2, px([7, 7]));
    multiply_alpha(&src, &mut dst);
    assert_eq!(dst.into_rows(), vec![vec![px([128, 128]), px([20, 51])], vec![px([7, 7]); 2]]);

    let mut dst = TypedImageView::filled(2, 1, px([0, 0]));
    divide_alpha(&src, &mut dst);
    assert_eq!(dst.row(0).clone(), vec![px([255, 128]), px([255, 51])]);

    let mut image = TypedImageView::from_rows(1, 1, vec![vec![px([100, 51])]]).unwrap();
    multiply_alpha_inplace(&mut image);
    assert_eq!(image.row(0)[0], px([20, 51]));
    divide_alpha_inplace(&mut image);
    assert_eq!(image.row(0)[0], px([100, 51]));
}
