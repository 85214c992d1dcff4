# fast_image_resize

The integer core of an image-resizing library, written in Verus with its
behaviour stated in contracts and proved.

- `src/` — the verified library: pixel types and images, multiplying and
  dividing `U8x2` and `U8x4` pixels by alpha, colorspace mapping tables and
  mappers, changing the bit depth of pixel components, the fixed-point
  normalizers and the native convolution of images with `u8` components
  (`i32` sums, clamped to 8 bits) and with `u16` components (`i64` sums,
  clamped to 16 bits), and an iterator over chunks of `N` items.
- `tests/` — tests of the library on concrete values.
- `app/` — ordinary Rust around the library: resampling filters and the
  computation of convolution weights in `f64`, the precision search that
  turns weights into the verified normalizers, mapping tables filled from
  `f32` functions with the lazily built gamma 2.2 and sRGB mappers, the
  `f32`/`i32` convolutions, and CPU feature detection.
