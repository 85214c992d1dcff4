//! Pixel types and pixel components.
use vstd::prelude::*;

verus! {

/// Type of pixels of an image.
#[derive(Clone, Copy, Debug, PartialEq, Eq, Structural)]
pub enum PixelType {
    U8,
    U8x2,
    U8x3,
    U8x4,
    U16,
    U16x2,
    U16x3,
    U16x4,
    I32,
    F32,
    F32x2,
    F32x3,
    F32x4,
}

impl PixelType {
    /// Number of components of one pixel of this type.
    pub open spec fn spec_count_of_components(self) -> nat {
        match self {
            PixelType::U8 | PixelType::U16 | PixelType::I32 | PixelType::F32 => 1,
            PixelType::U8x2 | PixelType::U16x2 | PixelType::F32x2 => 2,
            PixelType::U8x3 | PixelType::U16x3 | PixelType::F32x3 => 3,
            PixelType::U8x4 | PixelType::U16x4 | PixelType::F32x4 => 4,
        }
    }

    /// Number of components of one pixel of this type.
    pub fn count_of_components(&self) -> (r: usize)
        ensures
            r == self.spec_count_of_components(),
    {
        match self {
            PixelType::U8 | PixelType::U16 | PixelType::I32 | PixelType::F32 => 1,
            PixelType::U8x2 | PixelType::U16x2 | PixelType::F32x2 => 2,
            PixelType::U8x3 | PixelType::U16x3 | PixelType::F32x3 => 3,
            PixelType::U8x4 | PixelType::U16x4 | PixelType::F32x4 => 4,
        }
    }
}

/// A component of a pixel whose value can index a mapping table.
pub trait PixelComponent: Copy + Sized {
    /// The numeric value of the component.
    spec fn value(self) -> nat;

    /// The greatest value a component of this type can hold.
    spec fn max_value() -> nat;

    /// A value never exceeds the maximum of its type.
    proof fn lemma_value_bound(self)
        ensures
            self.value() <= Self::max_value(),
    ;

    /// The value of the component as an index.
    fn to_index(self) -> (r: usize)
        ensures
            r as nat == self.value(),
    ;

    /// The number of distinct values of this component type.
    fn count_of_values() -> (r: usize)
        ensures
            r as nat == Self::max_value() + 1,
    ;
}

impl PixelComponent for u8 {
    open spec fn value(self) -> nat {
        self as nat
    }

    open spec fn max_value() -> nat {
        255
    }

    proof fn lemma_value_bound(self) {
    }

    fn to_index(self) -> (r: usize) {
        self as usize
    }

    fn count_of_values() -> (r: usize) {
        256
    }
}

impl PixelComponent for u16 {
    open spec fn value(self) -> nat {
        self as nat
    }

    open spec fn max_value() -> nat {
        65535
    }

    proof fn lemma_value_bound(self) {
    }

    fn to_index(self) -> (r: usize) {
        self as usize
    }

    fn count_of_values() -> (r: usize) {
        65536
    }
}

/// Conversion of a pixel component into a component of another bit depth.
pub trait IntoPixelComponent<Out>: PixelComponent {
    /// The converted component.
    spec fn converted(self) -> Out;

    /// Converts the component.
    fn into_component(self) -> (r: Out)
        ensures
            r == self.converted(),
    ;
}

impl IntoPixelComponent<u8> for u8 {
    open spec fn converted(self) -> u8 {
        self
    }

    fn into_component(self) -> (r: u8) {
        self
    }
}

/// An 8-bit value `v` becomes the 16-bit value whose both bytes are `v`,
/// that is `v * 257`.
impl IntoPixelComponent<u16> for u8 {
    open spec fn converted(self) -> u16 {
        (self as int * 257) as u16
    }

    fn into_component(self) -> (r: u16) {
        self as u16 * 257
    }
}

/// A 16-bit value becomes its high byte.
impl IntoPixelComponent<u8> for u16 {
    open spec fn converted(self) -> u8 {
        (self as int / 256) as u8
    }

    fn into_component(self) -> (r: u8) {
        (self / 256) as u8
    }
}

impl IntoPixelComponent<u16> for u16 {
    open spec fn converted(self) -> u16 {
        self
    }

    fn into_component(self) -> (r: u16) {
        self
    }
}

/// Whether component `c` of a pixel of `n` components is an alpha channel:
/// the last component of pixels with two or four components.
pub open spec fn is_alpha_position(c: int, n: int) -> bool {
    (n == 2 || n == 4) && c == n - 1
}

/// Whether component `c` of a pixel of `n` components is an alpha channel.
pub fn is_alpha_component(c: usize, n: usize) -> (r: bool)
    ensures
        r == is_alpha_position(c as int, n as int),
{
    (n == 2 || n == 4) && c == n - 1
}

/// A pixel made of `N` components of type `C`.
#[derive(Clone, Copy, Debug, PartialEq, Eq)]
pub struct Pixel<C, const N: usize>(pub [C; N]);

impl<C: Copy, const N: usize> Pixel<C, N> {
    /// Creates a pixel from its components.
    pub fn new(components: [C; N]) -> (r: Self)
        ensures
            r.0 == components,
    {
        Pixel(components)
    }
}

/// One `u8` component per pixel (e.g. L).
pub type U8 = Pixel<u8, 1>;

/// Two `u8` components per pixel (e.g. LA).
pub type U8x2 = Pixel<u8, 2>;

/// Three `u8` components per pixel (e.g. RGB).
pub type U8x3 = Pixel<u8, 3>;

/// Four `u8` components per pixel (e.g. RGBA, RGBx, CMYK).
pub type U8x4 = Pixel<u8, 4>;

/// One `u16` component per pixel (e.g. L16).
pub type U16 = Pixel<u16, 1>;

/// Two `u16` components per pixel (e.g. LA16).
pub type U16x2 = Pixel<u16, 2>;

/// Three `u16` components per pixel (e.g. RGB16).
pub type U16x3 = Pixel<u16, 3>;

/// Four `u16` components per pixel (e.g. RGBA16, RGBx16, CMYK16).
pub type U16x4 = Pixel<u16, 4>;

/// One `i32` component per pixel (e.g. L32).
pub type I32 = Pixel<i32, 1>;

/// One `f32` component per pixel, held as the bit pattern of the float.
pub type F32 = Pixel<u32, 1>;

/// Two `f32` components per pixel, held as bit patterns.
pub type F32x2 = Pixel<u32, 2>;

/// Three `f32` components per pixel, held as bit patterns.
pub type F32x3 = Pixel<u32, 3>;

/// Four `f32` components per pixel, held as bit patterns.
pub type F32x4 = Pixel<u32, 4>;

/// Converting a component keeps its value relative to the maximum of its
/// type: an 8-bit value `v` becomes `v * 257` (both bytes `v`), a 16-bit value
/// `w` becomes `w / 256` (its high byte), and a conversion into the same type
/// keeps the value.
pub proof fn lemma_component_conversions(v: u8, w: u16)
    ensures
        IntoPixelComponent::<u16>::converted(v) as int == v as int * 257,
        IntoPixelComponent::<u8>::converted(w) as int == w as int / 256,
        IntoPixelComponent::<u8>::converted(v) == v,
        IntoPixelComponent::<u16>::converted(w) == w,
{
    assert(v as int * 257 <= 65535) by (nonlinear_arith)
        requires
            0 <= v <= 255,
    ;
}

} // verus!
