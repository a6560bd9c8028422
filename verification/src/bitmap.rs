//! A decoded image held as plain values: its size and its pixels.

use vstd::prelude::*;

verus! {

/// One pixel: red, green and blue, each from 0 to 255.
#[derive(Clone, Copy, Debug, PartialEq, Eq, Structural)]
pub struct Rgb {
    pub r: u8,
    pub g: u8,
    pub b: u8,
}

/// A rectangle of pixels, stored row by row from the top left.
///
/// Every value of this type holds exactly `width * height` pixels.
#[derive(Debug)]
pub struct Bitmap {
    width: u32,
    height: u32,
    pixels: Vec<Rgb>,
}

impl Bitmap {
    #[verifier::type_invariant]
    spec fn well_formed(&self) -> bool {
        self.pixels@.len() == self.width * self.height
    }

    /// The number of pixel columns.
    pub closed spec fn spec_width(&self) -> u32 {
        self.width
    }

    /// The number of pixel rows.
    pub closed spec fn spec_height(&self) -> u32 {
        self.height
    }

    /// The pixel in column `x` of row `y`; meaningful inside the image only.
    pub closed spec fn pixel(&self, x: int, y: int) -> Rgb {
        self.pixels@[y * self.width + x]
    }

    /// Builds an image from its pixels in row-major order, or returns `None`
    /// when their number is not `width * height`.
    pub fn new(width: u32, height: u32, pixels: Vec<Rgb>) -> (image: Option<Bitmap>)
        ensures
            image is Some <==> pixels@.len() == width * height,
            image matches Some(b) ==> {
                &&& b.width() == width
                &&& b.height() == height
                &&& forall|x: int, y: int|
                    0 <= x < width && 0 <= y < height ==> #[trigger] b.pixel(x, y)
                        == pixels@[y * width + x]
            },
    {
        assert(width * height <= u64::MAX) by (nonlinear_arith)
            requires
                width <= u32::MAX,
                height <= u32::MAX,
        ;
        let area: u64 = (width as u64) * (height as u64);
        if pixels.len() as u64 == area {
            Some(Bitmap { width, height, pixels })
        } else {
            None
        }
    }

    /// The number of pixel columns.
    #[verifier::when_used_as_spec(spec_width)]
    pub fn width(&self) -> (w: u32)
        ensures
            w == self.width(),
    {
        self.width
    }

    /// The number of pixel rows.
    #[verifier::when_used_as_spec(spec_height)]
    pub fn height(&self) -> (h: u32)
        ensures
            h == self.height(),
    {
        self.height
    }

    /// Reads the pixel in column `x` of row `y`.
    pub fn get_pixel(&self, x: u32, y: u32) -> (p: Rgb)
        requires
            x < self.width(),
            y < self.height(),
        ensures
            p == self.pixel(x as int, y as int),
    {
        proof {
            use_type_invariant(self);
            lemma_cell_in_area(x as int, y as int, self.width as int, self.height as int);
        }
        assert(y * self.width + x < self.pixels.len());
        let row: usize = (y as usize) * (self.width as usize);
        self.pixels[row + x as usize]
    }
}

/// A cell inside a `width` by `height` grid has a row-major index below the
/// grid's area.
proof fn lemma_cell_in_area(x: int, y: int, width: int, height: int)
    by (nonlinear_arith)
    requires
        0 <= x < width,
        0 <= y < height,
    ensures
        0 <= y * width,
        y * width + x < width * height,
        y * width <= width * height,
{
}

} // verus!
