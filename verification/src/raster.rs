use vstd::prelude::*;

verus! {

/// A rectangle of pixels addressed row by row, as both renderers address
/// their accumulators and output buffers.  Its pixel count fits in a `u32`.
pub struct PixelGrid {
    pub width: u32,
    pub height: u32,
}

impl PixelGrid {
    /// The grid holds no more pixels than a `u32` counts.
    pub open spec fn wf(self) -> bool {
        self.width * self.height <= u32::MAX
    }

    /// The number of pixels.
    pub open spec fn count(self) -> int {
        self.width * self.height
    }

    /// The row-major position of pixel `(x, y)`.
    pub open spec fn spec_index(self, x: int, y: int) -> int {
        y * self.width + x
    }

    /// The column of the pixel in slot `i`.
    pub open spec fn column_of(self, i: int) -> int {
        i % (self.width as int)
    }

    /// The row of the pixel in slot `i`.
    pub open spec fn row_of(self, i: int) -> int {
        i / (self.width as int)
    }

    /// `None` when `width * height` does not fit in a `u32`.
    pub fn new(width: u32, height: u32) -> (grid: Option<PixelGrid>)
        ensures
            grid is Some <==> width * height <= u32::MAX,
            grid matches Some(g) ==> g.width == width && g.height == height,
    {
        match width.checked_mul(height) {
            Some(_) => Some(PixelGrid { width, height }),
            None => None,
        }
    }

    /// `width * height`.
    pub fn pixel_count(&self) -> (n: usize)
        requires
            self.wf(),
        ensures
            n == self.count(),
    {
        (self.width * self.height) as usize
    }

    /// `y * width + x`, the slot of pixel `(x, y)`.
    pub fn index_of(&self, x: u32, y: u32) -> (i: usize)
        requires
            self.wf(),
            x < self.width,
            y < self.height,
        ensures
            i == self.spec_index(x as int, y as int),
            i < self.count(),
    {
        proof {
            lemma_index_in_range(self.width as int, self.height as int, x as int, y as int);
        }
        (y * self.width + x) as usize
    }
}

/// A pixel inside a `width` by `height` grid has a row-major position below
/// `width * height`.
pub proof fn lemma_index_in_range(width: int, height: int, x: int, y: int)
    requires
        0 <= x < width,
        0 <= y < height,
    ensures
        0 <= y * width + x < width * height,
{
    assert(y * width + x < width * height) by (nonlinear_arith)
        requires
            0 <= x < width,
            0 <= y < height,
    ;
    assert(0 <= y * width) by (nonlinear_arith)
        requires
            0 <= y,
            0 <= width,
    ;
}

/// Row-major addressing is one to one and onto: two pixels of the grid share
/// a slot only when they are the same pixel, and every slot below the pixel
/// count belongs to the pixel `(slot % width, slot / width)`.
pub proof fn lemma_grid_addressing(grid: PixelGrid)
    ensures
        forall|x1: int, y1: int, x2: int, y2: int|
            0 <= x1 < grid.width && 0 <= y1 < grid.height && 0 <= x2 < grid.width && 0 <= y2
                < grid.height && #[trigger] grid.spec_index(x1, y1) == #[trigger] grid.spec_index(
                x2,
                y2,
            ) ==> x1 == x2 && y1 == y2,
        forall|i: int|
            0 <= i < grid.count() ==> {
                &&& 0 <= #[trigger] grid.column_of(i) < grid.width
                &&& 0 <= grid.row_of(i) < grid.height
                &&& grid.spec_index(grid.column_of(i), grid.row_of(i)) == i
            },
{
    let w = grid.width as int;
    let h = grid.height as int;
    assert forall|x1: int, y1: int, x2: int, y2: int|
        0 <= x1 < w && 0 <= y1 < h && 0 <= x2 < w && 0 <= y2 < h && #[trigger] grid.spec_index(
            x1,
            y1,
        ) == #[trigger] grid.spec_index(x2, y2) implies x1 == x2 && y1 == y2 by {
        lemma_row_major_unique(w, x1, y1, x2, y2);
    }
    assert forall|i: int| 0 <= i < grid.count() implies {
        &&& 0 <= #[trigger] grid.column_of(i) < w
        &&& 0 <= grid.row_of(i) < h
        &&& grid.spec_index(grid.column_of(i), grid.row_of(i)) == i
    } by {
        lemma_row_major_split(w, h, i);
        assert(grid.spec_index(grid.column_of(i), grid.row_of(i)) == (i / w) * w + i % w);
    }
}

proof fn lemma_row_major_unique(w: int, x1: int, y1: int, x2: int, y2: int)
    requires
        0 <= x1 < w,
        0 <= x2 < w,
        0 <= y1,
        0 <= y2,
        y1 * w + x1 == y2 * w + x2,
    ensures
        x1 == x2,
        y1 == y2,
{
    if y1 < y2 {
        assert(y1 * w + x1 < y2 * w + x2) by (nonlinear_arith)
            requires
                0 <= x1 < w,
                0 <= x2,
                y1 < y2,
        ;
    } else if y2 < y1 {
        assert(y2 * w + x2 < y1 * w + x1) by (nonlinear_arith)
            requires
                0 <= x2 < w,
                0 <= x1,
                y2 < y1,
        ;
    }
}

proof fn lemma_row_major_split(w: int, h: int, i: int)
    requires
        0 <= w,
        0 <= h,
        0 <= i < w * h,
    ensures
        0 <= i % w < w,
        0 <= i / w < h,
        (i / w) * w + i % w == i,
{
    assert(w > 0) by (nonlinear_arith)
        requires
            0 <= w,
            0 <= i < w * h,
    ;
    vstd::arithmetic::mul::lemma_mul_is_commutative(w, i / w);
    vstd::arithmetic::div_mod::lemma_fundamental_div_mod(i, w);
    vstd::arithmetic::div_mod::lemma_mod_bound(i, w);
    vstd::arithmetic::div_mod::lemma_div_pos_is_pos(i, w);
    assert(i / w < h) by (nonlinear_arith)
        requires
            w > 0,
            i < w * h,
            i == w * (i / w) + i % w,
            i % w >= 0,
    {
        if i / w >= h {
            assert(w * (i / w) >= w * h);
        }
    }
}


/// An 8-bit RGB image of the `image` crate (`image::RgbImage`).
#[verifier::external_body]
pub struct RgbImage {
    inner: image::RgbImage,
}

/// The samples an image holds, row by row, three per pixel (red, green, blue).
pub uninterp spec fn image_samples(img: RgbImage) -> Seq<u8>;

/// The width and height an image was made with.
pub uninterp spec fn image_dimensions(img: RgbImage) -> (u32, u32);

/// `ImageBuffer::new`: per the `image` source, the buffer holds
/// `3 * width * height` samples, all zero.  It computes that length as
/// `(3 * width) * height` in `usize` and panics when either product
/// overflows, and the vector panics beyond `isize::MAX` bytes; `requires`
/// rules all three out.
#[verifier::external_body]
fn new_image(width: u32, height: u32) -> (img: RgbImage)
    requires
        3 * width <= usize::MAX,
        3 * width * height <= isize::MAX,
    ensures
        image_dimensions(img) == (width, height),
        image_samples(img) == Seq::new((3 * width * height) as nat, |i: int| 0u8),
{
    RgbImage { inner: image::ImageBuffer::new(width, height) }
}

/// `ImageBuffer::put_pixel` with `Rgb([r, g, b])`: per the `image` source it
/// writes the three samples at `3 * (y * width + x)` and panics outside the
/// image, which `requires` rules out.
#[verifier::external_body]
fn put_rgb(img: &mut RgbImage, x: u32, y: u32, r: u8, g: u8, b: u8)
    requires
        x < image_dimensions(*old(img)).0,
        y < image_dimensions(*old(img)).1,
    ensures
        image_dimensions(*final(img)) == image_dimensions(*old(img)),
        ({
            let at = 3 * (y * image_dimensions(*old(img)).0 + x);
            image_samples(*final(img)) == image_samples(*old(img)).update(at, r).update(
                at + 1,
                g,
            ).update(at + 2, b)
        }),
{
    img.inner.put_pixel(x, y, image::Rgb([r, g, b]));
}

/// `ImageBuffer::dimensions`.
#[verifier::external_body]
fn dimensions(img: &RgbImage) -> (wh: (u32, u32))
    ensures
        wh == image_dimensions(*img),
{
    img.inner.dimensions()
}

/// `ImageBuffer::into_raw`: the buffer of samples itself.
#[verifier::external_body]
fn into_raw(img: RgbImage) -> (samples: Vec<u8>)
    ensures
        samples@ == image_samples(img),
{
    img.inner.into_raw()
}

impl RgbImage {
    /// Hands the image out as its width, its height and its samples.
    pub fn into_raw_parts(self) -> (parts: (u32, u32, Vec<u8>))
        ensures
            (parts.0, parts.1) == image_dimensions(self),
            parts.2@ == image_samples(self),
    {
        let (w, h) = dimensions(&self);
        let samples = into_raw(self);
        (w, h, samples)
    }
}

/// The samples of pixel `p` are the first three of the `channels` samples
/// that `packed` holds for it.
pub open spec fn copies_packed_pixels(
    samples: Seq<u8>,
    packed: Seq<u8>,
    channels: int,
    pixels: int,
) -> bool {
    forall|p: int, c: int|
        0 <= p < pixels && 0 <= c < 3 ==> #[trigger] samples[3 * p + c] == packed[channels * p
            + c]
}

/// Builds the output image from per-pixel colour samples stored row by row,
/// `channels` samples per pixel, of which the first three are red, green and
/// blue (3 for the software renderer's colours, 4 for the GPU's RGBA words).
pub fn assemble_image(grid: &PixelGrid, packed: &[u8], channels: usize) -> (img: RgbImage)
    requires
        grid.wf(),
        3 <= channels,
        packed@.len() >= channels * grid.count(),
        3 * grid.width <= usize::MAX,
        3 * grid.count() <= isize::MAX,
    ensures
        image_dimensions(img) == (grid.width, grid.height),
        image_samples(img).len() == 3 * grid.count(),
        copies_packed_pixels(image_samples(img), packed@, channels as int, grid.count()),
{
    let width = grid.width;
    let height = grid.height;
    proof {
        assert(3 * width * height == 3 * grid.count()) by (nonlinear_arith)
            requires
                grid.count() == width * height,
        ;
    }
    let mut img = new_image(width, height);
    let packed_len = packed.len();
    let mut y: u32 = 0;
    while y < height
        invariant
            grid.wf(),
            width == grid.width,
            height == grid.height,
            3 <= channels,
            packed@.len() >= channels * grid.count(),
            packed_len == packed@.len(),
            y <= height,
            image_dimensions(img) == (width, height),
            image_samples(img).len() == 3 * grid.count(),
            copies_packed_pixels(image_samples(img), packed@, channels as int, y * width),
        decreases height - y,
    {
        let mut x: u32 = 0;
        while x < width
            invariant
                grid.wf(),
                width == grid.width,
                height == grid.height,
                3 <= channels,
                packed@.len() >= channels * grid.count(),
                packed_len == packed@.len(),
                y < height,
                x <= width,
                image_dimensions(img) == (width, height),
                image_samples(img).len() == 3 * grid.count(),
                copies_packed_pixels(image_samples(img), packed@, channels as int, y * width + x),
            decreases width - x,
        {
            let idx = grid.index_of(x, y);
            proof {
                assert(channels * idx + channels <= channels * grid.count()) by (nonlinear_arith)
                    requires
                        idx < grid.count(),
                        channels >= 0,
                ;
                assert(idx * channels == channels * idx) by (nonlinear_arith);
            }
            let base = idx * channels;
            let ghost before = image_samples(img);
            put_rgb(&mut img, x, y, packed[base], packed[base + 1], packed[base + 2]);
            proof {
                let after = image_samples(img);
                let p_new = y * width + x;
                assert(3 * p_new + 2 < 3 * grid.count());
                assert forall|p: int, c: int| 0 <= p < p_new + 1 && 0 <= c < 3 implies #[trigger] after[
                    3 * p + c] == packed@[channels * p + c] by {
                    if p < p_new {
                        assert(before[3 * p + c] == packed@[channels * p + c]);
                    } else {
                        assert(channels * p == base) by (nonlinear_arith)
                            requires
                                p == p_new,
                                base == idx * channels,
                                idx == p_new,
                        ;
                    }
                }
            }
            x = x + 1;
        }
        proof {
            assert(y * width + width == (y + 1) * width) by (nonlinear_arith);
        }
        y = y + 1;
    }
    proof {
        assert(height * width == grid.count()) by (nonlinear_arith)
            requires
                grid.count() == width * height,
        ;
    }
    img
}

} // verus!
