//! Decoded raster images: a rectangle of RGBA pixels in row-major order.

use vstd::prelude::*;

verus! {

/// One pixel: red, green, blue and alpha, eight bits each.
#[derive(Debug, Copy, Clone, Hash, PartialEq, Eq, Structural)]
pub struct Rgba {
    pub r: u8,
    pub g: u8,
    pub b: u8,
    pub a: u8,
}

/// The four bytes of a pixel, in the order red, green, blue, alpha.
pub open spec fn pixel_bytes(p: Rgba) -> Seq<u8> {
    seq![p.r, p.g, p.b, p.a]
}

/// All pixels of `pixels` laid out as bytes, four per pixel.
pub open spec fn flatten(pixels: Seq<Rgba>) -> Seq<u8> {
    Seq::new(
        4 * pixels.len(),
        |i: int| pixel_bytes(pixels[i / 4])[i % 4],
    )
}

/// The pixels of a `width` by `height` image after `angle` quarter turns
/// clockwise. For an odd `angle` the result is `height` pixels wide.
pub open spec fn rotate_pixels(pixels: Seq<Rgba>, width: int, height: int, angle: u8) -> Seq<
    Rgba,
> {
    if angle == 0 {
        pixels
    } else if angle == 1 {
        Seq::new(
            pixels.len(),
            |i: int| pixels[(height - 1 - i % height) * width + i / height],
        )
    } else if angle == 2 {
        Seq::new(pixels.len(), |i: int| pixels[pixels.len() - 1 - i])
    } else {
        Seq::new(
            pixels.len(),
            |i: int| pixels[(i % height) * width + (width - 1 - i / height)],
        )
    }
}

proof fn lemma_cell_index(outer: int, inner: int, bound: int)
    requires
        0 <= outer,
        0 <= inner < bound,
    ensures
        (outer * bound + inner) / bound == outer,
        (outer * bound + inner) % bound == inner,
{
    vstd::arithmetic::div_mod::lemma_fundamental_div_mod_converse(
        outer * bound + inner,
        bound,
        outer,
        inner,
    );
}

proof fn lemma_cell_in_range(row: int, col: int, width: int, height: int)
    requires
        0 <= row < height,
        0 <= col < width,
    ensures
        0 <= row * width + col < width * height,
{
    assert(row * width + col < width * height) by (nonlinear_arith)
        requires
            0 <= row < height,
            0 <= col < width,
    ;
    assert(0 <= row * width) by (nonlinear_arith)
        requires
            0 <= row,
            0 <= width,
    ;
}

/// A decoded image. Pixel `(x, y)` is stored at index `y * width + x`.
#[derive(Debug, Hash, PartialEq, Eq)]
pub struct ImageData {
    data: Vec<Rgba>,
    width: u32,
    height: u32,
}

impl ImageData {
    /// Whether the image holds `width * height` pixels, as every image does.
    #[verifier::type_invariant]
    pub closed spec fn wf(&self) -> bool {
        self.data@.len() == self.width as nat * self.height as nat
    }

    /// The pixels in row-major order.
    pub closed spec fn pixels(&self) -> Seq<Rgba> {
        self.data@
    }

    /// Number of columns.
    pub closed spec fn spec_width(&self) -> u32 {
        self.width
    }

    /// Number of rows.
    pub closed spec fn spec_height(&self) -> u32 {
        self.height
    }

    /// The pixel in column `x` of row `y`.
    pub open spec fn at(&self, x: int, y: int) -> Rgba {
        self.pixels()[y * self.spec_width() as int + x]
    }

    /// Wraps a pixel buffer. Succeeds exactly when the buffer holds
    /// `width * height` pixels.
    pub fn new(data: Vec<Rgba>, width: u32, height: u32) -> (r: Option<ImageData>)
        ensures
            r is Some <==> data@.len() == width as nat * height as nat,
            r is Some ==> {
                &&& r->0.pixels() == data@
                &&& r->0.spec_width() == width
                &&& r->0.spec_height() == height
            },
    {
        assert(width as u64 * height as u64 <= 0xffff_ffff * 0xffff_ffff) by (nonlinear_arith)
            requires
                width <= 0xffff_ffff,
                height <= 0xffff_ffff,
        ;
        let count: u64 = width as u64 * height as u64;
        if data.len() as u64 != count {
            return None;
        }
        Some(ImageData { data, width, height })
    }

    /// Wraps a pixel buffer that holds `width * height` pixels.
    pub(crate) fn assemble(data: Vec<Rgba>, width: u32, height: u32) -> (r: ImageData)
        requires
            data@.len() == width as nat * height as nat,
        ensures
            r.pixels() == data@,
            r.spec_width() == width,
            r.spec_height() == height,
    {
        ImageData { data, width, height }
    }

    /// Number of columns.
    #[verifier::when_used_as_spec(spec_width)]
    pub fn width(&self) -> (w: u32)
        ensures
            w == self.spec_width(),
    {
        self.width
    }

    /// Number of rows.
    #[verifier::when_used_as_spec(spec_height)]
    pub fn height(&self) -> (h: u32)
        ensures
            h == self.spec_height(),
    {
        self.height
    }

    /// The pixels, row by row.
    pub fn data(&self) -> (d: &Vec<Rgba>)
        ensures
            d@ == self.pixels(),
            d@.len() == self.spec_width() as nat * self.spec_height() as nat,
    {
        proof {
            use_type_invariant(self);
        }
        &self.data
    }

    /// Gives up the image and returns its pixel buffer.
    pub fn into_data(self) -> (d: Vec<Rgba>)
        ensures
            d@ == self.pixels(),
    {
        self.data
    }
}

impl ImageData {
    /// The pixels as bytes: red, green, blue, alpha of the first pixel, then
    /// of the second, and so on.
    pub fn rgba_data(&self) -> (bytes: Vec<u8>)
        ensures
            bytes@ == flatten(self.pixels()),
    {
        let mut bytes: Vec<u8> = Vec::new();
        let mut i: usize = 0;
        while i < self.data.len()
            invariant
                i <= self.data.len(),
                bytes@.len() == 4 * i,
                forall|k: int|
                    0 <= k < 4 * i ==> bytes@[k] == pixel_bytes(self.data@[k / 4])[k % 4],
            decreases self.data.len() - i,
        {
            let p: Rgba = self.data[i];
            bytes.push(p.r);
            bytes.push(p.g);
            bytes.push(p.b);
            bytes.push(p.a);
            i += 1;
        }
        assert(bytes@ =~= flatten(self.pixels()));
        bytes
    }

    /// Turns the image clockwise by `angle` quarter turns.
    pub fn rotate(&self, angle: u8) -> (r: ImageData)
        requires
            angle < 4,
        ensures
            r.pixels() == rotate_pixels(
                self.pixels(),
                self.spec_width() as int,
                self.spec_height() as int,
                angle,
            ),
            r.spec_width() == (if angle % 2 == 0 {
                self.spec_width()
            } else {
                self.spec_height()
            }),
            r.spec_height() == (if angle % 2 == 0 {
                self.spec_height()
            } else {
                self.spec_width()
            }),
    {
        proof {
            use_type_invariant(self);
        }
        let w: usize = self.width as usize;
        let h: usize = self.height as usize;
        let n: usize = self.data.len();
        let ghost src = self.data@;
        assert(w as int * h as int == h as int * w as int) by (nonlinear_arith);
        if angle == 0 {
            ImageData { data: self.data.clone(), width: self.width, height: self.height }
        } else if angle == 2 {
            let mut data: Vec<Rgba> = Vec::new();
            let mut i: usize = 0;
            while i < n
                invariant
                    i <= n,
                    n == src.len(),
                    src == self.data@,
                    data@.len() == i,
                    forall|k: int| 0 <= k < i ==> data@[k] == src[n - 1 - k],
                decreases n - i,
            {
                data.push(self.data[n - 1 - i]);
                i += 1;
            }
            assert(data@ =~= rotate_pixels(src, w as int, h as int, 2));
            ImageData { data, width: self.width, height: self.height }
        } else if angle == 1 {
            let mut data: Vec<Rgba> = Vec::new();
            let mut y: usize = 0;
            while y < w
                invariant
                    y <= w,
                    n == src.len(),
                    src == self.data@,
                    n == w * h,
                    data@.len() == y * h,
                    forall|k: int|
                        0 <= k < data@.len() ==> data@[k] == src[(h - 1 - k % (h as int)) * w + k
                            / (h as int)],
                decreases w - y,
            {
                let mut j: usize = 0;
                while j < h
                    invariant
                        j <= h,
                        y < w,
                        n == src.len(),
                        src == self.data@,
                        n == w * h,
                        data@.len() == y * h + j,
                        forall|k: int|
                            0 <= k < data@.len() ==> data@[k] == src[(h - 1 - k % (h as int)) * w
                                + k / (h as int)],
                    decreases h - j,
                {
                    let x: usize = h - 1 - j;
                    proof {
                        lemma_cell_in_range(x as int, y as int, w as int, h as int);
                        lemma_cell_index(y as int, j as int, h as int);
                    }
                    data.push(self.data[x * w + y]);
                    j += 1;
                }
                assert((y + 1) * h == y * h + h) by (nonlinear_arith);
                y += 1;
            }
            assert(data@ =~= rotate_pixels(src, w as int, h as int, 1));
            ImageData { data, width: self.height, height: self.width }
        } else {
            let mut data: Vec<Rgba> = Vec::new();
            let mut r: usize = 0;
            while r < w
                invariant
                    r <= w,
                    n == src.len(),
                    src == self.data@,
                    n == w * h,
                    data@.len() == r * h,
                    forall|k: int|
                        0 <= k < data@.len() ==> data@[k] == src[(k % (h as int)) * w + (w - 1 - k
                            / (h as int))],
                decreases w - r,
            {
                let y: usize = w - 1 - r;
                let mut x: usize = 0;
                while x < h
                    invariant
                        x <= h,
                        r < w,
                        y == w - 1 - r,
                        n == src.len(),
                        src == self.data@,
                        n == w * h,
                        data@.len() == r * h + x,
                        forall|k: int|
                            0 <= k < data@.len() ==> data@[k] == src[(k % (h as int)) * w + (w - 1
                                - k / (h as int))],
                    decreases h - x,
                {
                    proof {
                        lemma_cell_in_range(x as int, y as int, w as int, h as int);
                        lemma_cell_index(r as int, x as int, h as int);
                    }
                    data.push(self.data[x * w + y]);
                    x += 1;
                }
                assert((r + 1) * h == r * h + h) by (nonlinear_arith);
                r += 1;
            }
            assert(data@ =~= rotate_pixels(src, w as int, h as int, 3));
            ImageData { data, width: self.height, height: self.width }
        }
    }
}

impl Clone for ImageData {
    fn clone(&self) -> (r: Self)
        ensures
            r.pixels() == self.pixels(),
            r.spec_width() == self.spec_width(),
            r.spec_height() == self.spec_height(),
    {
        proof {
            use_type_invariant(self);
        }
        ImageData { data: self.data.clone(), width: self.width, height: self.height }
    }
}

} // verus!
