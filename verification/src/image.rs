//! A decoded raster image as plain values: dimensions and a column-major
//! pixel grid with an alpha channel.  Asset decoding happens outside the
//! library; this type is what the draw-command generators read.

use vstd::prelude::*;
use vstd::arithmetic::div_mod::lemma_fundamental_div_mod_converse;

verus! {

/// One image pixel: red, green, blue and alpha channels.
#[derive(Clone, Copy, PartialEq, Eq, Structural, Debug)]
pub struct Pixel {
    pub r: u8,
    pub g: u8,
    pub b: u8,
    pub a: u8,
}

/// The mathematical view of an image: its dimensions and its pixels,
/// stored column-major (column `x` holds rows `0..height` contiguously).
#[verifier::ext_equal]
pub struct ImageView {
    pub width: nat,
    pub height: nat,
    pub pixels: Seq<Pixel>,
}

impl ImageView {
    pub open spec fn wf(self) -> bool {
        &&& self.pixels.len() == self.width * self.height
        &&& self.width <= 65535
        &&& self.height <= 65535
    }

    /// The flat index of column `x`, row `y`.
    pub open spec fn index_of(self, x: int, y: int) -> int {
        x * self.height as int + y
    }

    /// The pixel at column `x`, row `y`.
    pub open spec fn pix(self, x: int, y: int) -> Pixel
        recommends
            self.wf(),
            0 <= x < self.width,
            0 <= y < self.height,
    {
        self.pixels[self.index_of(x, y)]
    }

    /// The horizontal mirror image: column `x` becomes column
    /// `width - 1 - x`.
    pub open spec fn fliph(self) -> ImageView
        recommends
            self.wf(),
            self.height > 0,
    {
        ImageView {
            width: self.width,
            height: self.height,
            pixels: Seq::new(
                self.pixels.len(),
                |i: int|
                    self.pixels[
                        (self.width as int - 1 - i / self.height as int) * self.height as int + i
                            % self.height as int
                    ],
            ),
        }
    }
}

/// An index within the column bounds lies within the pixel sequence.
pub proof fn lemma_index_in_range(img: ImageView, x: int, y: int)
    requires
        img.wf(),
        0 <= x < img.width,
        0 <= y < img.height,
    ensures
        0 <= img.index_of(x, y) < img.pixels.len(),
{
    assert(0 <= x * img.height as int + y < img.width * img.height) by (nonlinear_arith)
        requires
            0 <= x < img.width,
            0 <= y < img.height,
    ;
}

/// Mirroring reads the pixel of the opposite column in the same row.
pub proof fn lemma_fliph_pix(img: ImageView, x: int, y: int)
    requires
        img.wf(),
        0 <= x < img.width,
        0 <= y < img.height,
    ensures
        img.fliph().wf(),
        img.fliph().pix(x, y) == img.pix(img.width as int - 1 - x, y),
{
    let h = img.height as int;
    let i = x * h + y;
    lemma_index_in_range(img, x, y);
    lemma_fundamental_div_mod_converse(i, h, x, y);
    lemma_index_in_range(img, img.width as int - 1 - x, y);
    assert(img.fliph().wf()) by (nonlinear_arith)
        requires
            img.wf(),
            img.fliph().width == img.width,
            img.fliph().height == img.height,
            img.fliph().pixels.len() == img.pixels.len(),
    ;
}

/// A decoded image: what the library's renderers read of an asset.
pub struct Image {
    width: u16,
    height: u16,
    pixels: Vec<Pixel>,
}

impl View for Image {
    type V = ImageView;

    closed spec fn view(&self) -> ImageView {
        ImageView { width: self.width as nat, height: self.height as nat, pixels: self.pixels@ }
    }
}

impl Image {
    /// Wraps a column-major pixel grid as an image.
    pub fn new(width: u16, height: u16, pixels: Vec<Pixel>) -> (r: Image)
        requires
            pixels@.len() == width as int * height as int,
        ensures
            r@ == (ImageView {
                width: width as nat,
                height: height as nat,
                pixels: pixels@,
            }),
            r@.wf(),
    {
        Image { width, height, pixels }
    }

    pub fn width(&self) -> (w: u16)
        ensures
            w as nat == self@.width,
    {
        self.width
    }

    pub fn height(&self) -> (h: u16)
        ensures
            h as nat == self@.height,
    {
        self.height
    }

    /// The pixel at column `x`, row `y`.
    pub fn get(&self, x: u16, y: u16) -> (p: Pixel)
        requires
            self@.wf(),
            x < self@.width,
            y < self@.height,
        ensures
            p == self@.pix(x as int, y as int),
    {
        proof {
            lemma_index_in_range(self@, x as int, y as int);
            assert(x as int * self.height as int <= 65535 * 65535) by (nonlinear_arith)
                requires
                    0 <= x <= 65535,
                    0 <= self.height <= 65535,
            ;
        }
        self.pixels[x as usize * self.height as usize + y as usize]
    }

    /// The horizontal mirror image.
    pub fn fliph(&self) -> (r: Image)
        requires
            self@.wf(),
            self@.height > 0,
        ensures
            r@ == self@.fliph(),
            r@.wf(),
            r@.width == self@.width,
            r@.height == self@.height,
            forall|x: int, y: int|
                0 <= x < self@.width && 0 <= y < self@.height ==> #[trigger] r@.pix(x, y)
                    == self@.pix(self@.width as int - 1 - x, y),
    {
        let ghost flipped = self@.fliph();
        let w = self.width;
        let h = self.height;
        let mut pixels: Vec<Pixel> = Vec::new();
        let mut x: u16 = 0;
        while x < w
            invariant
                self@.wf(),
                self@.height > 0,
                w as nat == self@.width,
                h as nat == self@.height,
                flipped == self@.fliph(),
                x <= w,
                pixels@.len() == x as int * h as int,
                forall|i: int| 0 <= i < pixels@.len() ==> pixels@[i] == flipped.pixels[i],
            decreases w - x,
        {
            let mut y: u16 = 0;
            while y < h
                invariant
                    self@.wf(),
                    self@.height > 0,
                    w as nat == self@.width,
                    h as nat == self@.height,
                    flipped == self@.fliph(),
                    x < w,
                    y <= h,
                    pixels@.len() == x as int * h as int + y as int,
                    forall|i: int| 0 <= i < pixels@.len() ==> pixels@[i] == flipped.pixels[i],
                decreases h - y,
            {
                let p = self.get(w - 1 - x, y);
                proof {
                    let k = pixels@.len() as int;
                    lemma_fundamental_div_mod_converse(k, h as int, x as int, y as int);
                    lemma_index_in_range(self@, x as int, y as int);
                    lemma_index_in_range(self@, w as int - 1 - x as int, y as int);
                }
                pixels.push(p);
                y += 1;
            }
            proof {
                assert((x as int + 1) * h as int == x as int * h as int + h as int)
                    by (nonlinear_arith);
            }
            x += 1;
        }
        proof {
            assert(pixels@.len() == flipped.pixels.len()) by (nonlinear_arith)
                requires
                    pixels@.len() == w as int * h as int,
                    flipped.pixels.len() == self@.pixels.len(),
                    self@.pixels.len() == self@.width * self@.height,
                    w as nat == self@.width,
                    h as nat == self@.height,
                    flipped == self@.fliph(),
            ;
            assert(pixels@ =~= flipped.pixels);
        }
        let r = Image { width: w, height: h, pixels };
        proof {
            assert(r@ =~= flipped);
            assert forall|px: int, py: int|
                0 <= px < self@.width && 0 <= py < self@.height implies #[trigger] r@.pix(px, py)
                == self@.pix(self@.width as int - 1 - px, py) by {
                lemma_fliph_pix(self@, px, py);
            }
        }
        r
    }
}

} // verus!
