//! Pixel buffers: the decoded card image and the bordered, opaque canvas.

use vstd::prelude::*;
use crate::pixel::{Rgb8, Rgba8};

verus! {

/// A picture as a value: its size and its pixels, row by row from the top.
pub struct Picture<P> {
    pub width: nat,
    pub height: nat,
    pub pixels: Seq<P>,
}

impl<P> Picture<P> {
    /// The pixel count matches the size.
    pub open spec fn wf(self) -> bool {
        self.pixels.len() == self.width * self.height
    }

    /// The pixel in column `x` of row `y`.
    pub open spec fn at(self, x: int, y: int) -> P
        recommends
            0 <= x < self.width,
            0 <= y < self.height,
    {
        self.pixels[y * self.width + x]
    }
}

/// The place of the pixel in column `x` of row `y` in a buffer of `width` columns.
pub proof fn lemma_pixel_index(x: int, y: int, width: int, height: int)
    requires
        0 <= x < width,
        0 <= y < height,
    ensures
        0 <= y * width,
        0 <= y * width + x < width * height,
        (y * width + x) / width == y,
        (y * width + x) % width == x,
{
    assert(y * width + x < width * height) by (nonlinear_arith)
        requires
            0 <= x < width,
            0 <= y < height,
    ;
    assert(0 <= y * width) by (nonlinear_arith)
        requires
            0 <= y,
            0 < width,
    ;
    vstd::arithmetic::div_mod::lemma_fundamental_div_mod_converse(y * width + x, width, y, x);
}

/// Whether `len` pixels fill a picture of `width` by `height`.
fn fills(len: usize, width: u32, height: u32) -> (b: bool)
    ensures
        b == (len == width * height),
{
    assert(width * height <= 0xffff_ffff * 0xffff_ffff) by (nonlinear_arith)
        requires
            0 <= width <= 0xffff_ffff,
            0 <= height <= 0xffff_ffff,
    ;
    (len as u128) == (width as u128) * (height as u128)
}

/// The place of the pixel in column `x` of row `y` in a buffer of `len`
/// pixels that holds `width` columns and `height` rows.
fn index_of(x: u32, y: u32, width: u32, height: u32, len: usize) -> (i: usize)
    requires
        x < width,
        y < height,
        len == width * height,
    ensures
        i == y * width + x,
        i < len,
{
    proof {
        lemma_pixel_index(x as int, y as int, width as int, height as int);
    }
    y as usize * width as usize + x as usize
}

/// A decoded card image: pixels with an alpha channel.
pub struct SourceImage {
    pub(crate) width: u32,
    pub(crate) height: u32,
    pub(crate) pixels: Vec<Rgba8>,
}

impl View for SourceImage {
    type V = Picture<Rgba8>;

    closed spec fn view(&self) -> Picture<Rgba8> {
        Picture { width: self.width as nat, height: self.height as nat, pixels: self.pixels@ }
    }
}

impl SourceImage {
    #[verifier::type_invariant]
    spec fn inv(self) -> bool {
        self.pixels@.len() == self.width * self.height
    }

    /// An image of `width` by `height` pixels, given row by row from the
    /// top; `None` unless there are exactly `width * height` of them.
    pub fn new(width: u32, height: u32, pixels: Vec<Rgba8>) -> (made: Option<SourceImage>)
        ensures
            made is Some <==> pixels@.len() == width * height,
            made matches Some(image) ==> image@ == (Picture {
                width: width as nat,
                height: height as nat,
                pixels: pixels@,
            }),
    {
        if fills(pixels.len(), width, height) {
            Some(SourceImage { width, height, pixels })
        } else {
            None
        }
    }

    /// The number of columns. Every image has as many pixels as its size says.
    pub fn width(&self) -> (w: u32)
        ensures
            w == self@.width,
            self@.wf(),
    {
        proof {
            use_type_invariant(self);
        }
        self.width
    }

    /// The number of rows.
    pub fn height(&self) -> (h: u32)
        ensures
            h == self@.height,
    {
        self.height
    }

    /// The pixel in column `x` of row `y`.
    pub fn pixel(&self, x: u32, y: u32) -> (p: Rgba8)
        requires
            x < self@.width,
            y < self@.height,
        ensures
            p == self@.at(x as int, y as int),
    {
        proof {
            use_type_invariant(self);
        }
        self.pixels[index_of(x, y, self.width, self.height, self.pixels.len())]
    }
}

/// A bordered card image: opaque pixels.
pub struct BorderedImage {
    pub(crate) width: u32,
    pub(crate) height: u32,
    pub(crate) pixels: Vec<Rgb8>,
}

impl View for BorderedImage {
    type V = Picture<Rgb8>;

    closed spec fn view(&self) -> Picture<Rgb8> {
        Picture { width: self.width as nat, height: self.height as nat, pixels: self.pixels@ }
    }
}

impl BorderedImage {
    #[verifier::type_invariant]
    spec fn inv(self) -> bool {
        self.pixels@.len() == self.width * self.height
    }

    /// An image of `width` by `height` pixels, given row by row from the
    /// top; `None` unless there are exactly `width * height` of them.
    pub fn new(width: u32, height: u32, pixels: Vec<Rgb8>) -> (made: Option<BorderedImage>)
        ensures
            made is Some <==> pixels@.len() == width * height,
            made matches Some(image) ==> image@ == (Picture {
                width: width as nat,
                height: height as nat,
                pixels: pixels@,
            }),
    {
        if fills(pixels.len(), width, height) {
            Some(BorderedImage { width, height, pixels })
        } else {
            None
        }
    }

    /// The number of columns. Every image has as many pixels as its size says.
    pub fn width(&self) -> (w: u32)
        ensures
            w == self@.width,
            self@.wf(),
    {
        proof {
            use_type_invariant(self);
        }
        self.width
    }

    /// The number of rows.
    pub fn height(&self) -> (h: u32)
        ensures
            h == self@.height,
    {
        self.height
    }

    /// The pixel in column `x` of row `y`.
    pub fn pixel(&self, x: u32, y: u32) -> (p: Rgb8)
        requires
            x < self@.width,
            y < self@.height,
        ensures
            p == self@.at(x as int, y as int),
    {
        proof {
            use_type_invariant(self);
        }
        self.pixels[index_of(x, y, self.width, self.height, self.pixels.len())]
    }
}

} // verus!
