//! Border compositor: a card image laid over a larger canvas of one solid color.

use vstd::prelude::*;
use crate::error::PipelineError;
use crate::pixel::{blend_over, spec_blend_over, Rgb8, Rgba8, OPAQUE};
use crate::raster::{lemma_pixel_index, BorderedImage, Picture, SourceImage};

verus! {

/// Width of a card image, in pixels.
pub const CARD_WIDTH: u32 = 745;

/// Height of a card image, in pixels.
pub const CARD_HEIGHT: u32 = 1040;

/// Thickness of the frame round a card image, in pixels.
pub const BORDER_WIDTH: u32 = 36;

/// The color of the frame round a card image: black.
pub fn border_color() -> (c: Rgb8)
    ensures
        c == (Rgb8 { r: 0, g: 0, b: 0 }),
{
    Rgb8 { r: 0, g: 0, b: 0 }
}

/// The color of the card back: white.
pub fn back_color() -> (c: Rgb8)
    ensures
        c == (Rgb8 { r: 255, g: 255, b: 255 }),
{
    Rgb8 { r: 255, g: 255, b: 255 }
}

/// Whether column `x`, row `y` of the canvas lies on the source picture
/// rather than on the frame of thickness `border` round it.
pub open spec fn covered(source: Picture<Rgba8>, border: nat, x: int, y: int) -> bool {
    border <= x < border + source.width && border <= y < border + source.height
}

/// The color of the canvas in column `x`, row `y`: the source pixel that
/// lies there, blended over `color`, or `color` itself on the frame.
pub open spec fn composed_pixel(
    source: Picture<Rgba8>,
    border: nat,
    color: Rgb8,
    x: int,
    y: int,
) -> Rgb8 {
    if covered(source, border, x, y) {
        spec_blend_over(color, source.at(x - border, y - border))
    } else {
        color
    }
}

/// The canvas: `source` with a frame of `border` pixels of `color` on every side.
pub open spec fn composed(source: Picture<Rgba8>, border: nat, color: Rgb8) -> Picture<Rgb8> {
    let width = source.width + 2 * border;
    let height = source.height + 2 * border;
    Picture {
        width,
        height,
        pixels: Seq::new(
            width * height,
            |i: int| composed_pixel(source, border, color, i % (width as int), i / (width as int)),
        ),
    }
}

/// A picture of `width` by `height` pixels, all of them `color`.
pub open spec fn solid(width: nat, height: nat, color: Rgb8) -> Picture<Rgb8> {
    Picture { width, height, pixels: Seq::new(width * height, |i: int| color) }
}

/// Whether a canvas for a picture of `width` by `height` with a frame of
/// `border` can be addressed on this machine.
pub open spec fn canvas_fits(width: nat, height: nat, border: nat) -> bool {
    &&& width + 2 * border <= u32::MAX
    &&& height + 2 * border <= u32::MAX
    &&& (width + 2 * border) * (height + 2 * border) <= usize::MAX
}

/// Lays `source` over a fresh canvas of `border_color` that is
/// `border_width` pixels larger on every side. The source is not changed.
pub fn compose(source: &SourceImage, border_width: u32, border_color: Rgb8) -> (out: BorderedImage)
    requires
        canvas_fits(source@.width, source@.height, border_width as nat),
    ensures
        out@ == composed(source@, border_width as nat, border_color),
{
    let w = source.width();
    let h = source.height();
    let w2 = w + 2 * border_width;
    let h2 = h + 2 * border_width;
    let ghost goal = composed(source@, border_width as nat, border_color);
    let mut pixels: Vec<Rgb8> = Vec::new();
    let mut y: u32 = 0;
    while y < h2
        invariant
            y <= h2,
            w == source@.width,
            h == source@.height,
            w2 == w + 2 * border_width,
            h2 == h + 2 * border_width,
            w2 * h2 <= usize::MAX,
            pixels@.len() == y * w2,
            forall|i: int|
                0 <= i < pixels@.len() ==> #[trigger] pixels@[i] == composed_pixel(
                    source@,
                    border_width as nat,
                    border_color,
                    i % (w2 as int),
                    i / (w2 as int),
                ),
        decreases h2 - y,
    {
        let mut x: u32 = 0;
        while x < w2
            invariant
                x <= w2,
                y < h2,
                w == source@.width,
                h == source@.height,
                w2 == w + 2 * border_width,
                h2 == h + 2 * border_width,
                w2 * h2 <= usize::MAX,
                pixels@.len() == y * w2 + x,
                forall|i: int|
                    0 <= i < pixels@.len() ==> #[trigger] pixels@[i] == composed_pixel(
                        source@,
                        border_width as nat,
                        border_color,
                        i % (w2 as int),
                        i / (w2 as int),
                    ),
            decreases w2 - x,
        {
            let inside = border_width <= x && x - border_width < w && border_width <= y && y
                - border_width < h;
            let p = if inside {
                blend_over(border_color, source.pixel(x - border_width, y - border_width))
            } else {
                border_color
            };
            proof {
                lemma_pixel_index(x as int, y as int, w2 as int, h2 as int);
            }
            pixels.push(p);
            x = x + 1;
        }
        proof {
            assert(y * w2 + w2 == (y + 1) * w2) by (nonlinear_arith);
        }
        y = y + 1;
    }
    proof {
        assert(pixels@.len() == w2 * h2) by (nonlinear_arith)
            requires
                pixels@.len() == y * w2,
                y == h2,
        ;
        assert(pixels@ =~= goal.pixels);
    }
    BorderedImage::new(w2, h2, pixels).unwrap()
}

/// Borders a card image: `source` must have the size of a card, and is then
/// laid over a canvas of `border_color` that is `border_width` pixels larger
/// on every side.
pub fn compose_border(source: &SourceImage, border_width: u32, border_color: Rgb8) -> (res: Result<
    BorderedImage,
    PipelineError,
>)
    requires
        canvas_fits(CARD_WIDTH as nat, CARD_HEIGHT as nat, border_width as nat),
    ensures
        source@.width == CARD_WIDTH && source@.height == CARD_HEIGHT ==> res is Ok && res->Ok_0@
            == composed(source@, border_width as nat, border_color),
        !(source@.width == CARD_WIDTH && source@.height == CARD_HEIGHT) ==> res is Err
            && res->Err_0 == (PipelineError::DimensionMismatch {
            width: source@.width as u32,
            height: source@.height as u32,
        }),
{
    let width = source.width();
    let height = source.height();
    if width == CARD_WIDTH && height == CARD_HEIGHT {
        Ok(compose(source, border_width, border_color))
    } else {
        Err(PipelineError::DimensionMismatch { width, height })
    }
}

/// A picture of `width` by `height` pixels of `color`.
pub fn fill(width: u32, height: u32, color: Rgb8) -> (out: BorderedImage)
    requires
        width * height <= usize::MAX,
    ensures
        out@ == solid(width as nat, height as nat, color),
{
    let ghost total = (width * height) as nat;
    assert(width * height <= 0xffff_ffff * 0xffff_ffff) by (nonlinear_arith)
        requires
            0 <= width <= 0xffff_ffff,
            0 <= height <= 0xffff_ffff,
    ;
    let count = ((width as u128) * (height as u128)) as usize;
    let mut pixels: Vec<Rgb8> = Vec::new();
    let mut i: usize = 0;
    while i < count
        invariant
            i <= count,
            pixels@.len() == i,
            forall|k: int| 0 <= k < i ==> pixels@[k] == color,
        decreases count - i,
    {
        pixels.push(color);
        i = i + 1;
    }
    assert(pixels@ =~= solid(width as nat, height as nat, color).pixels);
    BorderedImage::new(width, height, pixels).unwrap()
}

/// The card back: a white picture of the size of a bordered card.
pub fn card_back() -> (out: BorderedImage)
    ensures
        out@ == solid(
            (CARD_WIDTH + 2 * BORDER_WIDTH) as nat,
            (CARD_HEIGHT + 2 * BORDER_WIDTH) as nat,
            Rgb8 { r: 255, g: 255, b: 255 },
        ),
{
    assert((CARD_WIDTH + 2 * BORDER_WIDTH) * (CARD_HEIGHT + 2 * BORDER_WIDTH) == 908504)
        by (nonlinear_arith);
    fill(CARD_WIDTH + 2 * BORDER_WIDTH, CARD_HEIGHT + 2 * BORDER_WIDTH, back_color())
}

/// The canvas is larger than the source by twice the frame in each
/// direction, and holds one pixel for each of its places.
pub proof fn lemma_composed_size(source: Picture<Rgba8>, border: nat, color: Rgb8)
    ensures
        composed(source, border, color).width == source.width + 2 * border,
        composed(source, border, color).height == source.height + 2 * border,
        composed(source, border, color).wf(),
{
}

/// Every place of the canvas holds the color that `composed_pixel` gives for it.
pub proof fn lemma_composed_at(source: Picture<Rgba8>, border: nat, color: Rgb8, x: int, y: int)
    requires
        0 <= x < source.width + 2 * border,
        0 <= y < source.height + 2 * border,
    ensures
        composed(source, border, color).at(x, y) == composed_pixel(source, border, color, x, y),
{
    let width = (source.width + 2 * border) as int;
    let height = (source.height + 2 * border) as int;
    lemma_pixel_index(x, y, width, height);
}

/// The frame keeps the pure border color: every place of the canvas that
/// the source does not cover holds `color`.
pub proof fn lemma_frame_is_border_color(
    source: Picture<Rgba8>,
    border: nat,
    color: Rgb8,
    x: int,
    y: int,
)
    requires
        0 <= x < source.width + 2 * border,
        0 <= y < source.height + 2 * border,
        !covered(source, border, x, y),
    ensures
        composed(source, border, color).at(x, y) == color,
{
    lemma_composed_at(source, border, color, x, y);
}

/// The source pixel in column `x`, row `y` shows in column `x + border`,
/// row `y + border` of the canvas, blended over the border color: a
/// transparent one shows the border color exactly, an opaque one its own
/// color exactly.
pub proof fn lemma_composed_blend(source: Picture<Rgba8>, border: nat, color: Rgb8, x: int, y: int)
    requires
        0 <= x < source.width,
        0 <= y < source.height,
    ensures
        composed(source, border, color).at(x + border, y + border) == spec_blend_over(
            color,
            source.at(x, y),
        ),
        source.at(x, y).a == 0 ==> composed(source, border, color).at(x + border, y + border)
            == color,
        source.at(x, y).a == OPAQUE ==> composed(source, border, color).at(x + border, y + border)
            == source.at(x, y).spec_color(),
{
    lemma_composed_at(source, border, color, x + border, y + border);
}

/// The canvas is a function of the source, the frame and the color: two
/// canvases made from the same three are equal, pixel for pixel.
pub proof fn lemma_compose_deterministic(
    source: Picture<Rgba8>,
    border: nat,
    color: Rgb8,
    first: Picture<Rgb8>,
    second: Picture<Rgb8>,
)
    requires
        first == composed(source, border, color),
        second == composed(source, border, color),
    ensures
        first == second,
        first.pixels =~= second.pixels,
{
}

} // verus!
