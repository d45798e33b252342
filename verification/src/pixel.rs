//! Colors, and the source-over blend of a pixel onto an opaque background.

use vstd::prelude::*;

verus! {

/// An opaque color, 8 bits per channel.
#[derive(Clone, Copy, Debug, PartialEq, Eq, Structural)]
pub struct Rgb8 {
    pub r: u8,
    pub g: u8,
    pub b: u8,
}

/// A color with an alpha channel, 8 bits per channel.
#[derive(Clone, Copy, Debug, PartialEq, Eq, Structural)]
pub struct Rgba8 {
    pub r: u8,
    pub g: u8,
    pub b: u8,
    pub a: u8,
}

/// Alpha of a fully opaque pixel.
pub const OPAQUE: u8 = 255;

impl Rgb8 {
    /// This color as a fully opaque pixel.
    pub open spec fn spec_opaque(self) -> Rgba8 {
        Rgba8 { r: self.r, g: self.g, b: self.b, a: OPAQUE }
    }

    /// This color as a fully opaque pixel.
    #[verifier::when_used_as_spec(spec_opaque)]
    pub fn opaque(self) -> (p: Rgba8)
        ensures
            p == self.spec_opaque(),
    {
        Rgba8 { r: self.r, g: self.g, b: self.b, a: OPAQUE }
    }
}

impl Rgba8 {
    /// The color channels, as red, green, blue and alpha.
    pub open spec fn channels(self) -> (u8, u8, u8, u8) {
        (self.r, self.g, self.b, self.a)
    }

    /// The color of this pixel without its alpha.
    pub open spec fn spec_color(self) -> Rgb8 {
        Rgb8 { r: self.r, g: self.g, b: self.b }
    }

    /// The color of this pixel without its alpha.
    #[verifier::when_used_as_spec(spec_color)]
    pub fn color(self) -> (c: Rgb8)
        ensures
            c == self.spec_color(),
    {
        Rgb8 { r: self.r, g: self.g, b: self.b }
    }
}

/// What `image`'s blend leaves in an opaque background pixel `bg` after a
/// foreground pixel `fg` that is neither transparent nor opaque is laid over
/// it; both are given as red, green, blue and alpha.
pub uninterp spec fn blended(bg: (u8, u8, u8, u8), fg: (u8, u8, u8, u8)) -> (u8, u8, u8, u8);

/// The source-over blend of `fg` onto the opaque background `bg`: a
/// transparent `fg` leaves `bg`, an opaque `fg` replaces it, and in between
/// the two are mixed by the alpha of `fg`.
pub open spec fn source_over(bg: Rgba8, fg: Rgba8) -> Rgba8 {
    if fg.a == 0 {
        bg
    } else if fg.a == OPAQUE {
        fg
    } else {
        let (r, g, b, a) = blended(bg.channels(), fg.channels());
        Rgba8 { r, g, b, a }
    }
}

/// Calls `image::Pixel::blend` on `bg` with `fg`. The contract claims of it
/// that it returns `bg` for a transparent `fg`, `fg` for an opaque one, and
/// otherwise a pixel that depends on the eight channels alone.
#[verifier::external_body]
fn blend(bg: Rgba8, fg: Rgba8) -> (out: Rgba8)
    requires
        bg.a == OPAQUE,
    ensures
        fg.a == 0 ==> out == bg,
        fg.a == OPAQUE ==> out == fg,
        0 < fg.a < OPAQUE ==> out.channels() == blended(bg.channels(), fg.channels()),
{
    let mut pixel = image::Rgba([bg.r, bg.g, bg.b, bg.a]);
    image::Pixel::blend(&mut pixel, &image::Rgba([fg.r, fg.g, fg.b, fg.a]));
    Rgba8 { r: pixel.0[0], g: pixel.0[1], b: pixel.0[2], a: pixel.0[3] }
}

/// The color that shows where `src` lies over the solid color `border`.
pub open spec fn spec_blend_over(border: Rgb8, src: Rgba8) -> Rgb8 {
    source_over(border.spec_opaque(), src).spec_color()
}

/// The color that shows where `src` lies over the solid color `border`.
#[verifier::when_used_as_spec(spec_blend_over)]
pub fn blend_over(border: Rgb8, src: Rgba8) -> (out: Rgb8)
    ensures
        out == spec_blend_over(border, src),
        src.a == 0 ==> out == border,
        src.a == OPAQUE ==> out == src.spec_color(),
{
    blend(border.opaque(), src).color()
}

/// A transparent pixel shows the border color unchanged, and an opaque pixel
/// shows its own color unchanged.
pub proof fn lemma_blend_extremes(border: Rgb8, src: Rgba8)
    ensures
        src.a == 0 ==> spec_blend_over(border, src) == border,
        src.a == OPAQUE ==> spec_blend_over(border, src) == src.spec_color(),
{
}

} // verus!
