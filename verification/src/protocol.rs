//! The wire commands of the pixel canvas protocol and their encoder.
//!
//! Three commands exist: a size query (`SIZE`), a pixel write
//! (`PX <x> <y> <rrggbb>`), and a pixel read (`PX <x> <y>`).  Every line
//! is ASCII and newline-terminated; colors are written as lowercase hex,
//! zero-padded to six digits; coordinates as decimal without leading
//! zeros.

use vstd::prelude::*;
use crate::digits::{dec_digits, hex_digits_wide};

verus! {

/// One wire command.
pub enum PixelflutCommand {
    /// Ask the server for the canvas dimensions.
    Size,
    /// Set the pixel at (x, y).  The color packs red, green and blue into
    /// the low 24 bits: `0x00rrggbb`.
    SetPixel { x: u16, y: u16, rgb: u32 },
    /// Ask the server for the color of the pixel at (x, y).
    GetPixel { x: u16, y: u16 },
}

/// The bytes of a `SIZE` line.
pub open spec fn spec_size_line() -> Seq<u8> {
    seq![83u8, 73u8, 90u8, 69u8, 10u8]
}

/// The bytes of a `PX <x> <y> <rrggbb>` line.
pub open spec fn spec_set_pixel_line(x: u16, y: u16, rgb: u32) -> Seq<u8> {
    seq![80u8, 88u8, 32u8] + dec_digits(x as nat) + seq![32u8] + dec_digits(y as nat) + seq![32u8]
        + hex_digits_wide(rgb as nat, 6) + seq![10u8]
}

/// The bytes of a `PX <x> <y>` line.
pub open spec fn spec_get_pixel_line(x: u16, y: u16) -> Seq<u8> {
    seq![80u8, 88u8, 32u8] + dec_digits(x as nat) + seq![32u8] + dec_digits(y as nat) + seq![10u8]
}

/// The encoding of one command.
pub open spec fn spec_encode(cmd: PixelflutCommand) -> Seq<u8> {
    match cmd {
        PixelflutCommand::Size => spec_size_line(),
        PixelflutCommand::SetPixel { x, y, rgb } => spec_set_pixel_line(x, y, rgb),
        PixelflutCommand::GetPixel { x, y } => spec_get_pixel_line(x, y),
    }
}

impl PixelflutCommand {
    /// Appends the encoding of this command to `vec`.
    pub fn write_to_vec(&self, vec: &mut Vec<u8>)
        ensures
            final(vec)@ == old(vec)@ + spec_encode(*self),
    {
        match self {
            PixelflutCommand::Size => {
                vec.push(83);
                vec.push(73);
                vec.push(90);
                vec.push(69);
                vec.push(10);
                assert(vec@ =~= old(vec)@ + spec_encode(*self));
            },
            PixelflutCommand::SetPixel { x, y, rgb } => {
                vec.push(80);
                vec.push(88);
                vec.push(32);
                crate::digits::push_dec_u16(vec, *x);
                vec.push(32);
                crate::digits::push_dec_u16(vec, *y);
                vec.push(32);
                crate::digits::push_hex_u32(vec, *rgb, 6);
                vec.push(10);
                assert(vec@ =~= old(vec)@ + spec_encode(*self));
            },
            PixelflutCommand::GetPixel { x, y } => {
                vec.push(80);
                vec.push(88);
                vec.push(32);
                crate::digits::push_dec_u16(vec, *x);
                vec.push(32);
                crate::digits::push_dec_u16(vec, *y);
                vec.push(10);
                assert(vec@ =~= old(vec)@ + spec_encode(*self));
            },
        }
    }

    /// The encoding of this command as a fresh buffer.
    pub fn encode(&self) -> (v: Vec<u8>)
        ensures
            v@ == spec_encode(*self),
    {
        let mut v: Vec<u8> = Vec::new();
        self.write_to_vec(&mut v);
        v
    }
}

/// The concatenated `PX <x> <y>` queries for a batch of coordinates, in
/// order: what one write sends to ask for all their colors at once.
pub open spec fn spec_get_pixel_request(ps: Seq<(u16, u16)>) -> Seq<u8>
    decreases ps.len(),
{
    if ps.len() == 0 {
        Seq::empty()
    } else {
        spec_get_pixel_request(ps.drop_last()) + spec_get_pixel_line(ps.last().0, ps.last().1)
    }
}

/// Builds the batched color-query write for `pixels`: one `PX <x> <y>`
/// line per coordinate, concatenated in order.
pub fn build_get_pixel_request(pixels: &Vec<(u16, u16)>) -> (v: Vec<u8>)
    ensures
        v@ == spec_get_pixel_request(pixels@),
{
    let mut v: Vec<u8> = Vec::new();
    let mut i: usize = 0;
    while i < pixels.len()
        invariant
            i <= pixels@.len(),
            v@ == spec_get_pixel_request(pixels@.take(i as int)),
        decreases pixels@.len() - i,
    {
        let (x, y) = pixels[i];
        PixelflutCommand::GetPixel { x, y }.write_to_vec(&mut v);
        proof {
            let t = pixels@.take(i + 1 as int);
            assert(t.drop_last() =~= pixels@.take(i as int));
            assert(t.last() == pixels@[i as int]);
        }
        i += 1;
    }
    proof {
        assert(pixels@.take(pixels@.len() as int) =~= pixels@);
    }
    v
}

/// A reference model of the canvas: the color each coordinate was last
/// set to.
pub open spec fn apply_set_pixel(
    canvas: Map<(u16, u16), u32>,
    x: u16,
    y: u16,
    rgb: u32,
) -> Map<(u16, u16), u32> {
    canvas.insert((x, y), rgb)
}

/// Setting a pixel twice to the same color leaves the canvas exactly as
/// setting it once does: replaying a frame's draw commands is harmless.
pub proof fn lemma_set_pixel_idempotent(canvas: Map<(u16, u16), u32>, x: u16, y: u16, rgb: u32)
    ensures
        apply_set_pixel(apply_set_pixel(canvas, x, y, rgb), x, y, rgb) == apply_set_pixel(
            canvas,
            x,
            y,
            rgb,
        ),
{
    assert(apply_set_pixel(apply_set_pixel(canvas, x, y, rgb), x, y, rgb) =~= apply_set_pixel(
        canvas,
        x,
        y,
        rgb,
    ));
}

/// A drawable entity: one operation, producing the draw-command bytes
/// that render its current appearance.  A sender loops taking these
/// bytes and writing them to its own connection.
pub trait Draw {
    /// The draw-command bytes this entity currently renders as.
    spec fn spec_draw_bytes(&self) -> Seq<u8>;

    fn draw(&self) -> (r: Vec<u8>)
        ensures
            r@ == self.spec_draw_bytes(),
    ;
}

} // verus!
