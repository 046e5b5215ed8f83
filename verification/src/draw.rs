//! Draw-command generation: the pre-encoded byte buffers that render a
//! rectangle, an image, or a set of single pixels.  Each generator's
//! contract pins the exact byte sequence: the concatenation of pixel
//! writes in column-major order.

use vstd::prelude::*;
use crate::protocol::{spec_set_pixel_line, PixelflutCommand};
use crate::image::{Image, ImageView, Pixel};

verus! {

/// The packed 24-bit color of a pixel: `0x00rrggbb`.
pub open spec fn spec_rgb(p: Pixel) -> u32 {
    (p.r * 0x10000 + p.g * 0x100 + p.b) as u32
}

fn rgb_of_pixel(p: Pixel) -> (c: u32)
    ensures
        c == spec_rgb(p),
{
    (p.r as u32) * 0x10000 + (p.g as u32) * 0x100 + (p.b as u32)
}

/// The pixel writes of one rectangle column at absolute column `x`: rows
/// `y_off .. y_off + y_count`, all in one color.
pub open spec fn spec_rect_col(x: int, y_off: int, rgb: u32, y_count: int) -> Seq<u8>
    decreases y_count,
{
    if y_count <= 0 {
        Seq::empty()
    } else {
        spec_rect_col(x, y_off, rgb, y_count - 1) + spec_set_pixel_line(
            x as u16,
            (y_off + y_count - 1) as u16,
            rgb,
        )
    }
}

/// The pixel writes of a rectangle: columns `x_off .. x_off + x_count`,
/// left to right, each column top to bottom.
pub open spec fn spec_rect(x_off: int, y_off: int, rgb: u32, x_count: int, height: int) -> Seq<u8>
    decreases x_count,
{
    if x_count <= 0 {
        Seq::empty()
    } else {
        spec_rect(x_off, y_off, rgb, x_count - 1, height) + spec_rect_col(
            x_off + x_count - 1,
            y_off,
            rgb,
            height,
        )
    }
}

/// Builds the draw commands of a solid rectangle: one pixel write per
/// coordinate, columns left to right, rows top to bottom.
pub fn draw_rect(x_offset: u16, y_offset: u16, width: u16, height: u16, rgb: u32) -> (v: Vec<u8>)
    requires
        x_offset + width <= 65536,
        y_offset + height <= 65536,
    ensures
        v@ == spec_rect(x_offset as int, y_offset as int, rgb, width as int, height as int),
{
    let mut v: Vec<u8> = Vec::new();
    let mut dx: u16 = 0;
    while dx < width
        invariant
            dx <= width,
            x_offset + width <= 65536,
            y_offset + height <= 65536,
            v@ == spec_rect(x_offset as int, y_offset as int, rgb, dx as int, height as int),
        decreases width - dx,
    {
        let x = x_offset + dx;
        let mut dy: u16 = 0;
        while dy < height
            invariant
                dx < width,
                dy <= height,
                x == x_offset + dx,
                x_offset + width <= 65536,
                y_offset + height <= 65536,
                v@ == spec_rect(x_offset as int, y_offset as int, rgb, dx as int, height as int)
                    + spec_rect_col(x as int, y_offset as int, rgb, dy as int),
            decreases height - dy,
        {
            let y = y_offset + dy;
            PixelflutCommand::SetPixel { x, y, rgb }.write_to_vec(&mut v);
            proof {
                assert(v@ =~= spec_rect(x_offset as int, y_offset as int, rgb, dx as int, height as int)
                    + spec_rect_col(x as int, y_offset as int, rgb, dy as int + 1));
            }
            dy += 1;
        }
        proof {
            assert(v@ =~= spec_rect(x_offset as int, y_offset as int, rgb, dx as int + 1, height as int));
        }
        dx += 1;
    }
    v
}

/// The pixel writes of one image column: rows top to bottom, fully
/// transparent pixels skipped.
pub open spec fn spec_image_col(
    img: ImageView,
    x_off: int,
    y_off: int,
    x: int,
    y_count: int,
) -> Seq<u8>
    decreases y_count,
{
    if y_count <= 0 {
        Seq::empty()
    } else {
        spec_image_col(img, x_off, y_off, x, y_count - 1) + (if img.pix(x, y_count - 1).a == 0 {
            Seq::empty()
        } else {
            spec_set_pixel_line(
                (x_off + x) as u16,
                (y_off + y_count - 1) as u16,
                spec_rgb(img.pix(x, y_count - 1)),
            )
        })
    }
}

/// The pixel writes of the first `x_count` image columns, left to right.
pub open spec fn spec_image_cols(img: ImageView, x_off: int, y_off: int, x_count: int) -> Seq<u8>
    decreases x_count,
{
    if x_count <= 0 {
        Seq::empty()
    } else {
        spec_image_cols(img, x_off, y_off, x_count - 1) + spec_image_col(
            img,
            x_off,
            y_off,
            x_count - 1,
            img.height as int,
        )
    }
}

/// The draw commands that render an image at an offset: every
/// non-transparent pixel set to its packed color, columns left to right,
/// rows top to bottom.
pub open spec fn spec_draw_image(img: ImageView, x_off: int, y_off: int) -> Seq<u8> {
    spec_image_cols(img, x_off, y_off, img.width as int)
}

/// Builds the draw commands that render `image` with its top-left corner
/// at the given offset, skipping fully transparent pixels.
pub fn draw_image(image: &Image, x_offset: u16, y_offset: u16) -> (v: Vec<u8>)
    requires
        image@.wf(),
        x_offset + image@.width <= 65536,
        y_offset + image@.height <= 65536,
    ensures
        v@ == spec_draw_image(image@, x_offset as int, y_offset as int),
{
    let width = image.width();
    let height = image.height();
    let mut v: Vec<u8> = Vec::new();
    let mut x: u16 = 0;
    while x < width
        invariant
            image@.wf(),
            width as nat == image@.width,
            height as nat == image@.height,
            x <= width,
            x_offset + width <= 65536,
            y_offset + height <= 65536,
            v@ == spec_image_cols(image@, x_offset as int, y_offset as int, x as int),
        decreases width - x,
    {
        let mut y: u16 = 0;
        while y < height
            invariant
                image@.wf(),
                width as nat == image@.width,
                height as nat == image@.height,
                x < width,
                y <= height,
                x_offset + width <= 65536,
                y_offset + height <= 65536,
                v@ == spec_image_cols(image@, x_offset as int, y_offset as int, x as int)
                    + spec_image_col(image@, x_offset as int, y_offset as int, x as int, y as int),
            decreases height - y,
        {
            let p = image.get(x, y);
            if p.a != 0 {
                let rgb = rgb_of_pixel(p);
                PixelflutCommand::SetPixel { x: x_offset + x, y: y_offset + y, rgb }.write_to_vec(
                    &mut v,
                );
            }
            proof {
                assert(v@ =~= spec_image_cols(image@, x_offset as int, y_offset as int, x as int)
                    + spec_image_col(
                    image@,
                    x_offset as int,
                    y_offset as int,
                    x as int,
                    y as int + 1,
                ));
            }
            y += 1;
        }
        proof {
            assert(v@ =~= spec_image_cols(image@, x_offset as int, y_offset as int, x as int + 1));
        }
        x += 1;
    }
    v
}

/// The pixel writes of a list of coordinates, in order, all one color.
pub open spec fn spec_draw_coords(coords: Seq<(u16, u16)>, rgb: u32) -> Seq<u8>
    decreases coords.len(),
{
    if coords.len() == 0 {
        Seq::empty()
    } else {
        spec_draw_coords(coords.drop_last(), rgb) + spec_set_pixel_line(
            coords.last().0,
            coords.last().1,
            rgb,
        )
    }
}

/// Builds one pixel write per coordinate, in order, all in one color.
pub fn draw_coordinates(coordinates: Vec<(u16, u16)>, rgb: u32) -> (v: Vec<u8>)
    ensures
        v@ == spec_draw_coords(coordinates@, rgb),
{
    let mut v: Vec<u8> = Vec::new();
    let mut i: usize = 0;
    while i < coordinates.len()
        invariant
            i <= coordinates@.len(),
            v@ == spec_draw_coords(coordinates@.take(i as int), rgb),
        decreases coordinates@.len() - i,
    {
        let (x, y) = coordinates[i];
        PixelflutCommand::SetPixel { x, y, rgb }.write_to_vec(&mut v);
        proof {
            let t = coordinates@.take(i as int + 1);
            assert(t.drop_last() =~= coordinates@.take(i as int));
            assert(t.last() == coordinates@[i as int]);
            assert(v@ =~= spec_draw_coords(t, rgb));
        }
        i += 1;
    }
    proof {
        assert(coordinates@.take(coordinates@.len() as int) =~= coordinates@);
    }
    v
}

} // verus!
