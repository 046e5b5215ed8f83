//! The two goal decorations: static images drawn at the left and right
//! canvas edges, each with a hitbox anchored to its image position.

use vstd::prelude::*;
use crate::draw::{draw_image, spec_draw_image};
use crate::image::Image;
use crate::protocol::Draw;
use crate::frame::copy_bytes;

verus! {

/// Pixel dimensions of the goal image asset.
pub const GOAL_IMAGE_WIDTH: u16 = 338;

pub const GOAL_IMAGE_HEIGHT: u16 = 600;

/// Pixel dimensions of the goal's hitbox.
pub const HITBOX_WIDTH: u16 = 117;

pub const HITBOX_HEIGHT: u16 = 310;

/// A goal: its pre-encoded draw commands and its hitbox corner.
pub struct Goal {
    pub draw_commands: Vec<u8>,
    pub hitbox_x: u16,
    pub hitbox_y: u16,
}

impl Goal {
    fn new(
        img: &Image,
        image_x: u16,
        image_y: u16,
        hitbox_x: u16,
        hitbox_y: u16,
        fliph: bool,
    ) -> (g: Goal)
        requires
            img@.wf(),
            img@.height > 0,
            image_x + img@.width <= 65536,
            image_y + img@.height <= 65536,
        ensures
            g.hitbox_x == hitbox_x,
            g.hitbox_y == hitbox_y,
            g.draw_commands@ == spec_draw_image(
                if fliph {
                    img@.fliph()
                } else {
                    img@
                },
                image_x as int,
                image_y as int,
            ),
    {
        let draw_commands = if fliph {
            let flipped = img.fliph();
            draw_image(&flipped, image_x, image_y)
        } else {
            draw_image(img, image_x, image_y)
        };
        Goal { draw_commands, hitbox_x, hitbox_y }
    }

    /// The goal at the left canvas edge, vertically centered.
    pub fn left(screen_height: u16, img: &Image) -> (g: Goal)
        requires
            img@.wf(),
            img@.width == GOAL_IMAGE_WIDTH as nat,
            img@.height == GOAL_IMAGE_HEIGHT as nat,
            GOAL_IMAGE_HEIGHT <= screen_height,
        ensures
            g.hitbox_x == 0,
            g.hitbox_y as int == (screen_height - GOAL_IMAGE_HEIGHT) as int / 2 + (GOAL_IMAGE_HEIGHT
                - HITBOX_HEIGHT) as int / 2,
            g.draw_commands@ == spec_draw_image(
                img@,
                0,
                (screen_height - GOAL_IMAGE_HEIGHT) as int / 2,
            ),
    {
        let image_x: u16 = 0;
        let image_y = (screen_height - GOAL_IMAGE_HEIGHT) / 2;
        let hitbox_x: u16 = 0;
        let hitbox_y = image_y + (GOAL_IMAGE_HEIGHT - HITBOX_HEIGHT) / 2;
        Goal::new(img, image_x, image_y, hitbox_x, hitbox_y, false)
    }

    /// The goal at the right canvas edge, vertically centered, its image
    /// mirrored horizontally.
    pub fn right(screen_width: u16, screen_height: u16, img: &Image) -> (g: Goal)
        requires
            img@.wf(),
            img@.width == GOAL_IMAGE_WIDTH as nat,
            img@.height == GOAL_IMAGE_HEIGHT as nat,
            GOAL_IMAGE_WIDTH <= screen_width,
            GOAL_IMAGE_HEIGHT <= screen_height,
        ensures
            g.hitbox_x == screen_width - HITBOX_WIDTH,
            g.hitbox_y as int == (screen_height - GOAL_IMAGE_HEIGHT) as int / 2 + (GOAL_IMAGE_HEIGHT
                - HITBOX_HEIGHT) as int / 2,
            g.draw_commands@ == spec_draw_image(
                img@.fliph(),
                (screen_width - GOAL_IMAGE_WIDTH) as int,
                (screen_height - GOAL_IMAGE_HEIGHT) as int / 2,
            ),
    {
        let image_x = screen_width - GOAL_IMAGE_WIDTH;
        let image_y = (screen_height - GOAL_IMAGE_HEIGHT) / 2;
        let hitbox_x = screen_width - HITBOX_WIDTH;
        let hitbox_y = image_y + (GOAL_IMAGE_HEIGHT - HITBOX_HEIGHT) / 2;
        Goal::new(img, image_x, image_y, hitbox_x, hitbox_y, true)
    }
}

impl Draw for Goal {
    /// A goal renders as its pre-encoded draw commands.
    open spec fn spec_draw_bytes(&self) -> Seq<u8> {
        self.draw_commands@
    }

    fn draw(&self) -> (r: Vec<u8>)
        ensures
            r@ == self.spec_draw_bytes(),
    {
        copy_bytes(&self.draw_commands)
    }
}

} // verus!
