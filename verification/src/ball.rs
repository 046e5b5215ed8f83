//! The bouncing sprite: its authoritative state, the physics step, the
//! lookahead ray it samples for obstacles, and its draw commands.
//!
//! Positions and velocities are integers in milli-pixels (thousandths of
//! a pixel), so every step of the update is exact arithmetic.  The
//! direction of travel is the velocity vector itself: negating a
//! component bounces that axis, and the vector after all negations is
//! the new direction.

use vstd::prelude::*;
use vstd::arithmetic::div_mod::{lemma_div_is_ordered, lemma_div_multiples_vanish};
use crate::line::{
    coordinates_on_line_with_dir_and_skip_offset, isqrt, px_of_mpx, ray_points, sqrt_floor,
    step_toward, to_px,
};
use crate::draw::{draw_image, spec_draw_image};
use crate::image::Image;

verus! {

/// Pixel width and height of the sprite's (square) image.
pub const BALL_IMAGE_DIAMETER: u16 = 80;

/// Length of the obstacle lookahead ray, in milli-pixels (100 pixels).
/// Anything nearer than the sprite's own radius is never sampled.
pub const LOOKAHEAD_MPX: i64 = 100000;

/// Hard cap on the per-tick movement, in milli-pixels (64 pixels).
pub const MAX_STEP_MPX: i64 = 64000;

/// The sprite: center position and per-tick velocity in milli-pixels,
/// radius, canvas dimensions, and the obstacle bounce policy.
///
/// Exactly one task mutates a `Ball` (by replacing it each tick); any
/// number of readers may take copies of the published scalars.
#[derive(Clone, Copy, PartialEq, Eq, Structural, Debug)]
pub struct Ball {
    pub center_x: i64,
    pub center_y: i64,
    pub vel_x: i64,
    pub vel_y: i64,
    pub radius: i64,
    pub screen_width: u16,
    pub screen_height: u16,
    /// Whether an obstacle hit also flips the vertical movement.  The
    /// default policy flips only the horizontal component; this flag
    /// makes that choice explicit rather than incidental.
    pub obstacle_flips_y: bool,
}

impl Ball {
    /// Canvas width in milli-pixels.
    pub open spec fn w_mpx(self) -> int {
        self.screen_width as int * 1000
    }

    /// Canvas height in milli-pixels.
    pub open spec fn h_mpx(self) -> int {
        self.screen_height as int * 1000
    }

    /// The configuration invariant: a positive radius, a canvas that
    /// leaves room for the sprite plus one full step on each side, and a
    /// velocity within the per-tick cap.  Preserved by every step.
    pub open spec fn wf(self) -> bool {
        &&& 0 < self.radius <= 0x4000000
        &&& self.screen_width <= 65455
        &&& self.screen_height <= 65455
        &&& 2 * self.radius + 2 * MAX_STEP_MPX <= self.w_mpx()
        &&& 2 * self.radius + 2 * MAX_STEP_MPX <= self.h_mpx()
        &&& -MAX_STEP_MPX <= self.vel_x <= MAX_STEP_MPX
        &&& -MAX_STEP_MPX <= self.vel_y <= MAX_STEP_MPX
    }

    /// The center is far from the integer range's ends, so a step's
    /// arithmetic cannot overflow.  Any position near the canvas
    /// satisfies this by an astronomical margin.
    pub open spec fn center_in_range(self) -> bool {
        &&& -0x1000000000000000 <= self.center_x <= 0x1000000000000000
        &&& -0x1000000000000000 <= self.center_y <= 0x1000000000000000
    }

    /// The tentative center: one velocity step ahead, before any bounce.
    pub open spec fn tent_x(self) -> int {
        self.center_x + self.vel_x
    }

    pub open spec fn tent_y(self) -> int {
        self.center_y + self.vel_y
    }

    /// The tentative position overlaps the left or right canvas edge.
    pub open spec fn edge_bounce_x(self) -> bool {
        self.tent_x() - self.radius <= 0 || self.tent_x() + self.radius >= self.w_mpx()
    }

    /// The tentative position overlaps the top or bottom canvas edge.
    pub open spec fn edge_bounce_y(self) -> bool {
        self.tent_y() - self.radius <= 0 || self.tent_y() + self.radius >= self.h_mpx()
    }

    /// The horizontal movement after the edge response.
    pub open spec fn edge_moved_x(self) -> int {
        if self.edge_bounce_x() {
            -(self.vel_x as int)
        } else {
            self.vel_x as int
        }
    }

    /// The vertical movement after the edge response.
    pub open spec fn edge_moved_y(self) -> int {
        if self.edge_bounce_y() {
            -(self.vel_y as int)
        } else {
            self.vel_y as int
        }
    }

    /// The horizontal movement this tick: edge response first, then the
    /// obstacle response on top of it.
    pub open spec fn moved_x(self, obstacle: bool) -> int {
        if obstacle {
            -self.edge_moved_x()
        } else {
            self.edge_moved_x()
        }
    }

    /// The vertical movement this tick; the obstacle response touches it
    /// only under the explicit policy flag.
    pub open spec fn moved_y(self, obstacle: bool) -> int {
        if obstacle && self.obstacle_flips_y {
            -self.edge_moved_y()
        } else {
            self.edge_moved_y()
        }
    }

    /// A sprite centered on the canvas with the given velocity; the
    /// radius is half the sprite image's diameter.
    pub fn new(
        screen_width: u16,
        screen_height: u16,
        vel_x: i64,
        vel_y: i64,
        obstacle_flips_y: bool,
    ) -> (b: Ball)
        requires
            208 <= screen_width <= 65455,
            208 <= screen_height <= 65455,
            -MAX_STEP_MPX <= vel_x <= MAX_STEP_MPX,
            -MAX_STEP_MPX <= vel_y <= MAX_STEP_MPX,
        ensures
            b.center_x == (screen_width as int / 2) * 1000,
            b.center_y == (screen_height as int / 2) * 1000,
            b.vel_x == vel_x,
            b.vel_y == vel_y,
            b.radius == BALL_IMAGE_DIAMETER as int * 500,
            b.screen_width == screen_width,
            b.screen_height == screen_height,
            b.obstacle_flips_y == obstacle_flips_y,
            b.wf(),
            b.center_in_range(),
            b.radius <= b.center_x <= b.w_mpx() - b.radius,
            b.radius <= b.center_y <= b.h_mpx() - b.radius,
    {
        let radius = (BALL_IMAGE_DIAMETER as i64 / 2) * 1000;
        Ball {
            center_x: ((screen_width / 2) as i64) * 1000,
            center_y: ((screen_height / 2) as i64) * 1000,
            vel_x,
            vel_y,
            radius,
            screen_width,
            screen_height,
            obstacle_flips_y,
        }
    }

    /// One physics step.  `obstacle` says whether the sampled lookahead
    /// ray met the obstacle threshold this tick; edge bounces are
    /// decided here from the tentative position.  The new center is the
    /// old one moved by the possibly-negated movement, and the new
    /// direction is that movement.
    pub fn tick(&self, obstacle: bool) -> (b: Ball)
        requires
            self.wf(),
            self.center_in_range(),
        ensures
            b.center_x == self.center_x + self.moved_x(obstacle),
            b.center_y == self.center_y + self.moved_y(obstacle),
            b.vel_x == self.moved_x(obstacle),
            b.vel_y == self.moved_y(obstacle),
            b.radius == self.radius,
            b.screen_width == self.screen_width,
            b.screen_height == self.screen_height,
            b.obstacle_flips_y == self.obstacle_flips_y,
            b.wf(),
    {
        let tx = self.center_x + self.vel_x;
        let ty = self.center_y + self.vel_y;
        let mut mx = self.vel_x;
        let mut my = self.vel_y;
        if tx - self.radius <= 0 || tx + self.radius >= (self.screen_width as i64) * 1000 {
            mx = -mx;
        }
        if ty - self.radius <= 0 || ty + self.radius >= (self.screen_height as i64) * 1000 {
            my = -my;
        }
        if obstacle {
            mx = -mx;
            if self.obstacle_flips_y {
                my = -my;
            }
        }
        Ball {
            center_x: self.center_x + mx,
            center_y: self.center_y + my,
            vel_x: mx,
            vel_y: my,
            radius: self.radius,
            screen_width: self.screen_width,
            screen_height: self.screen_height,
            obstacle_flips_y: self.obstacle_flips_y,
        }
    }

    /// Both endpoints of the lookahead ray lie strictly inside the
    /// canvas, and the sprite is moving at all (a motionless sprite has
    /// no ray).
    pub open spec fn ray_endpoints_inside(self) -> bool {
        let nv = sqrt_floor((self.vel_x * self.vel_x + self.vel_y * self.vel_y) as nat);
        let sx = self.tent_x() + step_toward(self.vel_x as int, nv, self.radius as nat);
        let sy = self.tent_y() + step_toward(self.vel_y as int, nv, self.radius as nat);
        let fx = self.tent_x() + step_toward(self.vel_x as int, nv, LOOKAHEAD_MPX as nat);
        let fy = self.tent_y() + step_toward(self.vel_y as int, nv, LOOKAHEAD_MPX as nat);
        &&& nv != 0
        &&& 0 < sx < self.w_mpx()
        &&& 0 < sy < self.h_mpx()
        &&& 0 < fx < self.w_mpx()
        &&& 0 < fy < self.h_mpx()
    }

    /// The coordinates to sample ahead of the sprite this tick: the ray
    /// from the tentative center along the current direction, from the
    /// sprite's own radius out to the lookahead distance.  `None` when
    /// either endpoint of the ray would not lie strictly inside the
    /// canvas (the whole sample is skipped rather than clamped, to avoid
    /// false obstacle readings at the boundary), or when the sprite is
    /// not moving.
    pub fn lookahead_coordinates(&self) -> (r: Option<Vec<(u16, u16)>>)
        requires
            self.wf(),
            self.center_in_range(),
        ensures
            (match r {
                Some(v) => self.ray_endpoints_inside() && v@ == ray_points(
                    self.tent_x(),
                    self.tent_y(),
                    self.vel_x as int,
                    self.vel_y as int,
                    LOOKAHEAD_MPX as nat,
                    self.radius as nat,
                ),
                None => !self.ray_endpoints_inside(),
            }),
    {
        let tx = self.center_x + self.vel_x;
        let ty = self.center_y + self.vel_y;
        let avx: u64 = if self.vel_x >= 0 {
            self.vel_x as u64
        } else {
            (-self.vel_x) as u64
        };
        let avy: u64 = if self.vel_y >= 0 {
            self.vel_y as u64
        } else {
            (-self.vel_y) as u64
        };
        proof {
            assert(avx * avx + avy * avy < 0x4000000000000000) by (nonlinear_arith)
                requires
                    avx <= 0x10000,
                    avy <= 0x10000,
            ;
            assert(avx as int * avx + avy as int * avy == self.vel_x as int * self.vel_x
                + self.vel_y as int * self.vel_y) by (nonlinear_arith)
                requires
                    avx == (if self.vel_x >= 0 {
                        self.vel_x as int
                    } else {
                        -(self.vel_x as int)
                    }) && avy == (if self.vel_y >= 0 {
                        self.vel_y as int
                    } else {
                        -(self.vel_y as int)
                    }),
            ;
        }
        let nv = isqrt(avx * avx + avy * avy);
        if nv == 0 {
            return None;
        }
        proof {
            crate::line::lemma_component_le_norm(self.vel_x as int, self.vel_y as int);
            crate::line::lemma_component_le_norm(self.vel_y as int, self.vel_x as int);
            assert(self.vel_y as int * self.vel_y + self.vel_x as int * self.vel_x
                == self.vel_x as int * self.vel_x + self.vel_y as int * self.vel_y);
            crate::line::lemma_step_toward_bound(
                self.vel_x as int,
                nv as nat,
                LOOKAHEAD_MPX as nat,
            );
            crate::line::lemma_step_toward_bound(
                self.vel_y as int,
                nv as nat,
                LOOKAHEAD_MPX as nat,
            );
            crate::line::lemma_step_toward_bound(self.vel_x as int, nv as nat, self.radius as nat);
            crate::line::lemma_step_toward_bound(self.vel_y as int, nv as nat, self.radius as nat);
        }
        let sx = tx + crate::line::step_offset(self.vel_x, nv, self.radius);
        let sy = ty + crate::line::step_offset(self.vel_y, nv, self.radius);
        let fx = tx + crate::line::step_offset(self.vel_x, nv, LOOKAHEAD_MPX);
        let fy = ty + crate::line::step_offset(self.vel_y, nv, LOOKAHEAD_MPX);
        let w = (self.screen_width as i64) * 1000;
        let h = (self.screen_height as i64) * 1000;
        if sx > 0 && sx < w && sy > 0 && sy < h && fx > 0 && fx < w && fy > 0 && fy < h {
            Some(
                coordinates_on_line_with_dir_and_skip_offset(
                    tx,
                    ty,
                    self.vel_x,
                    self.vel_y,
                    LOOKAHEAD_MPX,
                    self.radius,
                ),
            )
        } else {
            None
        }
    }

    /// The draw commands that render the sprite's image with its center
    /// at the sprite's current position (its top-left corner one radius
    /// up and left, truncated to pixels).
    pub fn get_draw_commands(&self, img: &Image) -> (v: Vec<u8>)
        requires
            self.wf(),
            self.center_in_range(),
            img@.wf(),
            img@.width == BALL_IMAGE_DIAMETER as nat,
            img@.height == BALL_IMAGE_DIAMETER as nat,
            self.center_x <= self.w_mpx() + self.radius,
            self.center_y <= self.h_mpx() + self.radius,
        ensures
            v@ == spec_draw_image(
                img@,
                to_px(self.center_x - self.radius) as int,
                to_px(self.center_y - self.radius) as int,
            ),
    {
        proof {
            lemma_div_is_ordered(self.center_x - self.radius, self.w_mpx(), 1000);
            lemma_div_is_ordered(self.center_y - self.radius, self.h_mpx(), 1000);
            lemma_div_multiples_vanish(self.screen_width as int, 1000);
            lemma_div_multiples_vanish(self.screen_height as int, 1000);
        }
        let x_off = px_of_mpx(self.center_x - self.radius);
        let y_off = px_of_mpx(self.center_y - self.radius);
        draw_image(img, x_off, y_off)
    }
}

/// Touching the left edge flips the horizontal movement: when
/// `center_x - radius` has reached zero and the sprite is not moving
/// away, the next step's horizontal movement is the negation of the
/// current one.  Edge touch triggers the bounce, not only overlap.
pub proof fn lemma_edge_touch_flips_x(b: Ball)
    requires
        b.wf(),
        b.center_x == b.radius,
        b.vel_x <= 0,
    ensures
        b.moved_x(false) == -b.vel_x,
        b.center_x + b.moved_x(false) == b.center_x - b.vel_x,
{
}

/// The vertical counterpart: touching the top edge flips the vertical
/// movement.
pub proof fn lemma_edge_touch_flips_y(b: Ball)
    requires
        b.wf(),
        b.center_y == b.radius,
        b.vel_y <= 0,
    ensures
        b.moved_y(false) == -b.vel_y,
        b.center_y + b.moved_y(false) == b.center_y - b.vel_y,
{
}

/// The soft position invariant: with no obstacle response, a step from a
/// center within `[radius, dimension - radius]` on both axes lands
/// within the same band.
pub proof fn lemma_tick_stays_interior(b: Ball)
    requires
        b.wf(),
        b.radius <= b.center_x <= b.w_mpx() - b.radius,
        b.radius <= b.center_y <= b.h_mpx() - b.radius,
    ensures
        b.radius <= b.center_x + b.moved_x(false) <= b.w_mpx() - b.radius,
        b.radius <= b.center_y + b.moved_y(false) <= b.h_mpx() - b.radius,
{
}

/// An obstacle response can carry the center out of the interior band by
/// at most one step on each axis.
pub proof fn lemma_tick_excursion(b: Ball, obstacle: bool)
    requires
        b.wf(),
        b.radius <= b.center_x <= b.w_mpx() - b.radius,
        b.radius <= b.center_y <= b.h_mpx() - b.radius,
    ensures
        b.radius - MAX_STEP_MPX <= b.center_x + b.moved_x(obstacle) <= b.w_mpx() - b.radius
            + MAX_STEP_MPX,
        b.radius - MAX_STEP_MPX <= b.center_y + b.moved_y(obstacle) <= b.h_mpx() - b.radius
            + MAX_STEP_MPX,
{
}

} // verus!
