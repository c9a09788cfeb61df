//! Background clouds drifting across the screen.
use crate::physics::Point;
use vstd::prelude::*;

verus! {

/// How far past either edge of the screen a cloud travels before it wraps.
pub const CLOUD_MARGIN: i64 = 100;

/// Largest speed of a cloud, in units per second.
pub const MAX_CLOUD_SPEED: i64 = 1000;

/// Largest screen width a cloud is kept within.
pub const MAX_SCREEN_WIDTH: i64 = 1_000_000;

/// A cloud: where it is, its drawing scale in percent, and its speed.
#[derive(Clone, Copy, Debug, PartialEq, Eq, Structural)]
pub struct Cloud {
    pub position: Point,
    pub scale_percent: u32,
    pub speed: i64,
}

/// Where a cloud at `x` moving at `speed` is `delta_ms` later on a screen
/// `width` wide: it drifts right and, once past the right margin, comes back
/// in at the left margin.
pub open spec fn drift(x: int, speed: int, delta_ms: int, width: int) -> int {
    let moved = x + speed * delta_ms / 1000;
    if moved > width + CLOUD_MARGIN {
        -CLOUD_MARGIN
    } else {
        moved
    }
}

impl Cloud {
    /// The cloud stays within the margins and moves at a bounded speed.
    pub open spec fn wf(&self, width: i64) -> bool {
        &&& -CLOUD_MARGIN <= self.position.x <= width + CLOUD_MARGIN
        &&& 0 <= self.speed <= MAX_CLOUD_SPEED
        &&& 0 <= width <= MAX_SCREEN_WIDTH
    }

    /// A cloud at `(pos_x, pos_y)`.
    pub fn new(pos_x: i64, pos_y: i64, scale_percent: u32, speed: i64) -> (r: Cloud)
        ensures
            r.position == (Point { x: pos_x, y: pos_y }),
            r.scale_percent == scale_percent,
            r.speed == speed,
    {
        Cloud { position: Point { x: pos_x, y: pos_y }, scale_percent, speed }
    }

    /// Drifts for `delta_ms` milliseconds across a screen `width` wide.
    pub fn update(&mut self, delta_ms: u32, width: i64)
        requires
            old(self).wf(width),
        ensures
            final(self).wf(width),
            final(self).position.x == drift(
                old(self).position.x as int,
                old(self).speed as int,
                delta_ms as int,
                width as int,
            ),
            final(self).position.y == old(self).position.y,
            final(self).speed == old(self).speed,
            final(self).scale_percent == old(self).scale_percent,
    {
        assert(0 <= self.speed * (delta_ms as i64) <= MAX_CLOUD_SPEED * 0xffff_ffffi64) by (nonlinear_arith)
            requires
                0 <= self.speed <= MAX_CLOUD_SPEED,
                0 <= delta_ms <= 0xffff_ffffi64,
        ;
        let moved = self.position.x + self.speed * (delta_ms as i64) / 1000;
        if moved > width + CLOUD_MARGIN {
            self.position = Point { x: -CLOUD_MARGIN, y: self.position.y };
        } else {
            self.position = Point { x: moved, y: self.position.y };
        }
    }
}

} // verus!
