//! A square that bounces around a fixed-size frame buffer one pixel per
//! frame, drawn as an outlined, filled box.
use vstd::prelude::*;

verus! {

/// Width of the frame, in pixels.
pub const WIDTH: i16 = 480;

/// Height of the frame, in pixels.
pub const HEIGHT: i16 = 320;

/// Number of bytes in an RGBA frame of `WIDTH` by `HEIGHT` pixels.
pub const FRAME_BYTES: usize = 614400;

/// The moving box: its side, top-left corner and velocity on each axis.
#[derive(Clone, Copy, Debug, PartialEq, Eq, Structural)]
pub struct BouncingBox {
    pub box_size: i16,
    pub box_x: i16,
    pub box_y: i16,
    pub velocity_x: i16,
    pub velocity_y: i16,
}

/// On one axis the box lies within `[0, limit]`, moves one pixel per frame,
/// and is moving away from any wall it touches.
pub open spec fn axis_wf(pos: int, size: int, vel: int, limit: int) -> bool {
    &&& 0 < size < limit
    &&& 0 <= pos
    &&& pos + size <= limit
    &&& vel == 1 || vel == -1
    &&& pos == 0 ==> vel == -1
    &&& pos + size == limit ==> vel == 1
}

/// The velocity after a frame: reversed when the box touches a wall.
pub open spec fn bounced(pos: int, size: int, vel: int, limit: int) -> int {
    if pos <= 0 || pos + size >= limit {
        -vel
    } else {
        vel
    }
}

/// The pixel `(x, y)` lies on the box's one-pixel outline.
pub open spec fn on_edge(b: BouncingBox, x: int, y: int) -> bool {
    let last_x = b.box_x + b.box_size - 1;
    let last_y = b.box_y + b.box_size - 1;
    ||| (x == b.box_x || x == last_x) && b.box_y <= y <= last_y
    ||| b.box_x <= x <= last_x && (y == b.box_y || y == last_y)
}

/// The pixel `(x, y)` lies strictly inside the box's outline.
pub open spec fn inside(b: BouncingBox, x: int, y: int) -> bool {
    &&& b.box_x < x < b.box_x + b.box_size - 1
    &&& b.box_y < y < b.box_y + b.box_size - 1
}

/// The RGBA colour of the box's interior.
pub open spec fn fill_color() -> Seq<u8> {
    seq![0x5eu8, 0x48u8, 0xe8u8, 0xffu8]
}

/// The RGBA colour of the box's outline.
pub open spec fn edge_color() -> Seq<u8> {
    seq![0x48u8, 0xb2u8, 0xe8u8, 0xffu8]
}

/// Byte `k` of the pixel `(x, y)` after drawing, given its byte before.
pub open spec fn shade(b: BouncingBox, x: int, y: int, k: int, before: u8) -> u8 {
    if inside(b, x, y) {
        fill_color()[k]
    } else if on_edge(b, x, y) {
        edge_color()[k]
    } else {
        before
    }
}

/// The frame byte at `idx` after drawing: pixels are laid out row by row,
/// four bytes each.
pub open spec fn drawn_byte(b: BouncingBox, idx: int, before: u8) -> u8 {
    let pixel = idx / 4;
    shade(b, pixel % (WIDTH as int), pixel / (WIDTH as int), idx % 4, before)
}

impl BouncingBox {
    pub open spec fn wf(&self) -> bool {
        &&& axis_wf(self.box_x as int, self.box_size as int, self.velocity_x as int, WIDTH as int)
        &&& axis_wf(self.box_y as int, self.box_size as int, self.velocity_y as int, HEIGHT as int)
    }

    /// A box of side 32 near the top-left corner, moving down and right.
    pub fn new() -> (r: BouncingBox)
        ensures
            r == (BouncingBox { box_size: 32, box_x: 16, box_y: 16, velocity_x: 1, velocity_y: 1 }),
            r.wf(),
    {
        BouncingBox { box_size: 32, box_x: 16, box_y: 16, velocity_x: 1, velocity_y: 1 }
    }

    /// Moves the box one step, first reversing its direction on each axis
    /// where it touches a wall.
    pub fn update(&mut self)
        requires
            old(self).wf(),
        ensures
            final(self).wf(),
            final(self).box_size == old(self).box_size,
            final(self).velocity_x == bounced(
                old(self).box_x as int,
                old(self).box_size as int,
                old(self).velocity_x as int,
                WIDTH as int,
            ),
            final(self).velocity_y == bounced(
                old(self).box_y as int,
                old(self).box_size as int,
                old(self).velocity_y as int,
                HEIGHT as int,
            ),
            final(self).box_x == old(self).box_x + final(self).velocity_x,
            final(self).box_y == old(self).box_y + final(self).velocity_y,
    {
        if self.box_x <= 0 || self.box_x + self.box_size >= WIDTH {
            self.velocity_x = -self.velocity_x;
        }
        if self.box_y <= 0 || self.box_y + self.box_size >= HEIGHT {
            self.velocity_y = -self.velocity_y;
        }
        self.box_x = self.box_x + self.velocity_x;
        self.box_y = self.box_y + self.velocity_y;
    }

    /// Draws the box into an RGBA frame of `WIDTH` by `HEIGHT` pixels,
    /// leaving every pixel outside the box as it was.
    pub fn render(&self, frame: &mut Vec<u8>)
        requires
            self.wf(),
            old(frame)@.len() == FRAME_BYTES,
        ensures
            final(frame)@.len() == FRAME_BYTES,
            forall|idx: int|
                0 <= idx < FRAME_BYTES ==> #[trigger] final(frame)@[idx] == drawn_byte(
                    *self,
                    idx,
                    old(frame)@[idx],
                ),
    {
        let ghost before = frame@;
        let pixels: usize = FRAME_BYTES / 4;
        let mut i: usize = 0;
        while i < pixels
            invariant
                pixels == FRAME_BYTES / 4,
                i <= pixels,
                self.wf(),
                frame@.len() == FRAME_BYTES,
                before.len() == FRAME_BYTES,
                forall|idx: int|
                    0 <= idx < 4 * i ==> #[trigger] frame@[idx] == drawn_byte(*self, idx, before[idx]),
                forall|idx: int| 4 * i <= idx < FRAME_BYTES ==> #[trigger] frame@[idx] == before[idx],
            decreases pixels - i,
        {
            assert(i / 480 < 320);
            let x: i16 = (i % (WIDTH as usize)) as i16;
            let y: i16 = (i / (WIDTH as usize)) as i16;
            let last_x: i16 = self.box_x + self.box_size - 1;
            let last_y: i16 = self.box_y + self.box_size - 1;
            let edge_of_the_box = (x == self.box_x || x == last_x) && (y >= self.box_y && y
                <= last_y) || (x >= self.box_x && x <= last_x) && (y == self.box_y || y == last_y);
            let inside_the_box = (x > self.box_x && x < last_x) && (y > self.box_y && y < last_y);
            let base: usize = 4 * i;
            if inside_the_box {
                frame[base] = 0x5e;
                frame[base + 1] = 0x48;
                frame[base + 2] = 0xe8;
                frame[base + 3] = 0xff;
            } else if edge_of_the_box {
                frame[base] = 0x48;
                frame[base + 1] = 0xb2;
                frame[base + 2] = 0xe8;
                frame[base + 3] = 0xff;
            }
            assert forall|idx: int| 4 * i <= idx < 4 * i + 4 implies #[trigger] frame@[idx]
                == drawn_byte(*self, idx, before[idx]) by {
                assert(idx / 4 == i);
                assert(idx % 4 == idx - 4 * i);
                assert(x == (i as int) % (WIDTH as int));
                assert(y == (i as int) / (WIDTH as int));
                assert(edge_of_the_box == on_edge(*self, x as int, y as int));
                assert(inside_the_box == inside(*self, x as int, y as int));
                if idx == 4 * i {
                } else if idx == 4 * i + 1 {
                } else if idx == 4 * i + 2 {
                } else {
                }
            }
            i = i + 1;
        }
    }
}

} // verus!
