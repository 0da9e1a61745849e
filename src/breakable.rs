//! Breakables: bombs that an explosion destroys, and that may explode in turn.
use vstd::prelude::*;
use crate::geometry::Point;

verus! {

/// Damage waiting to be handled: none, or a hit by an explosion of the given
/// chain depth.
#[derive(Clone, Copy, Debug, PartialEq, Eq, Structural)]
pub enum BreakableEvent {
    Intact,
    Damaged(u32),
}

/// A bomb lying at `position`.
#[derive(Clone, Copy, Debug, PartialEq, Eq, Structural)]
pub struct Breakable {
    pub position: Point,
    pub will_explode: bool,
    pub incoming: BreakableEvent,
}

impl Breakable {
    /// An undamaged bomb at `position` that explodes when destroyed.
    pub fn new(position: Point) -> (r: Breakable)
        ensures
            r == (Breakable { position, will_explode: true, incoming: BreakableEvent::Intact }),
    {
        Breakable { position, will_explode: true, incoming: BreakableEvent::Intact }
    }

    pub fn is_damaged(&self) -> (r: bool)
        ensures
            r == (self.incoming is Damaged),
    {
        match self.incoming {
            BreakableEvent::Damaged(_) => true,
            BreakableEvent::Intact => false,
        }
    }
}

} // verus!
