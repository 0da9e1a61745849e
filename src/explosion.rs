//! Explosions: circles that grow to full size and shrink away on a fixed
//! timeline, each carrying the depth of the chain that produced it.
use vstd::prelude::*;
use crate::geometry::{collides, get_collision, Point};

verus! {

/// The radius of an explosion at full size.
pub const EXPLOSION_RADIUS: u32 = 40;

/// How long an explosion lives, in microseconds.
pub const EXPLOSION_DURATION: u32 = 1_200_000;

/// The radius of a bomb.
pub const BOMB_RADIUS: u32 = 4;

/// A live explosion. `progress` is its size as a fraction of full size, in
/// units of `1 / EXPLOSION_DURATION`; `remaining` is the time it has left.
#[derive(Clone, Copy, Debug, PartialEq, Eq, Structural)]
pub struct Explosion {
    pub position: Point,
    pub remaining: u32,
    pub progress: u32,
    pub chain_value: u32,
}

/// Growth progress with `remaining` time left, in units of
/// `1 / EXPLOSION_DURATION`: `2 * min(elapsed, remaining) / duration`.
pub open spec fn growth_progress(remaining: int) -> int {
    let elapsed = EXPLOSION_DURATION - remaining;
    if elapsed <= remaining {
        2 * elapsed
    } else {
        2 * remaining
    }
}

/// What is left of a timer after `delta` passes: it stops at zero.
pub open spec fn timer_after(remaining: int, delta: int) -> int {
    if delta >= remaining {
        0
    } else {
        remaining - delta
    }
}

/// A newly spawned explosion: full time left, no size yet.
pub open spec fn spawned(position: Point, chain_value: u32) -> Explosion {
    Explosion { position, remaining: EXPLOSION_DURATION, progress: 0, chain_value }
}

/// The explosion after `delta` more time passes: gone once its time is up,
/// otherwise resized to match the time left.
pub open spec fn after_growth(e: Explosion, delta: int) -> Option<Explosion> {
    let remaining = timer_after(e.remaining as int, delta);
    if remaining == 0 {
        None
    } else {
        Some(
            Explosion {
                remaining: remaining as u32,
                progress: growth_progress(remaining) as u32,
                ..e
            },
        )
    }
}

/// The explosion's effective radius overlaps a bomb centred on `target`.
/// Both radii are taken in units of `1 / EXPLOSION_DURATION`.
pub open spec fn reaches(e: Explosion, target: Point) -> bool {
    collides(
        e.position,
        e.progress * EXPLOSION_RADIUS,
        target,
        BOMB_RADIUS * EXPLOSION_DURATION,
        EXPLOSION_DURATION as int,
    )
}

impl Explosion {
    pub open spec fn wf(&self) -> bool {
        &&& self.remaining <= EXPLOSION_DURATION
        &&& self.progress <= EXPLOSION_DURATION
    }

    /// A new explosion at `position`, `chain_value` detonations deep.
    pub fn new(position: Point, chain_value: u32) -> (r: Explosion)
        ensures
            r == spawned(position, chain_value),
            r.wf(),
    {
        Explosion { position, remaining: EXPLOSION_DURATION, progress: 0, chain_value }
    }

    /// Ages the explosion by `delta`: `None` once its time is up, otherwise
    /// the explosion with its new time left and size.
    pub fn grow(&self, delta: u64) -> (r: Option<Explosion>)
        requires
            self.wf(),
        ensures
            r == after_growth(*self, delta as int),
            r matches Some(g) ==> g.wf(),
    {
        let remaining: u32 = if delta >= self.remaining as u64 {
            0
        } else {
            self.remaining - delta as u32
        };
        if remaining == 0 {
            None
        } else {
            let elapsed: u32 = EXPLOSION_DURATION - remaining;
            let progress: u32 = if elapsed <= remaining {
                2 * elapsed
            } else {
                2 * remaining
            };
            Some(Explosion { remaining, progress, ..*self })
        }
    }

    /// The effective radius in units of `1 / EXPLOSION_DURATION`.
    pub fn radius(&self) -> (r: u32)
        requires
            self.wf(),
        ensures
            r == self.progress * EXPLOSION_RADIUS,
    {
        self.progress * EXPLOSION_RADIUS
    }

    /// Whether a bomb centred on `target` lies within this explosion.
    pub fn reaches(&self, target: &Point) -> (r: bool)
        requires
            self.wf(),
        ensures
            r == reaches(*self, *target),
    {
        get_collision(
            &self.position,
            self.radius(),
            target,
            BOMB_RADIUS * EXPLOSION_DURATION,
            EXPLOSION_DURATION,
        )
    }
}

/// Growth is a triangular wave over the explosion's life: no size at spawn,
/// full size at the midpoint, no size again at expiry; it never shrinks in
/// the first half and never grows in the second.
pub proof fn lemma_growth_is_triangular(t1: int, t2: int)
    requires
        0 <= t1 <= t2 <= EXPLOSION_DURATION,
    ensures
        growth_progress(EXPLOSION_DURATION as int) == 0,
        growth_progress(EXPLOSION_DURATION as int / 2) == EXPLOSION_DURATION,
        growth_progress(0) == 0,
        0 <= growth_progress(EXPLOSION_DURATION - t1) <= EXPLOSION_DURATION,
        t2 <= EXPLOSION_DURATION / 2 ==> growth_progress(EXPLOSION_DURATION - t1)
            <= growth_progress(EXPLOSION_DURATION - t2),
        EXPLOSION_DURATION / 2 <= t1 ==> growth_progress(EXPLOSION_DURATION - t1)
            >= growth_progress(EXPLOSION_DURATION - t2),
{
}

/// An explosion is removed exactly when its time left reaches zero, and while
/// it lives its size is the growth progress of the time it has left.
pub proof fn lemma_despawn_at_expiry(e: Explosion, delta: nat)
    requires
        e.wf(),
    ensures
        after_growth(e, delta as int) is None <==> delta >= e.remaining,
        after_growth(e, delta as int) matches Some(g) ==> {
            &&& g.remaining == e.remaining - delta
            &&& g.progress == growth_progress(g.remaining as int)
            &&& g.position == e.position
            &&& g.chain_value == e.chain_value
        },
{
}

} // verus!
