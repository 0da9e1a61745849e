//! The whole simulation: a clock, the live explosions and breakables, and the
//! deepest chain on display, advanced one frame at a time.
use vstd::prelude::*;
use crate::breakable::{Breakable, BreakableEvent};
use crate::chain::{
    all_wf, chain_spawns, detect_chain_explosions, detected_all, first_hit_from, grow_explosions,
    grown, lemma_no_stale_damage, max_chain, max_chain_value, react_breakables, undamaged,
};
use crate::clock::{can_tick, ticked, Clock};
use crate::explosion::{spawned, Explosion};
use crate::geometry::Point;

verus! {

/// What the player can do: spawn an explosion or a bomb at a point, or pause
/// and resume the clock.
#[derive(Clone, Copy, Debug, PartialEq, Eq, Structural)]
pub enum Input {
    SpawnExplosion(Point),
    SpawnBomb(Point),
    TogglePause,
}

/// The simulation state. Between frames no breakable holds pending damage.
pub struct World {
    pub clock: Clock,
    pub explosions: Vec<Explosion>,
    pub breakables: Vec<Breakable>,
    pub chains: u32,
}

/// No breakable holds pending damage.
pub open spec fn none_pending(bs: Seq<Breakable>) -> bool {
    forall|i: int| 0 <= i < bs.len() ==> (#[trigger] bs[i]).incoming is Intact
}

/// Every live explosion can set off one more level of chain within `u32`.
pub open spec fn chains_can_deepen(es: Seq<Explosion>) -> bool {
    forall|i: int| 0 <= i < es.len() ==> (#[trigger] es[i]).chain_value < u32::MAX
}

/// The decimal digit `d` as a character.
pub open spec fn digit_char(d: nat) -> char {
    ((d + 48) as u8) as char
}

/// The decimal numeral of `n`, without leading zeros.
pub open spec fn decimal(n: nat) -> Seq<char>
    decreases n,
{
    if n < 10 {
        seq![digit_char(n)]
    } else {
        decimal(n / 10).push(digit_char(n % 10))
    }
}

/// The decimal numeral of `n`.
/// Relies on `u32`'s `Display`, which writes a number in decimal digits
/// without sign or leading zeros.
#[verifier::external_body]
fn decimal_text(n: u32) -> (r: String)
    ensures
        r@ == decimal(n as nat),
{
    n.to_string()
}

/// The text shown for the deepest chain: blank when there is none.
pub fn chains_label(chains: u32) -> (r: String)
    ensures
        chains == 0 ==> r@ == Seq::<char>::empty(),
        chains > 0 ==> r@ == decimal(chains as nat) + " Chain(s)"@,
{
    if chains > 0 {
        decimal_text(chains).concat(" Chain(s)")
    } else {
        String::new()
    }
}

/// A chain depth found by the detector is the depth of a live explosion.
proof fn lemma_first_hit_is_live(es: Seq<Explosion>, target: Point, j: int)
    requires
        0 <= j,
    ensures
        first_hit_from(es, target, j) matches Some(d) ==> exists|k: int|
            0 <= k < es.len() && (#[trigger] es[k]).chain_value == d,
    decreases es.len() - j,
{
    if j < es.len() {
        lemma_first_hit_is_live(es, target, j + 1);
    }
}

impl World {
    pub open spec fn wf(&self) -> bool {
        &&& all_wf(self.explosions@)
        &&& none_pending(self.breakables@)
    }

    /// An empty world with a running clock.
    pub fn new() -> (r: World)
        ensures
            r.wf(),
            r.clock == (Clock { elapsed: 0, delta: 0, paused: false }),
            r.explosions@ == Seq::<Explosion>::empty(),
            r.breakables@ == Seq::<Breakable>::empty(),
            r.chains == 0,
    {
        World { clock: Clock::new(), explosions: Vec::new(), breakables: Vec::new(), chains: 0 }
    }

    /// Spawns an explosion at `position` with chain depth zero.
    pub fn spawn_explosion(&mut self, position: Point)
        requires
            old(self).wf(),
        ensures
            final(self).wf(),
            final(self).explosions@ == old(self).explosions@.push(spawned(position, 0)),
            final(self).breakables@ == old(self).breakables@,
            final(self).clock == old(self).clock,
            final(self).chains == old(self).chains,
    {
        self.explosions.push(Explosion::new(position, 0));
    }

    /// Spawns a bomb at `position`.
    pub fn spawn_bomb(&mut self, position: Point)
        requires
            old(self).wf(),
        ensures
            final(self).wf(),
            final(self).breakables@ == old(self).breakables@.push(
                Breakable { position, will_explode: true, incoming: BreakableEvent::Intact },
            ),
            final(self).explosions@ == old(self).explosions@,
            final(self).clock == old(self).clock,
            final(self).chains == old(self).chains,
    {
        self.breakables.push(Breakable::new(position));
    }

    /// Pauses a running clock and resumes a paused one.
    pub fn toggle_pause(&mut self)
        ensures
            final(self).clock == (Clock { paused: !old(self).clock.paused, ..old(self).clock }),
            final(self).explosions@ == old(self).explosions@,
            final(self).breakables@ == old(self).breakables@,
            final(self).chains == old(self).chains,
    {
        if self.clock.is_paused() {
            self.clock.resume();
        } else {
            self.clock.pause();
        }
    }

    /// Applies one player action.
    pub fn handle_input(&mut self, input: Input)
        requires
            old(self).wf(),
        ensures
            final(self).wf(),
            final(self).chains == old(self).chains,
            match input {
                Input::SpawnExplosion(p) => {
                    &&& final(self).explosions@ == old(self).explosions@.push(spawned(p, 0))
                    &&& final(self).breakables@ == old(self).breakables@
                    &&& final(self).clock == old(self).clock
                },
                Input::SpawnBomb(p) => {
                    &&& final(self).breakables@ == old(self).breakables@.push(
                        Breakable { position: p, will_explode: true, incoming: BreakableEvent::Intact },
                    )
                    &&& final(self).explosions@ == old(self).explosions@
                    &&& final(self).clock == old(self).clock
                },
                Input::TogglePause => {
                    &&& final(self).clock == (Clock { paused: !old(self).clock.paused, ..old(self).clock })
                    &&& final(self).explosions@ == old(self).explosions@
                    &&& final(self).breakables@ == old(self).breakables@
                },
            },
    {
        match input {
            Input::SpawnExplosion(p) => self.spawn_explosion(p),
            Input::SpawnBomb(p) => self.spawn_bomb(p),
            Input::TogglePause => self.toggle_pause(),
        }
    }

    /// Runs one frame: the clock ticks by `measured` microseconds; every
    /// breakable within an explosion is marked with the first such
    /// explosion's depth; marked breakables are removed, each that explodes
    /// setting off an explosion one level deeper; explosions age by the
    /// tick's delta, expired ones removed; and the deepest live chain is
    /// recorded.
    pub fn frame(&mut self, measured: u64)
        requires
            old(self).wf(),
            can_tick(old(self).clock, measured),
            chains_can_deepen(old(self).explosions@),
        ensures
            final(self).wf(),
            final(self).clock == ticked(old(self).clock, measured),
            final(self).breakables@ == undamaged(
                detected_all(old(self).breakables@, old(self).explosions@),
            ),
            final(self).explosions@ == grown(
                old(self).explosions@ + chain_spawns(
                    detected_all(old(self).breakables@, old(self).explosions@),
                ),
                final(self).clock.delta as int,
            ),
            final(self).chains == max_chain(final(self).explosions@),
    {
        let ghost es = self.explosions@;
        let ghost bs = self.breakables@;
        self.clock.tick(measured);
        detect_chain_explosions(&self.explosions, &mut self.breakables);
        proof {
            let dbs = detected_all(bs, es);
            assert forall|i: int| 0 <= i < dbs.len() implies (#[trigger] dbs[i].incoming matches BreakableEvent::Damaged(d) ==> d < u32::MAX) by {
                lemma_first_hit_is_live(es, bs[i].position, 0);
            }
        }
        react_breakables(&mut self.breakables, &mut self.explosions);
        proof {
            lemma_no_stale_damage(detected_all(bs, es));
        }
        grow_explosions(&mut self.explosions, self.clock.delta);
        self.chains = max_chain_value(&self.explosions);
    }

    /// Runs one frame when it can be run without overflow, and reports
    /// whether it did; otherwise leaves the world as it was.
    pub fn try_frame(&mut self, measured: u64) -> (r: bool)
        requires
            old(self).wf(),
        ensures
            final(self).wf(),
            r == (can_tick(old(self).clock, measured) && chains_can_deepen(old(self).explosions@)),
            !r ==> final(self).clock == old(self).clock && final(self).explosions@ == old(
                self,
            ).explosions@ && final(self).breakables@ == old(self).breakables@
                && final(self).chains == old(self).chains,
            r ==> final(self).clock == ticked(old(self).clock, measured)
                && final(self).breakables@ == undamaged(
                detected_all(old(self).breakables@, old(self).explosions@),
            ) && final(self).explosions@ == grown(
                old(self).explosions@ + chain_spawns(
                    detected_all(old(self).breakables@, old(self).explosions@),
                ),
                final(self).clock.delta as int,
            ) && final(self).chains == max_chain(final(self).explosions@),
    {
        let fits_clock = self.clock.paused || measured <= u64::MAX - self.clock.elapsed;
        let mut fits_chains = true;
        let mut i: usize = 0;
        while i < self.explosions.len()
            invariant
                i <= self.explosions@.len(),
                fits_chains == forall|k: int| 0 <= k < i ==> (#[trigger] self.explosions@[k]).chain_value < u32::MAX,
            decreases self.explosions@.len() - i,
        {
            if self.explosions[i].chain_value == u32::MAX {
                fits_chains = false;
            }
            i = i + 1;
        }
        if fits_clock && fits_chains {
            self.frame(measured);
            true
        } else {
            false
        }
    }

    /// The deepest chain recorded by the last frame.
    pub fn chains(&self) -> (r: u32)
        ensures
            r == self.chains,
    {
        self.chains
    }
}

} // verus!
