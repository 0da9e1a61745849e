//! The per-frame passes over explosions and breakables: detecting hits,
//! reacting to them, ageing explosions and measuring the deepest chain.
use vstd::prelude::*;
use crate::breakable::{Breakable, BreakableEvent};
use crate::explosion::{after_growth, reaches, spawned, Explosion};
use crate::geometry::Point;

verus! {

pub open spec fn all_wf(es: Seq<Explosion>) -> bool {
    forall|i: int| 0 <= i < es.len() ==> #[trigger] es[i].wf()
}

/// The chain depth of the first explosion, from index `j` on, that reaches a
/// bomb at `target`.
pub open spec fn first_hit_from(es: Seq<Explosion>, target: Point, j: int) -> Option<u32>
    decreases es.len() - j,
{
    if j < 0 || j >= es.len() {
        None
    } else if reaches(es[j], target) {
        Some(es[j].chain_value)
    } else {
        first_hit_from(es, target, j + 1)
    }
}

/// The chain depth of the first explosion, in order, that reaches a bomb at
/// `target`; later explosions are not consulted.
pub open spec fn first_hit(es: Seq<Explosion>, target: Point) -> Option<u32> {
    first_hit_from(es, target, 0)
}

/// The breakable after the detector has looked at it.
pub open spec fn detected(b: Breakable, es: Seq<Explosion>) -> Breakable {
    match first_hit(es, b.position) {
        Some(d) => Breakable { incoming: BreakableEvent::Damaged(d), ..b },
        None => b,
    }
}

/// All breakables after the detector has run.
pub open spec fn detected_all(bs: Seq<Breakable>, es: Seq<Explosion>) -> Seq<Breakable> {
    bs.map_values(|b: Breakable| detected(b, es))
}

/// The breakables that no explosion damaged, in their order.
pub open spec fn undamaged(bs: Seq<Breakable>) -> Seq<Breakable>
    decreases bs.len(),
{
    if bs.len() == 0 {
        Seq::empty()
    } else {
        let rest = undamaged(bs.drop_last());
        if bs.last().incoming is Intact {
            rest.push(bs.last())
        } else {
            rest
        }
    }
}

/// The explosions that damaged breakables set off, in the breakables' order:
/// one for each damaged breakable that explodes, at its position and one
/// level deeper than the explosion that hit it.
pub open spec fn chain_spawns(bs: Seq<Breakable>) -> Seq<Explosion>
    decreases bs.len(),
{
    if bs.len() == 0 {
        Seq::empty()
    } else {
        let rest = chain_spawns(bs.drop_last());
        let b = bs.last();
        match b.incoming {
            BreakableEvent::Damaged(d) => if b.will_explode {
                rest.push(spawned(b.position, (d + 1) as u32))
            } else {
                rest
            },
            BreakableEvent::Intact => rest,
        }
    }
}

/// Every pending depth can be deepened by one within `u32`.
pub open spec fn depths_fit(bs: Seq<Breakable>) -> bool {
    forall|i: int|
        0 <= i < bs.len() ==> (#[trigger] bs[i].incoming matches BreakableEvent::Damaged(d) ==> d
            < u32::MAX)
}

/// The explosions after `delta` more time, those whose time ran out removed.
pub open spec fn grown(es: Seq<Explosion>, delta: int) -> Seq<Explosion>
    decreases es.len(),
{
    if es.len() == 0 {
        Seq::empty()
    } else {
        let rest = grown(es.drop_last(), delta);
        match after_growth(es.last(), delta) {
            Some(g) => rest.push(g),
            None => rest,
        }
    }
}

/// The largest chain depth among the explosions, or zero when there are none.
pub open spec fn max_chain(es: Seq<Explosion>) -> u32
    decreases es.len(),
{
    if es.len() == 0 {
        0
    } else {
        let m = max_chain(es.drop_last());
        if es.last().chain_value > m {
            es.last().chain_value
        } else {
            m
        }
    }
}

/// The chain depth of the first explosion that reaches a bomb at `target`.
pub fn first_hit_depth(explosions: &Vec<Explosion>, target: &Point) -> (r: Option<u32>)
    requires
        all_wf(explosions@),
    ensures
        r == first_hit(explosions@, *target),
{
    let mut j: usize = 0;
    while j < explosions.len()
        invariant
            j <= explosions@.len(),
            all_wf(explosions@),
            first_hit(explosions@, *target) == first_hit_from(explosions@, *target, j as int),
        decreases explosions@.len() - j,
    {
        if explosions[j].reaches(target) {
            return Some(explosions[j].chain_value);
        }
        j = j + 1;
    }
    None
}

/// Marks each breakable that some explosion reaches as damaged, with the
/// chain depth of the first such explosion.
pub fn detect_chain_explosions(explosions: &Vec<Explosion>, breakables: &mut Vec<Breakable>)
    requires
        all_wf(explosions@),
    ensures
        final(breakables)@ == detected_all(old(breakables)@, explosions@),
{
    let ghost before = breakables@;
    let mut i: usize = 0;
    while i < breakables.len()
        invariant
            i <= breakables@.len(),
            breakables@.len() == before.len(),
            all_wf(explosions@),
            forall|k: int| 0 <= k < i ==> #[trigger] breakables@[k] == detected(before[k], explosions@),
            forall|k: int| i <= k < before.len() ==> #[trigger] breakables@[k] == before[k],
        decreases before.len() - i,
    {
        let b: Breakable = breakables[i];
        match first_hit_depth(explosions, &b.position) {
            Some(d) => {
                breakables[i] = Breakable { incoming: BreakableEvent::Damaged(d), ..b };
            },
            None => {},
        }
        i = i + 1;
    }
    assert(breakables@ =~= detected_all(before, explosions@));
}

/// Removes every damaged breakable; each one that explodes sets off a new
/// explosion at its position, one chain level deeper than what hit it.
pub fn react_breakables(breakables: &mut Vec<Breakable>, explosions: &mut Vec<Explosion>)
    requires
        depths_fit(old(breakables)@),
        all_wf(old(explosions)@),
    ensures
        final(breakables)@ == undamaged(old(breakables)@),
        final(explosions)@ == old(explosions)@ + chain_spawns(old(breakables)@),
        all_wf(final(explosions)@),
{
    let ghost bs = breakables@;
    let ghost es = explosions@;
    let mut kept: Vec<Breakable> = Vec::new();
    let mut i: usize = 0;
    assert(bs.take(0) =~= Seq::<Breakable>::empty());
    assert(es + Seq::<Explosion>::empty() =~= es);
    while i < breakables.len()
        invariant
            i <= bs.len(),
            breakables@ == bs,
            depths_fit(bs),
            all_wf(explosions@),
            kept@ == undamaged(bs.take(i as int)),
            explosions@ == es + chain_spawns(bs.take(i as int)),
        decreases bs.len() - i,
    {
        let b: Breakable = breakables[i];
        assert(bs.take(i + 1).drop_last() =~= bs.take(i as int));
        assert(bs.take(i + 1).last() == b);
        match b.incoming {
            BreakableEvent::Damaged(d) => {
                if b.will_explode {
                    let e = Explosion::new(b.position, d + 1);
                    explosions.push(e);
                    assert(explosions@ =~= es + chain_spawns(bs.take(i + 1)));
                }
            },
            BreakableEvent::Intact => {
                kept.push(b);
            },
        }
        i = i + 1;
    }
    assert(bs.take(bs.len() as int) =~= bs);
    *breakables = kept;
}

/// Ages every explosion by `delta` and removes those whose time ran out.
pub fn grow_explosions(explosions: &mut Vec<Explosion>, delta: u64)
    requires
        all_wf(old(explosions)@),
    ensures
        final(explosions)@ == grown(old(explosions)@, delta as int),
        all_wf(final(explosions)@),
{
    let ghost es = explosions@;
    let mut live: Vec<Explosion> = Vec::new();
    let mut i: usize = 0;
    assert(es.take(0) =~= Seq::<Explosion>::empty());
    while i < explosions.len()
        invariant
            i <= es.len(),
            explosions@ == es,
            all_wf(es),
            all_wf(live@),
            live@ == grown(es.take(i as int), delta as int),
        decreases es.len() - i,
    {
        assert(es.take(i + 1).drop_last() =~= es.take(i as int));
        assert(es.take(i + 1).last() == es[i as int]);
        match explosions[i].grow(delta) {
            Some(g) => {
                live.push(g);
            },
            None => {},
        }
        i = i + 1;
    }
    assert(es.take(es.len() as int) =~= es);
    *explosions = live;
}

/// The deepest chain among the live explosions; zero when there are none.
pub fn max_chain_value(explosions: &Vec<Explosion>) -> (r: u32)
    ensures
        r == max_chain(explosions@),
{
    let ghost es = explosions@;
    let mut m: u32 = 0;
    let mut i: usize = 0;
    assert(es.take(0) =~= Seq::<Explosion>::empty());
    while i < explosions.len()
        invariant
            i <= es.len(),
            explosions@ == es,
            m == max_chain(es.take(i as int)),
        decreases es.len() - i,
    {
        assert(es.take(i + 1).drop_last() =~= es.take(i as int));
        let c: u32 = explosions[i].chain_value;
        if c > m {
            m = c;
        }
        i = i + 1;
    }
    assert(es.take(es.len() as int) =~= es);
    m
}

/// After the reactor, no breakable holds pending damage: what remains are
/// exactly the breakables of the frame that were not damaged.
pub proof fn lemma_no_stale_damage(bs: Seq<Breakable>)
    ensures
        forall|k: int|
            0 <= k < undamaged(bs).len() ==> (#[trigger] undamaged(bs)[k]).incoming is Intact
                && bs.contains(undamaged(bs)[k]),
        forall|i: int|
            0 <= i < bs.len() && (#[trigger] bs[i]).incoming is Intact ==> undamaged(bs).contains(
                bs[i],
            ),
    decreases bs.len(),
{
    if bs.len() > 0 {
        let init = bs.drop_last();
        lemma_no_stale_damage(init);
        let rest = undamaged(init);
        assert forall|k: int| 0 <= k < undamaged(bs).len() implies (#[trigger] undamaged(
            bs,
        )[k]).incoming is Intact && bs.contains(undamaged(bs)[k]) by {
            if k < rest.len() {
                assert(undamaged(bs)[k] == rest[k]);
                let j = choose|j: int| 0 <= j < init.len() && init[j] == rest[k];
                assert(bs[j] == rest[k]);
            } else {
                assert(undamaged(bs)[k] == bs[bs.len() - 1]);
            }
        }
        assert forall|i: int|
            0 <= i < bs.len() && (#[trigger] bs[i]).incoming is Intact implies undamaged(
                bs,
            ).contains(bs[i]) by {
            if i < bs.len() - 1 {
                assert(init[i] == bs[i]);
                let j = choose|j: int| 0 <= j < rest.len() && rest[j] == bs[i];
                assert(undamaged(bs)[j] == bs[i]);
            } else {
                assert(undamaged(bs)[rest.len() as int] == bs[i]);
            }
        }
    }
}

/// Each damaged breakable that explodes sets off exactly one level deeper
/// than the explosion that hit it, at its own position; and every explosion
/// that the reactor sets off comes from such a breakable.
pub proof fn lemma_chain_depth(bs: Seq<Breakable>)
    requires
        depths_fit(bs),
    ensures
        forall|i: int|
            0 <= i < bs.len() && (#[trigger] bs[i]).will_explode && bs[i].incoming is Damaged
                ==> chain_spawns(bs).contains(
                spawned(bs[i].position, (bs[i].incoming->Damaged_0 + 1) as u32),
            ),
        forall|k: int|
            #![trigger chain_spawns(bs)[k]]
            0 <= k < chain_spawns(bs).len() ==> exists|i: int|
                0 <= i < bs.len() && (#[trigger] bs[i]).will_explode && bs[i].incoming is Damaged
                    && chain_spawns(bs)[k] == spawned(
                    bs[i].position,
                    (bs[i].incoming->Damaged_0 + 1) as u32,
                ) && chain_spawns(bs)[k].chain_value == bs[i].incoming->Damaged_0 + 1,
    decreases bs.len(),
{
    if bs.len() > 0 {
        let init = bs.drop_last();
        assert(depths_fit(init)) by {
            assert forall|i: int| 0 <= i < init.len() implies (#[trigger] init[i].incoming matches BreakableEvent::Damaged(d) ==> d < u32::MAX) by {
                assert(init[i] == bs[i]);
            }
        }
        lemma_chain_depth(init);
        let rest = chain_spawns(init);
        let all = chain_spawns(bs);
        assert forall|i: int|
            0 <= i < bs.len() && (#[trigger] bs[i]).will_explode && bs[i].incoming is Damaged
                implies all.contains(
                spawned(bs[i].position, (bs[i].incoming->Damaged_0 + 1) as u32),
            ) by {
            let x = spawned(bs[i].position, (bs[i].incoming->Damaged_0 + 1) as u32);
            if i < bs.len() - 1 {
                assert(init[i] == bs[i]);
                let j = choose|j: int| 0 <= j < rest.len() && rest[j] == x;
                assert(all[j] == rest[j]);
            } else {
                assert(all[rest.len() as int] == x);
            }
        }
        assert forall|k: int| #![trigger all[k]] 0 <= k < all.len() implies exists|i: int|
            0 <= i < bs.len() && (#[trigger] bs[i]).will_explode && bs[i].incoming is Damaged
                && all[k] == spawned(
                bs[i].position,
                (bs[i].incoming->Damaged_0 + 1) as u32,
            ) && all[k].chain_value == bs[i].incoming->Damaged_0 + 1 by {
            if k < rest.len() {
                assert(all[k] == rest[k]);
                let i = choose|i: int|
                    0 <= i < init.len() && (#[trigger] init[i]).will_explode && init[i].incoming is Damaged
                        && rest[k] == spawned(
                        init[i].position,
                        (init[i].incoming->Damaged_0 + 1) as u32,
                    ) && rest[k].chain_value == init[i].incoming->Damaged_0 + 1;
                assert(bs[i] == init[i]);
            } else {
                let i = bs.len() - 1;
                assert(bs[i].incoming matches BreakableEvent::Damaged(x) ==> x < u32::MAX);
                assert(all[k] == spawned(bs[i].position, (bs[i].incoming->Damaged_0 + 1) as u32));
            }
        }
    }
}

/// A breakable that the detector finds within an explosion of depth `d` is
/// removed in the same frame and, if it explodes, sets off an explosion of
/// depth exactly `d + 1` at its position.
pub proof fn lemma_chain_propagation(bs: Seq<Breakable>, es: Seq<Explosion>, i: int, d: u32)
    requires
        0 <= i < bs.len(),
        first_hit(es, bs[i].position) == Some(d),
        d < u32::MAX,
        depths_fit(detected_all(bs, es)),
    ensures
        !undamaged(detected_all(bs, es)).contains(detected(bs[i], es)),
        bs[i].will_explode ==> chain_spawns(detected_all(bs, es)).contains(
            spawned(bs[i].position, (d + 1) as u32),
        ),
{
    let dbs = detected_all(bs, es);
    assert(dbs[i] == detected(bs[i], es));
    lemma_no_stale_damage(dbs);
    lemma_chain_depth(dbs);
    if undamaged(dbs).contains(detected(bs[i], es)) {
        let k = choose|k: int| 0 <= k < undamaged(dbs).len() && undamaged(dbs)[k] == detected(bs[i], es);
        assert(undamaged(dbs)[k].incoming is Intact);
    }
}

/// The deepest chain is zero when no explosion is live, and otherwise the
/// chain depth of some live explosion that no other exceeds.
pub proof fn lemma_max_chain(es: Seq<Explosion>)
    ensures
        es.len() == 0 ==> max_chain(es) == 0,
        es.len() > 0 ==> exists|i: int| 0 <= i < es.len() && (#[trigger] es[i]).chain_value == max_chain(es),
        forall|i: int| 0 <= i < es.len() ==> (#[trigger] es[i]).chain_value <= max_chain(es),
    decreases es.len(),
{
    if es.len() > 0 {
        let init = es.drop_last();
        lemma_max_chain(init);
        assert forall|i: int| 0 <= i < es.len() implies (#[trigger] es[i]).chain_value <= max_chain(es) by {
            if i < es.len() - 1 {
                assert(init[i] == es[i]);
            }
        }
        if es.last().chain_value <= max_chain(init) && init.len() > 0 {
            let j = choose|j: int| 0 <= j < init.len() && (#[trigger] init[j]).chain_value == max_chain(init);
            assert(es[j] == init[j]);
        } else {
            assert(es[es.len() - 1].chain_value == max_chain(es));
        }
    }
}

} // verus!
