//! The end-game cleanup: run once, on the first poll that sees the end game.

use vstd::prelude::*;
use crate::ball::Ball;
use crate::groups::{CollisionGroups, GROUP_LID};
use crate::lamp::Lamp;
use super::{Action, Table, TableView, Zone, table_wf};

verus! {

pub open spec fn kept_zones(s: Seq<Zone>) -> Seq<Zone>
    decreases s.len(),
{
    if s.len() == 0 {
        Seq::empty()
    } else if s.last().despawn_in_end_game {
        kept_zones(s.drop_last())
    } else {
        kept_zones(s.drop_last()).push(s.last())
    }
}

pub open spec fn zone_despawns(s: Seq<Zone>) -> Seq<Action>
    decreases s.len(),
{
    if s.len() == 0 {
        Seq::empty()
    } else if s.last().despawn_in_end_game {
        zone_despawns(s.drop_last()).push(Action::Despawn { id: s.last().id })
    } else {
        zone_despawns(s.drop_last())
    }
}

pub open spec fn kept_lamps(s: Seq<Lamp>) -> Seq<Lamp>
    decreases s.len(),
{
    if s.len() == 0 {
        Seq::empty()
    } else if s.last().despawn_in_end_game {
        kept_lamps(s.drop_last())
    } else {
        kept_lamps(s.drop_last()).push(s.last())
    }
}

pub open spec fn lamp_despawns(s: Seq<Lamp>) -> Seq<Action>
    decreases s.len(),
{
    if s.len() == 0 {
        Seq::empty()
    } else if s.last().despawn_in_end_game {
        lamp_despawns(s.drop_last()).push(Action::Despawn { id: s.last().id })
    } else {
        lamp_despawns(s.drop_last())
    }
}

pub open spec fn strip_lid(b: Ball) -> Ball {
    Ball {
        groups: CollisionGroups {
            memberships: b.groups.memberships,
            filters: b.groups.filters & !GROUP_LID,
        },
        ..b
    }
}

/// The cleanup runs on the first poll that sees the end game, and never again.
pub open spec fn cleanup_fires(v: TableView) -> bool {
    v.end_game && !v.cleaned_up
}

pub open spec fn cleanup_next(v: TableView) -> TableView {
    if cleanup_fires(v) {
        TableView {
            balls: v.balls.map_values(|b: Ball| strip_lid(b)),
            lamps: kept_lamps(v.lamps),
            zones: kept_zones(v.zones),
            cleaned_up: true,
            ..v
        }
    } else {
        v
    }
}

pub open spec fn cleanup_actions(v: TableView) -> Seq<Action> {
    if cleanup_fires(v) {
        lamp_despawns(v.lamps) + zone_despawns(v.zones)
    } else {
        Seq::empty()
    }
}

/// What `kept_zones` keeps comes from `s`, and keeps distinct ids distinct.
proof fn lemma_kept_zones(s: Seq<Zone>)
    requires
        forall|i: int, j: int|
            0 <= i < s.len() && 0 <= j < s.len() && i != j ==> #[trigger] s[i].id != #[trigger] s[j].id,
    ensures
        forall|i: int|
            #![trigger kept_zones(s)[i]]
            0 <= i < kept_zones(s).len() ==> exists|j: int| 0 <= j < s.len() && #[trigger] s[j] == kept_zones(s)[i],
        forall|i: int, j: int|
            0 <= i < kept_zones(s).len() && 0 <= j < kept_zones(s).len() && i != j ==> #[trigger] kept_zones(s)[i].id
                != #[trigger] kept_zones(s)[j].id,
    decreases s.len(),
{
    if s.len() > 0 {
        let pre = s.drop_last();
        let n = s.len() - 1;
        assert forall|i: int, j: int|
            0 <= i < pre.len() && 0 <= j < pre.len() && i != j implies #[trigger] pre[i].id
                != #[trigger] pre[j].id by {
            assert(pre[i] == s[i] && pre[j] == s[j]);
        }
        lemma_kept_zones(pre);
        let kp = kept_zones(pre);
        assert forall|i: int| #![trigger kp[i]] 0 <= i < kp.len() implies exists|j: int| 0 <= j < n && #[trigger] s[j] == kp[i] by {
            let j0 = choose|j: int| 0 <= j < pre.len() && #[trigger] pre[j] == kp[i];
            assert(s[j0] == pre[j0]);
        }
        if !s.last().despawn_in_end_game {
            let k = kp.push(s.last());
            assert(kept_zones(s) == k);
            assert forall|i: int| #![trigger k[i]] 0 <= i < k.len() implies exists|j: int| 0 <= j < s.len() && #[trigger] s[j] == k[i] by {
                if i == kp.len() {
                    assert(s[n] == k[i]);
                } else {
                    assert(k[i] == kp[i]);
                }
            }
            assert forall|i: int, j: int|
                0 <= i < k.len() && 0 <= j < k.len() && i != j implies #[trigger] k[i].id
                    != #[trigger] k[j].id by {
                if i == kp.len() {
                    assert(k[j] == kp[j]);
                    let j0 = choose|j0: int| 0 <= j0 < n && #[trigger] s[j0] == kp[j];
                } else if j == kp.len() {
                    assert(k[i] == kp[i]);
                    let i0 = choose|i0: int| 0 <= i0 < n && #[trigger] s[i0] == kp[i];
                } else {
                    assert(k[i] == kp[i] && k[j] == kp[j]);
                }
            }
        }
    }
}

/// What `kept_lamps` keeps comes from `s`, and keeps distinct ids distinct.
proof fn lemma_kept_lamps(s: Seq<Lamp>)
    requires
        forall|i: int, j: int|
            0 <= i < s.len() && 0 <= j < s.len() && i != j ==> #[trigger] s[i].id != #[trigger] s[j].id,
    ensures
        forall|i: int|
            #![trigger kept_lamps(s)[i]]
            0 <= i < kept_lamps(s).len() ==> exists|j: int| 0 <= j < s.len() && #[trigger] s[j] == kept_lamps(s)[i],
        forall|i: int, j: int|
            0 <= i < kept_lamps(s).len() && 0 <= j < kept_lamps(s).len() && i != j ==> #[trigger] kept_lamps(s)[i].id
                != #[trigger] kept_lamps(s)[j].id,
    decreases s.len(),
{
    if s.len() > 0 {
        let pre = s.drop_last();
        let n = s.len() - 1;
        assert forall|i: int, j: int|
            0 <= i < pre.len() && 0 <= j < pre.len() && i != j implies #[trigger] pre[i].id
                != #[trigger] pre[j].id by {
            assert(pre[i] == s[i] && pre[j] == s[j]);
        }
        lemma_kept_lamps(pre);
        let kp = kept_lamps(pre);
        assert forall|i: int| #![trigger kp[i]] 0 <= i < kp.len() implies exists|j: int| 0 <= j < n && #[trigger] s[j] == kp[i] by {
            let j0 = choose|j: int| 0 <= j < pre.len() && #[trigger] pre[j] == kp[i];
            assert(s[j0] == pre[j0]);
        }
        if !s.last().despawn_in_end_game {
            let k = kp.push(s.last());
            assert(kept_lamps(s) == k);
            assert forall|i: int| #![trigger k[i]] 0 <= i < k.len() implies exists|j: int| 0 <= j < s.len() && #[trigger] s[j] == k[i] by {
                if i == kp.len() {
                    assert(s[n] == k[i]);
                } else {
                    assert(k[i] == kp[i]);
                }
            }
            assert forall|i: int, j: int|
                0 <= i < k.len() && 0 <= j < k.len() && i != j implies #[trigger] k[i].id
                    != #[trigger] k[j].id by {
                if i == kp.len() {
                    assert(k[j] == kp[j]);
                    let j0 = choose|j0: int| 0 <= j0 < n && #[trigger] s[j0] == kp[j];
                } else if j == kp.len() {
                    assert(k[i] == kp[i]);
                    let i0 = choose|i0: int| 0 <= i0 < n && #[trigger] s[i0] == kp[i];
                } else {
                    assert(k[i] == kp[i] && k[j] == kp[j]);
                }
            }
        }
    }
}

fn split_zones(zones: &Vec<Zone>) -> (r: (Vec<Zone>, Vec<Action>))
    ensures
        r.0@ == kept_zones(zones@),
        r.1@ == zone_despawns(zones@),
{
    let mut kept: Vec<Zone> = Vec::new();
    let mut gone: Vec<Action> = Vec::new();
    let mut i: usize = 0;
    while i < zones.len()
        invariant
            i <= zones@.len(),
            kept@ == kept_zones(zones@.take(i as int)),
            gone@ == zone_despawns(zones@.take(i as int)),
        decreases zones@.len() - i,
    {
        let z = zones[i];
        proof {
            let s = zones@.take(i as int + 1);
            assert(s.drop_last() =~= zones@.take(i as int));
            assert(s.last() == z);
        }
        if z.despawn_in_end_game {
            gone.push(Action::Despawn { id: z.id });
        } else {
            kept.push(z);
        }
        i += 1;
    }
    assert(zones@.take(zones@.len() as int) =~= zones@);
    (kept, gone)
}

fn split_lamps(lamps: &Vec<Lamp>) -> (r: (Vec<Lamp>, Vec<Action>))
    ensures
        r.0@ == kept_lamps(lamps@),
        r.1@ == lamp_despawns(lamps@),
{
    let mut kept: Vec<Lamp> = Vec::new();
    let mut gone: Vec<Action> = Vec::new();
    let mut i: usize = 0;
    while i < lamps.len()
        invariant
            i <= lamps@.len(),
            kept@ == kept_lamps(lamps@.take(i as int)),
            gone@ == lamp_despawns(lamps@.take(i as int)),
        decreases lamps@.len() - i,
    {
        let l = lamps[i];
        proof {
            let s = lamps@.take(i as int + 1);
            assert(s.drop_last() =~= lamps@.take(i as int));
            assert(s.last() == l);
        }
        if l.despawn_in_end_game {
            gone.push(Action::Despawn { id: l.id });
        } else {
            kept.push(l);
        }
        i += 1;
    }
    assert(lamps@.take(lamps@.len() as int) =~= lamps@);
    (kept, gone)
}

fn strip_lids(balls: &mut Vec<Ball>)
    ensures
        final(balls)@ == old(balls)@.map_values(|b: Ball| strip_lid(b)),
{
    let ghost start = balls@;
    let mut i: usize = 0;
    while i < balls.len()
        invariant
            i <= balls@.len(),
            balls@.len() == start.len(),
            forall|j: int| 0 <= j < i ==> balls@[j] == strip_lid(start[j]),
            forall|j: int| i <= j < balls@.len() ==> balls@[j] == start[j],
        decreases balls@.len() - i,
    {
        let b = balls[i];
        balls.set(i, Ball { id: b.id, groups: b.groups.forbid(GROUP_LID), color: b.color, velocity: b.velocity });
        i += 1;
    }
    assert(balls@ =~= start.map_values(|b: Ball| strip_lid(b)));
}

impl Table {
    /// Polled every tick: the first time it sees the end game, removes the
    /// entities marked for it and clears the lid bit from every ball's filter.
    pub fn despawn_collector_when_endgame(&mut self) -> (r: Vec<Action>)
        requires
            table_wf(old(self)@),
        ensures
            table_wf(final(self)@),
            final(self)@ == cleanup_next(old(self)@),
            r@ == cleanup_actions(old(self)@),
    {
        let ghost v = self@;
        if self.end_game && !self.cleaned_up {
            let (lamps, lamp_acts) = split_lamps(&self.lamps);
            let (zones, zone_acts) = split_zones(&self.zones);
            self.lamps = lamps;
            self.zones = zones;
            strip_lids(&mut self.balls);
            self.cleaned_up = true;
            let mut acts = lamp_acts;
            let mut more = zone_acts;
            acts.append(&mut more);
            proof {
                lemma_kept_lamps(v.lamps);
                lemma_kept_zones(v.zones);
                assert forall|i: int| #![trigger self.lamps@[i]] 0 <= i < self.lamps@.len() implies exists|j: int|
                    0 <= j < v.lamps.len() && #[trigger] v.lamps[j] == self.lamps@[i] by {}
                assert forall|i: int| #![trigger self.zones@[i]] 0 <= i < self.zones@.len() implies exists|j: int|
                    0 <= j < v.zones.len() && #[trigger] v.zones[j] == self.zones@[i] by {}
                assert forall|i: int, j: int| 0 <= i < self.balls@.len() && 0 <= j < self.lamps@.len()
                    implies #[trigger] self.balls@[i].id != #[trigger] self.lamps@[j].id by {
                    let j0 = choose|j0: int| 0 <= j0 < v.lamps.len() && #[trigger] v.lamps[j0] == self.lamps@[j];
                    assert(self.balls@[i].id == v.balls[i].id);
                }
                assert forall|i: int, j: int| 0 <= i < self.balls@.len() && 0 <= j < self.zones@.len()
                    implies #[trigger] self.balls@[i].id != #[trigger] self.zones@[j].id by {
                    let j0 = choose|j0: int| 0 <= j0 < v.zones.len() && #[trigger] v.zones[j0] == self.zones@[j];
                    assert(self.balls@[i].id == v.balls[i].id);
                }
                assert forall|i: int, j: int| 0 <= i < self.lamps@.len() && 0 <= j < self.zones@.len()
                    implies #[trigger] self.lamps@[i].id != #[trigger] self.zones@[j].id by {
                    let i0 = choose|i0: int| 0 <= i0 < v.lamps.len() && #[trigger] v.lamps[i0] == self.lamps@[i];
                    let j0 = choose|j0: int| 0 <= j0 < v.zones.len() && #[trigger] v.zones[j0] == self.zones@[j];
                }
                assert forall|i: int| 0 <= i < self.lamps@.len() implies #[trigger] self.lamps@[i].id
                    < v.next_id by {
                    let i0 = choose|i0: int| 0 <= i0 < v.lamps.len() && #[trigger] v.lamps[i0] == self.lamps@[i];
                }
                assert forall|i: int| 0 <= i < self.zones@.len() implies #[trigger] self.zones@[i].id
                    < v.next_id by {
                    let i0 = choose|i0: int| 0 <= i0 < v.zones.len() && #[trigger] v.zones[i0] == self.zones@[i];
                }
                assert forall|i: int, j: int|
                    0 <= i < self.balls@.len() && 0 <= j < self.balls@.len() && i != j
                        implies #[trigger] self.balls@[i].id != #[trigger] self.balls@[j].id by {
                    assert(self.balls@[i].id == v.balls[i].id);
                    assert(self.balls@[j].id == v.balls[j].id);
                }
                assert forall|i: int| 0 <= i < self.balls@.len() implies #[trigger] self.balls@[i].id
                    < v.next_id by {
                    assert(self.balls@[i].id == v.balls[i].id);
                }
            }
            acts
        } else {
            Vec::new()
        }
    }
}

} // verus!
