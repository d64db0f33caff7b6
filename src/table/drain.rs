//! The drain: balls that reach it leave play and, until the end game, are
//! replaced at the launch position.

use vstd::prelude::*;
use crate::ball::Ball;
use super::{Action, Table, TableView, spawned, table_wf};

verus! {

pub open spec fn has_ball(balls: Seq<Ball>, id: u64) -> bool {
    exists|i: int| 0 <= i < balls.len() && #[trigger] balls[i].id == id
}

pub open spec fn ball_index(balls: Seq<Ball>, id: u64) -> int {
    choose|i: int| 0 <= i < balls.len() && #[trigger] balls[i].id == id
}

/// Ball `id` reached the drain: it leaves play and, unless the end game has
/// begun, a ball of the same colour takes its place at the launch position.
/// An id that names no ball is skipped.
pub open spec fn drain_step(v: TableView, id: u64) -> TableView {
    if !has_ball(v.balls, id) {
        v
    } else {
        let k = ball_index(v.balls, id);
        let rest = TableView { balls: v.balls.remove(k), ..v };
        if v.end_game {
            rest
        } else {
            spawned(rest, v.balls[k].color)
        }
    }
}

pub open spec fn drain_step_actions(v: TableView, id: u64) -> Seq<Action> {
    if !has_ball(v.balls, id) {
        Seq::empty()
    } else if v.end_game {
        seq![Action::Despawn { id }]
    } else {
        seq![
            Action::Despawn { id },
            Action::SpawnBall { id: v.next_id as u64, color: v.balls[ball_index(v.balls, id)].color },
        ]
    }
}

/// Drains the balls of `ids` one after the other.
pub open spec fn drain_all(v: TableView, ids: Seq<u64>) -> TableView
    decreases ids.len(),
{
    if ids.len() == 0 {
        v
    } else {
        drain_step(drain_all(v, ids.drop_last()), ids.last())
    }
}

pub open spec fn drain_all_actions(v: TableView, ids: Seq<u64>) -> Seq<Action>
    decreases ids.len(),
{
    if ids.len() == 0 {
        Seq::empty()
    } else {
        drain_all_actions(v, ids.drop_last()) + drain_step_actions(
            drain_all(v, ids.drop_last()),
            ids.last(),
        )
    }
}

fn find_ball(balls: &Vec<Ball>, id: u64) -> (r: Option<usize>)
    ensures
        match r {
            Some(k) => k < balls@.len() && balls@[k as int].id == id,
            None => !has_ball(balls@, id),
        },
{
    let mut i: usize = 0;
    while i < balls.len()
        invariant
            i <= balls@.len(),
            forall|j: int| 0 <= j < i ==> #[trigger] balls@[j].id != id,
        decreases balls@.len() - i,
    {
        if balls[i].id == id {
            return Some(i);
        }
        i += 1;
    }
    None
}

impl Table {
    fn drain_one(&mut self, id: u64, acts: &mut Vec<Action>)
        requires
            table_wf(old(self)@),
            old(self)@.next_id < u64::MAX,
        ensures
            table_wf(final(self)@),
            final(self)@ == drain_step(old(self)@, id),
            final(acts)@ == old(acts)@ + drain_step_actions(old(self)@, id),
    {
        let ghost v = self@;
        match find_ball(&self.balls, id) {
            None => {
                assert(acts@ =~= acts@ + Seq::<Action>::empty());
            },
            Some(k) => {
                proof {
                    let c = ball_index(v.balls, id);
                    assert(v.balls[c].id == id);
                    assert(c == k);
                    v.balls.remove_ensures(k as int);
                }
                let b = self.balls.remove(k);
                proof {
                    assert forall|i: int, j: int|
                        0 <= i < self.balls@.len() && 0 <= j < self.balls@.len() && i != j
                            implies #[trigger] self.balls@[i].id != #[trigger] self.balls@[j].id by {
                        let i0 = if i < k { i } else { i + 1 };
                        let j0 = if j < k { j } else { j + 1 };
                        assert(self.balls@[i] == v.balls[i0]);
                        assert(self.balls@[j] == v.balls[j0]);
                    }
                    assert forall|i: int| 0 <= i < self.balls@.len() implies #[trigger] self.balls@[i].id
                        < v.next_id by {
                        let i0 = if i < k { i } else { i + 1 };
                        assert(self.balls@[i] == v.balls[i0]);
                    }
                }
                acts.push(Action::Despawn { id });
                if !self.end_game {
                    let new_id = self.spawn_ball(b.color);
                    acts.push(Action::SpawnBall { id: new_id, color: b.color });
                }
                proof {
                    let extra = drain_step_actions(v, id);
                    assert(acts@ =~= old(acts)@ + extra);
                }
            },
        }
    }

    /// Every ball whose id is in `draining` touched the drain this tick: each
    /// one leaves play and, unless the end game has begun, is replaced by a
    /// ball of its colour at the launch position. Several balls in one batch
    /// are handled independently, one replacement each.
    pub fn handle_ball_intersections_with_bottom_wall(&mut self, draining: &Vec<u64>) -> (r: Vec<
        Action,
    >)
        requires
            table_wf(old(self)@),
            old(self)@.next_id + draining@.len() <= u64::MAX,
        ensures
            table_wf(final(self)@),
            final(self)@ == drain_all(old(self)@, draining@),
            r@ == drain_all_actions(old(self)@, draining@),
    {
        let ghost v = self@;
        let mut acts: Vec<Action> = Vec::new();
        let mut i: usize = 0;
        while i < draining.len()
            invariant
                i <= draining@.len(),
                table_wf(self@),
                self@ == drain_all(v, draining@.take(i as int)),
                acts@ == drain_all_actions(v, draining@.take(i as int)),
                self@.next_id <= v.next_id + i,
                v.next_id + draining@.len() <= u64::MAX,
            decreases draining@.len() - i,
        {
            let id = draining[i];
            proof {
                let s = draining@.take(i as int + 1);
                assert(s.drop_last() =~= draining@.take(i as int));
                assert(s.last() == id);
            }
            self.drain_one(id, &mut acts);
            i += 1;
        }
        assert(draining@.take(draining@.len() as int) =~= draining@);
        acts
    }

}

} // verus!
