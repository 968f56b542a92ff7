//! Score keeping and sprite-frame cycling.
use vstd::prelude::*;

verus! {

/// The running score.
#[derive(Clone, Copy, Debug, PartialEq, Eq, Structural)]
pub struct DisplayData {
    pub total_score: usize,
}

/// Points scored by one action.
#[derive(Clone, Copy, Debug, PartialEq, Eq, Structural)]
pub struct DisplayEvent {
    pub points: usize,
}

/// Total points of a sequence of events.
pub open spec fn points_sum(events: Seq<DisplayEvent>) -> int
    decreases events.len(),
{
    if events.len() == 0 {
        0
    } else {
        points_sum(events.drop_last()) + events.last().points
    }
}

/// Adds the points of every event to the score.
pub fn update_score(data: &mut DisplayData, events: &Vec<DisplayEvent>)
    requires
        old(data).total_score + points_sum(events@) <= usize::MAX,
    ensures
        final(data).total_score == old(data).total_score + points_sum(events@),
{
    let mut j: usize = 0;
    while j < events.len()
        invariant
            j <= events@.len(),
            data.total_score == old(data).total_score + points_sum(events@.take(j as int)),
            old(data).total_score + points_sum(events@) <= usize::MAX,
        decreases events@.len() - j,
    {
        assert(events@.take(j + 1).drop_last() =~= events@.take(j as int));
        proof {
            lemma_points_prefix(events@, j as int + 1);
        }
        data.total_score = data.total_score + events[j].points;
        j += 1;
    }
    assert(events@.take(events@.len() as int) =~= events@);
}

proof fn lemma_points_prefix(events: Seq<DisplayEvent>, k: int)
    requires
        0 <= k <= events.len(),
    ensures
        0 <= points_sum(events.take(k)) <= points_sum(events),
    decreases events.len(),
{
    if events.len() > 0 {
        if k == events.len() {
            assert(events.take(k) =~= events);
            lemma_points_prefix(events.drop_last(), k - 1);
            assert(events.drop_last().take(k - 1) =~= events.drop_last());
        } else {
            assert(events.drop_last().take(k) =~= events.take(k));
            lemma_points_prefix(events.drop_last(), k);
        }
    }
}

/// The frames of a looping sprite animation.
#[derive(Clone, Copy, Debug, PartialEq, Eq, Structural)]
pub struct AnimationIndices {
    pub first: usize,
    pub last: usize,
}

impl AnimationIndices {
    /// The frame after `current`: back to `first` after `last`.
    pub fn next_index(&self, current: usize) -> (r: usize)
        requires
            current == self.last || current < usize::MAX,
        ensures
            r == if current == self.last {
                self.first as int
            } else {
                current + 1
            },
    {
        if current == self.last {
            self.first
        } else {
            current + 1
        }
    }
}

} // verus!
