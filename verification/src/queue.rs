//! The task queue: the not-yet-completed tasks, drawn one at a time at
//! random and without replacement, so that each task of the dataset is
//! presented at most once per session.

use vstd::prelude::*;
use vstd::multiset::Multiset;
use crate::data::{Task, TaskView};

verus! {

/// The remaining tasks of the session, in the order the dataset gave them.
pub struct TaskQueue {
    tasks: Vec<Task>,
}

impl View for TaskQueue {
    type V = Seq<TaskView>;

    closed spec fn view(&self) -> Seq<TaskView> {
        self.tasks@.map_values(|t: Task| t@)
    }
}

/// Relies on rand::rng and rand::RngExt::random_range: a uniformly chosen
/// index below `n`; the call rejects an empty range, so `n` must be
/// positive.
#[verifier::external_body]
fn random_below(n: usize) -> (r: usize)
    requires
        n > 0,
    ensures
        r < n,
{
    rand::RngExt::random_range(&mut rand::rng(), 0..n)
}

impl TaskQueue {
    /// A fresh queue holding a copy of the whole dataset content.
    pub fn new(tasks: &Vec<Task>) -> (q: TaskQueue)
        ensures
            q@ == tasks@.map_values(|t: Task| t@),
    {
        let mut copy: Vec<Task> = Vec::new();
        let mut i: usize = 0;
        while i < tasks.len()
            invariant
                i <= tasks.len(),
                copy@.len() == i,
                forall|j: int| 0 <= j < i ==> copy@[j]@ == tasks@[j]@,
            decreases tasks.len() - i,
        {
            copy.push(tasks[i].clone());
            i = i + 1;
        }
        proof {
            assert(copy@.map_values(|t: Task| t@) =~= tasks@.map_values(|t: Task| t@));
        }
        TaskQueue { tasks: copy }
    }

    /// True iff no task is left to draw; this condition ends the session.
    pub fn is_empty(&self) -> (r: bool)
        ensures
            r == (self@.len() == 0),
    {
        self.tasks.len() == 0
    }

    /// How many tasks are left to draw.
    pub fn len(&self) -> (r: usize)
        ensures
            r == self@.len(),
    {
        self.tasks.len()
    }

    /// Draws a uniformly random task from the remaining ones and removes it
    /// from the queue, so it can never be presented again: the tasks still
    /// queued together with the drawn one are exactly the tasks queued
    /// before.
    pub fn draw_random(&mut self) -> (r: Task)
        requires
            old(self)@.len() > 0,
        ensures
            final(self)@.len() == old(self)@.len() - 1,
            exists|i: int|
                0 <= i < old(self)@.len() && r@ == old(self)@[i] && final(self)@ == old(
                    self,
                )@.remove(i),
            old(self)@.to_multiset() == final(self)@.to_multiset().insert(r@),
    {
        broadcast use vstd::seq_lib::group_to_multiset_ensures;
        broadcast use vstd::multiset::group_multiset_axioms;

        let i = random_below(self.tasks.len());
        let t = self.tasks.remove(i);
        proof {
            assert(self@ =~= old(self)@.remove(i as int));
            assert(old(self)@.contains(old(self)@[i as int]));
            assert(old(self)@.to_multiset().count(old(self)@[i as int]) > 0);
            assert(old(self)@.to_multiset() =~= self@.to_multiset().insert(t@));
        }
        t
    }
}

/// Whether a sequence of draw positions is valid for a queue of the given
/// content: each position indexes the tasks remaining at its turn.
pub open spec fn valid_picks(q: Seq<TaskView>, picks: Seq<int>) -> bool
    decreases picks.len(),
{
    if picks.len() == 0 {
        true
    } else {
        &&& 0 <= picks[0] < q.len()
        &&& valid_picks(q.remove(picks[0]), picks.drop_first())
    }
}

/// The tasks a session presents, in order, when it draws at the given
/// positions.
pub open spec fn drawn_by(q: Seq<TaskView>, picks: Seq<int>) -> Seq<TaskView>
    decreases picks.len(),
{
    if picks.len() == 0 {
        Seq::empty()
    } else {
        seq![q[picks[0]]] + drawn_by(q.remove(picks[0]), picks.drop_first())
    }
}

/// The tasks still in the queue after drawing at the given positions.
pub open spec fn remaining_after(q: Seq<TaskView>, picks: Seq<int>) -> Seq<TaskView>
    decreases picks.len(),
{
    if picks.len() == 0 {
        q
    } else {
        remaining_after(q.remove(picks[0]), picks.drop_first())
    }
}

/// The no-replacement law: however the draw positions fall, the tasks
/// presented together with the tasks still queued are exactly the original
/// dataset content, and a session that draws as many times as the dataset
/// has tasks presents each original task exactly once — the number of
/// tasks presented equals the dataset size and none is presented twice.
pub proof fn lemma_no_replacement(q: Seq<TaskView>, picks: Seq<int>)
    requires
        valid_picks(q, picks),
    ensures
        picks.len() <= q.len(),
        drawn_by(q, picks).len() == picks.len(),
        remaining_after(q, picks).len() == q.len() - picks.len(),
        drawn_by(q, picks).to_multiset().add(remaining_after(q, picks).to_multiset())
            =~= q.to_multiset(),
        picks.len() == q.len() ==> drawn_by(q, picks).to_multiset() =~= q.to_multiset(),
    decreases picks.len(),
{
    broadcast use vstd::seq_lib::group_to_multiset_ensures;
    broadcast use vstd::multiset::group_multiset_axioms;

    if picks.len() == 0 {
        assert(drawn_by(q, picks) =~= Seq::<TaskView>::empty());
        assert(Seq::<TaskView>::empty().to_multiset().len() == 0);
        vstd::multiset::lemma_multiset_empty_len(Seq::<TaskView>::empty().to_multiset());
        assert(drawn_by(q, picks).to_multiset().add(remaining_after(q, picks).to_multiset())
            =~= q.to_multiset());
    } else {
        let i = picks[0];
        let q2 = q.remove(i);
        let rest = picks.drop_first();
        lemma_no_replacement(q2, rest);
        let d2 = drawn_by(q2, rest);
        let r2 = remaining_after(q2, rest);
        assert(seq![q[i]] + d2 =~= d2.insert(0, q[i]));
        assert(drawn_by(q, picks).to_multiset() =~= d2.to_multiset().insert(q[i]));
        assert(q2.to_multiset() =~= q.to_multiset().remove(q[i]));
        assert(q.contains(q[i]));
        assert(q.to_multiset().count(q[i]) > 0);
        assert(remaining_after(q, picks) == r2);
        let dm = drawn_by(q, picks).to_multiset();
        let rm = remaining_after(q, picks).to_multiset();
        assert forall|x: TaskView| dm.add(rm).count(x) == q.to_multiset().count(x) by {
            assert(dm.count(x) == d2.to_multiset().count(x) + Multiset::singleton(q[i]).count(x));
            assert(d2.to_multiset().count(x) + r2.to_multiset().count(x) == q2.to_multiset().count(
                x,
            ));
            assert(q2.to_multiset().count(x) == q.to_multiset().sub(
                Multiset::singleton(q[i]),
            ).count(x));
        };
        assert(drawn_by(q, picks).to_multiset().add(remaining_after(q, picks).to_multiset())
            =~= q.to_multiset());
        if picks.len() == q.len() {
            assert(remaining_after(q, picks).len() == 0);
            assert(remaining_after(q, picks) =~= Seq::<TaskView>::empty());
            vstd::multiset::lemma_multiset_empty_len(remaining_after(q, picks).to_multiset());
            assert(drawn_by(q, picks).to_multiset() =~= q.to_multiset());
        }
    }
}

} // verus!
