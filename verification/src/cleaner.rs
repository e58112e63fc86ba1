//! Deleting targets: the running tally of a deletion and the messages it
//! reports to the progress screen.

use vstd::prelude::*;

verus! {

/// A message from the background deletion.
pub enum DeleteMsg {
    /// One more target was handled.
    Progress {
        /// The target just handled.
        path: String,
        /// The bytes freed so far.
        freed: u64,
        /// The number of targets handled so far.
        done: usize,
    },
    /// Every target was handled.
    Done {
        /// The bytes freed in all.
        freed: u64,
        /// The targets that could not be deleted, with the reason.
        errors: Vec<(String, String)>,
    },
}

/// `b` is the tally `a` after counting the target at `path`, of `size`
/// bytes, with the deletion outcome `outcome`.
pub open spec fn recorded(
    a: DeletionTally,
    b: DeletionTally,
    path: String,
    size: u64,
    outcome: Result<(), String>,
) -> bool {
    &&& b.done == a.done + 1
    &&& outcome is Ok ==> b.freed == a.freed + size && b.errors@ == a.errors@
    &&& outcome is Err ==> b.freed == a.freed && b.errors@ == a.errors@.push((path, outcome->Err_0))
}

/// The bytes of the targets in `outcomes` that were deleted.
pub open spec fn freed_by(outcomes: Seq<(String, u64, Result<(), String>)>) -> int
    decreases outcomes.len(),
{
    if outcomes.len() == 0 {
        0
    } else {
        freed_by(outcomes.drop_last()) + if outcomes.last().2 is Ok {
            outcomes.last().1 as int
        } else {
            0
        }
    }
}

/// The targets in `outcomes` that were not deleted, with the reason, in order.
pub open spec fn failures_of(outcomes: Seq<(String, u64, Result<(), String>)>) -> Seq<(String, String)>
    decreases outcomes.len(),
{
    if outcomes.len() == 0 {
        Seq::empty()
    } else if outcomes.last().2 is Err {
        failures_of(outcomes.drop_last()).push((outcomes.last().0, outcomes.last().2->Err_0))
    } else {
        failures_of(outcomes.drop_last())
    }
}

/// A tally that starts empty and counts `outcomes` in order (the states it
/// passes through being `states`) ends with the bytes of the deleted
/// targets, the number of targets, and the failures in order.
pub proof fn law_tally(states: Seq<DeletionTally>, outcomes: Seq<(String, u64, Result<(), String>)>)
    requires
        states.len() == outcomes.len() + 1,
        states[0].freed == 0 && states[0].done == 0 && states[0].errors@.len() == 0,
        forall|i: int|
            0 <= i < outcomes.len() ==> recorded(
                #[trigger] states[i],
                states[i + 1],
                outcomes[i].0,
                outcomes[i].1,
                outcomes[i].2,
            ),
    ensures
        states.last().freed == freed_by(outcomes),
        states.last().done == outcomes.len(),
        states.last().errors@ == failures_of(outcomes),
    decreases outcomes.len(),
{
    if outcomes.len() > 0 {
        let n = outcomes.len() as int;
        let prev_states = states.drop_last();
        let prev = outcomes.drop_last();
        assert forall|i: int| 0 <= i < prev.len() implies recorded(
            #[trigger] prev_states[i],
            prev_states[i + 1],
            prev[i].0,
            prev[i].1,
            prev[i].2,
        ) by {
            assert(recorded(states[i], states[i + 1], outcomes[i].0, outcomes[i].1, outcomes[i].2));
        }
        law_tally(prev_states, prev);
        assert(recorded(states[n - 1], states[n], outcomes[n - 1].0, outcomes[n - 1].1, outcomes[n - 1].2));
    } else {
        assert(states[0].errors@ =~= Seq::<(String, String)>::empty());
    }
}

/// The running tally of a deletion.
pub struct DeletionTally {
    /// The bytes freed so far.
    pub freed: u64,
    /// The number of targets handled so far.
    pub done: usize,
    /// The targets that could not be deleted, with the reason, in order.
    pub errors: Vec<(String, String)>,
}

impl DeletionTally {
    /// A tally of nothing yet.
    pub fn new() -> (r: Self)
        ensures
            r.freed == 0,
            r.done == 0,
            r.errors@.len() == 0,
    {
        DeletionTally { freed: 0, done: 0, errors: Vec::new() }
    }

    /// Counts the target at `path`, of `size` bytes: its bytes are freed
    /// where it was deleted (`Ok`), its path and the reason are kept where
    /// it was not. Returns the progress to report.
    pub fn record(&mut self, path: String, size: u64, outcome: Result<(), String>) -> (r: DeleteMsg)
        requires
            outcome is Ok ==> old(self).freed + size <= u64::MAX,
            old(self).done < usize::MAX,
        ensures
            recorded(*old(self), *final(self), path, size, outcome),
            r matches DeleteMsg::Progress { path: p, freed: f, done: d } && p@ == path@ && f
                == final(self).freed && d == final(self).done,
    {
        let shown = path.clone();
        match outcome {
            Ok(()) => {
                self.freed = self.freed + size;
            },
            Err(e) => {
                self.errors.push((path, e));
            },
        }
        self.done = self.done + 1;
        DeleteMsg::Progress { path: shown, freed: self.freed, done: self.done }
    }

    /// The final report: the bytes freed and the failures.
    pub fn finish(self) -> (r: DeleteMsg)
        ensures
            r matches DeleteMsg::Done { freed: f, errors: e } && f == self.freed && e@
                == self.errors@,
    {
        DeleteMsg::Done { freed: self.freed, errors: self.errors }
    }
}

} // verus!
