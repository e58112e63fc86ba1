//! The deletion screen: the progress reported by the background deletion.

use vstd::prelude::*;

use crate::cleaner::DeleteMsg;
use crate::inbox::try_next;

verus! {

/// The state of the deletion screen.
pub struct DeletingState {
    /// Where the background deletion reports.
    pub rx: std::sync::mpsc::Receiver<DeleteMsg>,
    /// The number of targets to delete.
    pub total: usize,
    /// The number of targets handled so far.
    pub done: usize,
    /// The target handled last.
    pub current_path: String,
    /// The bytes freed so far.
    pub freed: u64,
    /// The targets that could not be deleted, with the reason.
    pub errors: Vec<(String, String)>,
    /// Whether the deletion has reported its end.
    pub finished: bool,
    /// When the deletion started.
    pub start: std::time::Instant,
    /// Whether nothing is really deleted.
    pub dry_run: bool,
}

/// What the screen shows: the last path, the bytes freed, the count
/// handled, the failures, and whether the deletion is over.
pub type Progress = (Seq<char>, u64, usize, Seq<(String, String)>, bool);

/// The progress after one message.
pub open spec fn after_msg(p: Progress, m: DeleteMsg) -> Progress {
    match m {
        DeleteMsg::Progress { path, freed, done } => (path@, freed, done, p.3, p.4),
        DeleteMsg::Done { freed, errors } => (p.0, freed, p.2, errors@, true),
    }
}

/// The progress after the messages `msgs`, in order.
pub open spec fn after_msgs(p: Progress, msgs: Seq<DeleteMsg>) -> Progress
    decreases msgs.len(),
{
    if msgs.len() == 0 {
        p
    } else {
        after_msg(after_msgs(p, msgs.drop_last()), msgs.last())
    }
}

impl DeletingState {
    /// What the screen shows.
    pub open spec fn progress(&self) -> Progress {
        (self.current_path@, self.freed, self.done, self.errors@, self.finished)
    }

    /// The fields that no message changes.
    pub open spec fn same_setup(&self, other: &DeletingState) -> bool {
        &&& self.rx == other.rx
        &&& self.total == other.total
        &&& self.start == other.start
        &&& self.dry_run == other.dry_run
    }

    /// Takes in one message: progress replaces the last path, the bytes
    /// freed and the count; the end sets the bytes freed and the failures.
    pub fn receive(&mut self, msg: DeleteMsg)
        ensures
            final(self).same_setup(old(self)),
            final(self).progress() == after_msg(old(self).progress(), msg),
    {
        match msg {
            DeleteMsg::Progress { path, freed, done } => {
                self.current_path = path;
                self.freed = freed;
                self.done = done;
            },
            DeleteMsg::Done { freed, errors } => {
                self.freed = freed;
                self.errors = errors;
                self.finished = true;
            },
        }
    }

    /// Takes in every message waiting, in order.
    pub fn drain(&mut self)
        ensures
            final(self).same_setup(old(self)),
            exists|msgs: Seq<DeleteMsg>|
                final(self).progress() == after_msgs(old(self).progress(), msgs),
    {
        let ghost mut msgs: Seq<DeleteMsg> = Seq::empty();
        // The channel cannot hand out more messages than a u64 counts; the
        // counter gives the loop its measure.
        let mut budget: u64 = u64::MAX;
        while budget > 0
            invariant
                self.same_setup(old(self)),
                self.progress() == after_msgs(old(self).progress(), msgs),
            decreases budget,
        {
            budget -= 1;
            match try_next(&self.rx) {
                None => break,
                Some(m) => {
                    proof {
                        let ghost prev = msgs;
                        msgs = msgs.push(m);
                        assert(msgs.drop_last() =~= prev);
                    }
                    self.receive(m);
                },
            }
        }
    }
}

} // verus!
