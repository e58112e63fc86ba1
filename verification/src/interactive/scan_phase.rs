//! The scanning screen: the targets reported so far by the background scan.

use vstd::prelude::*;

use crate::adapter::CleanTarget;
use crate::inbox::try_next;

verus! {

/// A message from the background scan.
pub enum ScanMsg {
    /// A target was found.
    Found(CleanTarget),
    /// The scan is over.
    Done,
}

/// The state of the scanning screen.
pub struct ScanningState {
    /// Where the background scan reports.
    pub rx: std::sync::mpsc::Receiver<ScanMsg>,
    /// The targets reported so far, in order.
    pub found: Vec<CleanTarget>,
    /// When the scan started.
    pub start: std::time::Instant,
    /// Whether the scan has reported its end.
    pub done: bool,
}

/// The targets that `msgs` report, in order.
pub open spec fn found_in(msgs: Seq<ScanMsg>) -> Seq<CleanTarget>
    decreases msgs.len(),
{
    if msgs.len() == 0 {
        Seq::empty()
    } else {
        match msgs.last() {
            ScanMsg::Found(t) => found_in(msgs.drop_last()).push(t),
            ScanMsg::Done => found_in(msgs.drop_last()),
        }
    }
}

/// Whether one of `msgs` reports the end of the scan.
pub open spec fn done_in(msgs: Seq<ScanMsg>) -> bool
    decreases msgs.len(),
{
    if msgs.len() == 0 {
        false
    } else {
        done_in(msgs.drop_last()) || msgs.last() is Done
    }
}

/// `b` is `a` after the messages `msgs`, in order.
pub open spec fn scan_received(a: ScanningState, b: ScanningState, msgs: Seq<ScanMsg>) -> bool {
    &&& b.found@ == a.found@ + found_in(msgs)
    &&& b.done == (a.done || done_in(msgs))
    &&& b.rx == a.rx
    &&& b.start == a.start
}

proof fn lemma_received_push(msgs: Seq<ScanMsg>, m: ScanMsg)
    ensures
        found_in(msgs.push(m)) == (match m {
            ScanMsg::Found(t) => found_in(msgs).push(t),
            ScanMsg::Done => found_in(msgs),
        }),
        done_in(msgs.push(m)) == (done_in(msgs) || m is Done),
{
    assert(msgs.push(m).drop_last() =~= msgs);
}

impl ScanningState {
    /// Takes in one message: a found target is added, the end is noted.
    pub fn receive(&mut self, msg: ScanMsg)
        ensures
            final(self).rx == old(self).rx && final(self).start == old(self).start,
            match msg {
                ScanMsg::Found(t) => final(self).found@ == old(self).found@.push(t)
                    && final(self).done == old(self).done,
                ScanMsg::Done => final(self).found@ == old(self).found@ && final(self).done,
            },
    {
        match msg {
            ScanMsg::Found(t) => {
                self.found.push(t);
            },
            ScanMsg::Done => {
                self.done = true;
            },
        }
    }

    /// Takes in every message waiting, in order.
    pub fn drain(&mut self)
        ensures
            exists|msgs: Seq<ScanMsg>| scan_received(*old(self), *final(self), msgs),
    {
        let ghost mut msgs: Seq<ScanMsg> = Seq::empty();
        // The channel cannot hand out more messages than a u64 counts; the
        // counter gives the loop its measure.
        let mut budget: u64 = u64::MAX;
        assert(scan_received(*old(self), *self, msgs)) by {
            assert(old(self).found@ + found_in(msgs) =~= old(self).found@);
        }
        while budget > 0
            invariant
                scan_received(*old(self), *self, msgs),
            decreases budget,
        {
            budget -= 1;
            match try_next(&self.rx) {
                None => break,
                Some(m) => {
                    let ghost prev = msgs;
                    let ghost gm = m;
                    proof {
                        lemma_received_push(msgs, m);
                        msgs = msgs.push(m);
                    }
                    self.receive(m);
                    proof {
                        match gm {
                            ScanMsg::Found(t) => {
                                assert(self.found@ =~= old(self).found@ + found_in(prev).push(t));
                            },
                            ScanMsg::Done => {},
                        }
                    }
                },
            }
        }
    }
}

/// The frames of the spinner, in order.
pub open spec fn spinner_frames() -> Seq<Seq<char>> {
    seq!["⠋"@, "⠙"@, "⠹"@, "⠸"@, "⠼"@, "⠴"@, "⠦"@, "⠧"@, "⠇"@, "⠏"@]
}

/// The spinner frame shown `elapsed_ms` milliseconds into the scan: a new
/// frame every 80 ms, round and round.
pub fn spinner_frame(elapsed_ms: u128) -> (r: &'static str)
    ensures
        r@ == spinner_frames()[(((elapsed_ms / 80) as usize) % 10) as int],
{
    let idx = ((elapsed_ms / 80) as usize) % 10;
    if idx == 0 {
        "⠋"
    } else if idx == 1 {
        "⠙"
    } else if idx == 2 {
        "⠹"
    } else if idx == 3 {
        "⠸"
    } else if idx == 4 {
        "⠼"
    } else if idx == 5 {
        "⠴"
    } else if idx == 6 {
        "⠦"
    } else if idx == 7 {
        "⠧"
    } else if idx == 8 {
        "⠇"
    } else {
        "⠏"
    }
}

} // verus!
