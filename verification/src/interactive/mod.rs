//! The interactive (safe-mode) workflow: its screens, and the decisions that
//! lead from one to the next. The event loop that draws the screens, reads
//! the terminal and starts the background work stands outside the library;
//! it hands each tick, key and click to the functions here and does what
//! they answer.

pub mod adapter_select;
pub mod delete_phase;
pub mod scan_phase;
pub mod types;
pub mod target_select;

use vstd::prelude::*;

use crate::adapter::{views, CleanTarget};
use crate::interactive::adapter_select::{
    adapter_key_effect, default_config, handle_adapter_selection_key, AdapterSelectionResult,
    AdapterSelectionState,
};
use crate::interactive::delete_phase::{after_msgs, DeletingState};
use crate::interactive::scan_phase::{done_in, found_in, scan_received, ScanMsg, ScanningState};
use crate::interactive::target_select::{
    chosen, click_column, fresh_app, handle_key, handle_mouse, next_dir, resort_done,
    sorting_click, target_key_effect, App,
};
use crate::interactive::types::{ActionResult, KeyCode, KeyInput, MouseKind};
use crate::scanner::ScanConfig;

verus! {

/// How the interactive workflow ended.
pub enum TuiResult {
    /// The deletion ran (or there was nothing to delete).
    Completed {
        /// The bytes freed.
        freed: u64,
        /// The targets that could not be deleted, with the reason.
        errors: Vec<(String, String)>,
    },
    /// The user quit; nothing was deleted.
    Cancelled,
}

/// The screen the workflow is on.
pub enum Phase {
    AdapterSelection(AdapterSelectionState),
    Scanning(ScanningState),
    TargetSelection(App),
    Deleting(DeletingState),
}

/// What the event loop does next.
pub enum Next {
    /// Draw the screen again.
    Redraw,
    /// Wait for input.
    Poll,
    /// Start the scan with these settings, and show its progress.
    StartScan(ScanConfig),
    /// Start deleting these targets, and show the progress.
    StartDelete(Vec<CleanTarget>),
    /// Leave the workflow with this result.
    Finish(TuiResult),
}

/// The invariant of each screen's state.
pub open spec fn phase_ok(p: Phase) -> bool {
    match p {
        Phase::AdapterSelection(s) => s.wf(),
        Phase::TargetSelection(a) => a.wf(),
        _ => true,
    }
}

/// Whether `n` ends the workflow as completed, with `freed` bytes freed and
/// the failures `errors`.
pub open spec fn completes(n: Next, freed: u64, errors: Seq<(String, String)>) -> bool {
    n matches Next::Finish(TuiResult::Completed { freed: f, errors: e }) && f == freed && e@
        == errors
}

/// Whether `n` ends the workflow as cancelled.
pub open spec fn cancels(n: Next) -> bool {
    n matches Next::Finish(TuiResult::Cancelled)
}

/// The outcome of a tick on the scanning screen `s` that took in the
/// messages `msgs`: still scanning; over with nothing found; or on to the
/// target list over what was found.
pub open spec fn scan_tick(s: ScanningState, msgs: Seq<ScanMsg>, root: Seq<char>, r: (Phase, Next)) -> bool {
    let found = s.found@ + found_in(msgs);
    if !(s.done || done_in(msgs)) {
        &&& r.1 is Poll
        &&& r.0 matches Phase::Scanning(s2) && scan_received(s, s2, msgs)
    } else if found.len() == 0 {
        completes(r.1, 0, Seq::empty())
    } else {
        &&& r.1 is Redraw
        &&& r.0 matches Phase::TargetSelection(a) && fresh_app(a, found, root)
    }
}

/// The outcome of a tick on the deletion screen `d` that took in the
/// messages `msgs`: once the end was already shown, the workflow completes
/// with the final tally; until then the screen shows the progress.
pub open spec fn delete_tick(d: DeletingState, msgs: Seq<crate::cleaner::DeleteMsg>, r: (Phase, Next)) -> bool {
    let p = after_msgs(d.progress(), msgs);
    if d.finished && p.4 {
        completes(r.1, p.1, p.3)
    } else {
        &&& r.1 is Poll
        &&& r.0 matches Phase::Deleting(d2) && d2.same_setup(&d) && d2.progress() == p
    }
}

/// The outcome of key `k` on the screen `p`.
pub open spec fn key_outcome(p: Phase, k: KeyInput, r: (Phase, Next)) -> bool {
    match p {
        Phase::AdapterSelection(s) => r.0 matches Phase::AdapterSelection(s2) && {
            ||| cancels(r.1) && adapter_key_effect(s, s2, k, AdapterSelectionResult::Quit)
            ||| r.1 matches Next::StartScan(c) && c == s2.cfg && adapter_key_effect(
                s,
                s2,
                k,
                AdapterSelectionResult::Confirm,
            )
            ||| r.1 is Redraw && adapter_key_effect(s, s2, k, AdapterSelectionResult::Continue)
        },
        Phase::Scanning(s) => if k.code == KeyCode::Char('q') || k.code == KeyCode::Esc {
            cancels(r.1)
        } else {
            r.1 is Redraw && r.0 == p
        },
        Phase::TargetSelection(a) => r.0 matches Phase::TargetSelection(a2) && {
            let ch = chosen(a2.targets@, a2.selected@, a2.targets.len() as int);
            ||| cancels(r.1) && target_key_effect(a, a2, k, ActionResult::Quit)
            ||| target_key_effect(a, a2, k, ActionResult::Confirm) && (if ch.len() == 0 {
                completes(r.1, 0, Seq::empty())
            } else {
                r.1 matches Next::StartDelete(v) && views(v@) == ch
            })
            ||| r.1 is Redraw && target_key_effect(a, a2, k, ActionResult::Continue)
        },
        Phase::Deleting(d) => if d.finished && (k.code == KeyCode::Enter || k.code
            == KeyCode::Char('q') || k.code == KeyCode::Esc) {
            completes(r.1, d.freed, d.errors@)
        } else {
            r.1 is Redraw && r.0 == p
        },
    }
}

/// The first screen: the adapter list, with the safe adapters selected.
pub fn first_phase(no_size: bool) -> (r: Phase)
    ensures
        phase_ok(r),
        r matches Phase::AdapterSelection(s) && s.cursor == 0 && s.cfg == default_config(no_size),
{
    Phase::AdapterSelection(AdapterSelectionState::new(no_size))
}

/// A tick on the scanning screen `s`: takes in the messages waiting, and
/// moves on to the target list (or ends, with nothing found) once the scan
/// is over.
fn tick_scanning(s: ScanningState, root: &String) -> (r: (Phase, Next))
    ensures
        phase_ok(r.0),
        exists|msgs: Seq<ScanMsg>| scan_tick(s, msgs, root@, r),
{
    let mut s = s;
    let ghost s0 = s;
    s.drain();
    let ghost msgs = choose|msgs: Seq<ScanMsg>| scan_received(s0, s, msgs);
    let r = if s.done {
        let ScanningState { rx, found, start, done } = s;
        if found.len() == 0 {
            let rest = ScanningState { rx, found: Vec::new(), start, done };
            (Phase::Scanning(rest), Next::Finish(TuiResult::Completed { freed: 0, errors: Vec::new() }))
        } else {
            let app = App::new(found, root.clone());
            (Phase::TargetSelection(app), Next::Redraw)
        }
    } else {
        (Phase::Scanning(s), Next::Poll)
    };
    assert(scan_tick(s0, msgs, root@, r));
    r
}

/// A tick on the deletion screen `d`: takes in the messages waiting, and
/// ends with the final tally once its end has been shown.
fn tick_deleting(d: DeletingState) -> (r: (Phase, Next))
    ensures
        phase_ok(r.0),
        exists|msgs: Seq<crate::cleaner::DeleteMsg>| delete_tick(d, msgs, r),
{
    let mut d = d;
    let ghost d0 = d;
    let was_finished = d.finished;
    d.drain();
    let ghost msgs = choose|msgs: Seq<crate::cleaner::DeleteMsg>| d.progress() == after_msgs(
        d0.progress(),
        msgs,
    );
    let r = if was_finished && d.finished {
        let DeletingState { rx, total, done, current_path, freed, errors, finished, start, dry_run } = d;
        let rest = DeletingState {
            rx,
            total,
            done,
            current_path,
            freed,
            errors: Vec::new(),
            finished,
            start,
            dry_run,
        };
        (Phase::Deleting(rest), Next::Finish(TuiResult::Completed { freed, errors }))
    } else {
        (Phase::Deleting(d), Next::Poll)
    };
    assert(delete_tick(d0, msgs, r));
    r
}

/// A tick of the event loop on screen `phase`: the scanning and deletion
/// screens take in the messages waiting from their background work, and
/// move on where it is over; the other screens wait for input.
pub fn on_tick(phase: Phase, root: &String) -> (r: (Phase, Next))
    requires
        phase_ok(phase),
    ensures
        phase_ok(r.0),
        match phase {
            Phase::Scanning(s) => exists|msgs: Seq<ScanMsg>| scan_tick(s, msgs, root@, r),
            Phase::Deleting(d) => exists|msgs: Seq<crate::cleaner::DeleteMsg>| delete_tick(d, msgs, r),
            _ => r.1 is Poll && r.0 == phase,
        },
{
    match phase {
        Phase::Scanning(s) => tick_scanning(s, root),
        Phase::Deleting(d) => tick_deleting(d),
        other => (other, Next::Poll),
    }
}

/// Key `key` on screen `phase`: the adapter list and the target list handle
/// it; `q` and Esc cancel the scan; once the deletion is over, Enter, `q`
/// and Esc leave.
pub fn on_key(phase: Phase, key: KeyInput) -> (r: (Phase, Next))
    requires
        phase_ok(phase),
    ensures
        phase_ok(r.0),
        key_outcome(phase, key, r),
{
    match phase {
        Phase::AdapterSelection(s) => {
            let mut s = s;
            let res = handle_adapter_selection_key(&mut s, key);
            match res {
                AdapterSelectionResult::Quit => (Phase::AdapterSelection(s), Next::Finish(TuiResult::Cancelled)),
                AdapterSelectionResult::Confirm => {
                    let cfg = s.cfg;
                    (Phase::AdapterSelection(s), Next::StartScan(cfg))
                },
                AdapterSelectionResult::Continue => (Phase::AdapterSelection(s), Next::Redraw),
            }
        },
        Phase::Scanning(s) => {
            if key.code == KeyCode::Char('q') || key.code == KeyCode::Esc {
                (Phase::Scanning(s), Next::Finish(TuiResult::Cancelled))
            } else {
                (Phase::Scanning(s), Next::Redraw)
            }
        },
        Phase::TargetSelection(a) => {
            let mut a = a;
            let res = handle_key(&mut a, key);
            match res {
                ActionResult::Quit => (Phase::TargetSelection(a), Next::Finish(TuiResult::Cancelled)),
                ActionResult::Confirm => {
                    let picked = a.chosen_targets();
                    if picked.len() == 0 {
                        (Phase::TargetSelection(a), Next::Finish(TuiResult::Completed { freed: 0, errors: Vec::new() }))
                    } else {
                        (Phase::TargetSelection(a), Next::StartDelete(picked))
                    }
                },
                ActionResult::Continue => (Phase::TargetSelection(a), Next::Redraw),
            }
        },
        Phase::Deleting(d) => {
            if d.finished && (key.code == KeyCode::Enter || key.code == KeyCode::Char('q') || key.code == KeyCode::Esc) {
                let DeletingState { rx, total, done, current_path, freed, errors, finished, start, dry_run } = d;
                let rest = DeletingState {
                    rx,
                    total,
                    done,
                    current_path,
                    freed,
                    errors: Vec::new(),
                    finished,
                    start,
                    dry_run,
                };
                (Phase::Deleting(rest), Next::Finish(TuiResult::Completed { freed, errors }))
            } else {
                (Phase::Deleting(d), Next::Redraw)
            }
        },
    }
}

/// Whether a mouse event on screen `p` is one the target list may read
/// without overflow: its table lies below the last terminal row, and a
/// sorting click finds the table left of the last column.
pub open spec fn mouse_ok(p: Phase, row: u16, kind: MouseKind) -> bool {
    p matches Phase::TargetSelection(a) ==> a.table_area.y < u16::MAX && (sorting_click(a, row, kind)
        ==> a.table_area.x < u16::MAX)
}

/// A mouse event on screen `phase`: on the target list, a left click on a
/// column title sorts by that column; elsewhere nothing happens.
pub fn on_mouse(phase: Phase, col: u16, row: u16, kind: MouseKind) -> (r: Phase)
    requires
        phase_ok(phase),
        mouse_ok(phase, row, kind),
    ensures
        phase_ok(r),
        match phase {
            Phase::TargetSelection(a) => r matches Phase::TargetSelection(a2) && (if sorting_click(a, row, kind)
                && click_column(col, a.table_area) is Some {
                resort_done(
                    a,
                    a2,
                    click_column(col, a.table_area)->0,
                    next_dir(a, click_column(col, a.table_area)->0),
                )
            } else {
                a2 == a
            }),
            _ => r == phase,
        },
{
    match phase {
        Phase::TargetSelection(a) => {
            let mut a = a;
            if kind == MouseKind::LeftDown {
                handle_mouse(&mut a, col, row, kind);
            }
            Phase::TargetSelection(a)
        },
        other => other,
    }
}

/// The outcome of a tick on the screen `p` (see [`on_tick`]).
pub open spec fn tick_outcome(p: Phase, root: Seq<char>, r: (Phase, Next)) -> bool {
    match p {
        Phase::Scanning(s) => exists|msgs: Seq<ScanMsg>| scan_tick(s, msgs, root, r),
        Phase::Deleting(d) => exists|msgs: Seq<crate::cleaner::DeleteMsg>| delete_tick(d, msgs, r),
        _ => r.1 is Poll && r.0 == p,
    }
}

/// One step of a run of the workflow: key `k` (a tick where there is none)
/// on the screen `p` gives `r`; where `r` asks to start the scan or the
/// deletion, the loop moves on to that screen `q` (built by the loop), else
/// `q` is the screen that `r` gives.
pub open spec fn run_step(p: Phase, k: Option<KeyInput>, root: Seq<char>, r: (Phase, Next), q: Phase) -> bool {
    &&& match k {
        Some(key) => key_outcome(p, key, r),
        None => tick_outcome(p, root, r),
    }
    &&& match r.1 {
        Next::StartScan(_) => q is Scanning,
        Next::StartDelete(_) => q is Deleting,
        _ => q == r.0,
    }
}

/// A run of the workflow over the screens `phases`: it starts on the adapter
/// list, each step is [`run_step`] on the input `inputs[i]` with outcome
/// `outs[i]`, and only the last step may end it.
pub open spec fn workflow_run(phases: Seq<Phase>, inputs: Seq<Option<KeyInput>>, outs: Seq<(Phase, Next)>, root: Seq<char>) -> bool {
    &&& phases.len() == outs.len() + 1
    &&& inputs.len() == outs.len()
    &&& phases[0] is AdapterSelection
    &&& forall|i: int| 0 <= i < outs.len() ==> run_step(#[trigger] phases[i], inputs[i], root, outs[i], phases[i + 1])
    &&& forall|i: int| 0 <= i < outs.len() - 1 ==> !(#[trigger] outs[i].1 is Finish)
}

/// Whether a step before `m` asked to start the scan.
pub open spec fn scan_started_before(outs: Seq<(Phase, Next)>, m: int) -> bool {
    exists|j: int| 0 <= j < m && #[trigger] outs[j].1 is StartScan
}

/// Whether, before step `m`, a scan that had been started ended with targets
/// (a tick on the scanning screen moved on to the target list).
pub open spec fn scan_done_before(phases: Seq<Phase>, outs: Seq<(Phase, Next)>, m: int) -> bool {
    exists|l: int|
        0 <= l < m && #[trigger] phases[l] is Scanning && outs[l].0 is TargetSelection && scan_started_before(outs, l)
}

proof fn lemma_run_screens(phases: Seq<Phase>, inputs: Seq<Option<KeyInput>>, outs: Seq<(Phase, Next)>, root: Seq<char>, m: int)
    requires
        workflow_run(phases, inputs, outs, root),
        0 <= m <= outs.len(),
        m == outs.len() ==> m == 0 || !(outs[m - 1].1 is Finish),
    ensures
        phases[m] is Scanning ==> scan_started_before(outs, m),
        phases[m] is TargetSelection ==> scan_done_before(phases, outs, m),
        phases[m] is Deleting ==> true,
    decreases m,
{
    if m > 0 {
        let i = m - 1;
        lemma_run_screens(phases, inputs, outs, root, i);
        assert(run_step(phases[i], inputs[i], root, outs[i], phases[i + 1]));
        if i < outs.len() - 1 {
            assert(!(outs[i].1 is Finish));
        }
        if outs[i].1 is StartScan {
            assert(scan_started_before(outs, m));
        } else if outs[i].1 is StartDelete {
        } else {
            if phases[i] is Scanning {
                if phases[m] is TargetSelection {
                    assert(scan_done_before(phases, outs, m));
                }
            }
            if phases[i] is Scanning && phases[m] is Scanning {
                let j = choose|j: int| 0 <= j < i && #[trigger] outs[j].1 is StartScan;
                assert(scan_started_before(outs, m));
            }
            if phases[i] is TargetSelection && phases[m] is TargetSelection {
                let l = choose|l: int|
                    0 <= l < i && #[trigger] phases[l] is Scanning && outs[l].0 is TargetSelection && scan_started_before(outs, l);
                assert(scan_done_before(phases, outs, m));
            }
        }
    }
}

/// In a run of the workflow, the deletion starts only on the target list,
/// on its confirm key, with the chosen targets (none of the run's earlier
/// steps ended it), and after a scan that had been started ended with
/// targets.
pub proof fn law_delete_after_confirm(
    phases: Seq<Phase>,
    inputs: Seq<Option<KeyInput>>,
    outs: Seq<(Phase, Next)>,
    root: Seq<char>,
    i: int,
)
    requires
        workflow_run(phases, inputs, outs, root),
        0 <= i < outs.len(),
        outs[i].1 is StartDelete,
    ensures
        phases[i] matches Phase::TargetSelection(a) && inputs[i] matches Some(k) && outs[i].0 matches Phase::TargetSelection(a2)
            && target_key_effect(a, a2, k, ActionResult::Confirm) && chosen(a2.targets@, a2.selected@, a2.targets.len() as int).len() > 0,
        scan_done_before(phases, outs, i),
{
    lemma_run_screens(phases, inputs, outs, root, i);
    assert(run_step(phases[i], inputs[i], root, outs[i], phases[i + 1]));
    if i > 0 {
        assert(!(outs[i - 1].1 is Finish));
    }
}

} // verus!
