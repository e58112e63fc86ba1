use std::sync::mpsc;
use std::time::Instant;

use vacuum::adapter::CleanTarget;
use vacuum::cleaner::DeleteMsg;
use vacuum::interactive::delete_phase::DeletingState;
use vacuum::interactive::scan_phase::{ScanMsg, ScanningState};
use vacuum::interactive::types::{KeyCode, KeyInput, Mode, MouseKind, SortColumn};
use vacuum::interactive::{first_phase, on_key, on_mouse, on_tick, Next, Phase, TuiResult};

fn t(path: &str, size: u64) -> CleanTarget {
    CleanTarget {
        path: path.to_string(),
        adapter: "node",
        description: "Node.js dependencies (node_modules/)".to_string(),
        size,
    }
}

fn key(c: char) -> KeyInput {
    KeyInput { code: KeyCode::Char(c), ctrl: false }
}

fn code(k: KeyCode) -> KeyInput {
    KeyInput { code: k, ctrl: false }
}

fn scanning(msgs: Vec<ScanMsg>) -> Phase {
    let (tx, rx) = mpsc::channel();
    for m in msgs {
        tx.send(m).unwrap();
    }
    Phase::Scanning(ScanningState { rx, found: Vec::new(), start: Instant::now(), done: false })
}

fn deleting(msgs: Vec<DeleteMsg>) -> (Phase, mpsc::Sender<DeleteMsg>) {
    let (tx, rx) = mpsc::channel();
    for m in msgs {
        tx.send(m).unwrap();
    }
    let state = DeletingState {
        rx,
        total: 2,
        done: 0,
        current_path: String::new(),
        freed: 0,
        errors: Vec::new(),
        finished: false,
        start: Instant::now(),
        dry_run: false,
    };
    (Phase::Deleting(state), tx)
}

#[test]
fn adapter_list_enter_starts_the_scan() {
    let phase = first_phase(true);
    let (phase, next) = on_tick(phase, &"/r".to_string());
    assert!(matches!(next, Next::Poll));
    let (phase, next) = on_key(phase, code(KeyCode::Enter));
    match next {
        Next::StartScan(cfg) => {
            assert!(cfg.no_size && cfg.node && cfg.ocaml && !cfg.gitignore);
        }
        _ => panic!("expected the scan to start"),
    }
    let (_, next) = on_key(phase, code(KeyCode::Esc));
    assert!(matches!(next, Next::Finish(TuiResult::Cancelled)));
}

#[test]
fn scan_in_progress_keeps_polling() {
    let phase = scanning(vec![ScanMsg::Found(t("/r/b/node_modules", 1))]);
    let (phase, next) = on_tick(phase, &"/r".to_string());
    assert!(matches!(next, Next::Poll));
    match &phase {
        Phase::Scanning(s) => {
            assert_eq!(s.found.len(), 1);
            assert!(!s.done);
        }
        _ => panic!("expected the scan screen"),
    }
    let (_, next) = on_key(phase, key('x'));
    assert!(matches!(next, Next::Redraw));
}

#[test]
fn finished_scan_opens_the_target_list() {
    let phase = scanning(vec![
        ScanMsg::Found(t("/r/b/node_modules", 1)),
        ScanMsg::Found(t("/r/a/node_modules", 2)),
        ScanMsg::Done,
    ]);
    let (phase, next) = on_tick(phase, &"/r".to_string());
    assert!(matches!(next, Next::Redraw));
    match &phase {
        Phase::TargetSelection(app) => {
            let shown: Vec<&str> = app.order.iter().map(|&i| app.targets[i].path.as_str()).collect();
            assert_eq!(shown, vec!["/r/a/node_modules", "/r/b/node_modules"]);
            assert_eq!(app.root, "/r");
            assert_eq!(app.mode, Mode::Normal);
        }
        _ => panic!("expected the target list"),
    }
}

#[test]
fn finished_scan_with_nothing_found_completes() {
    let phase = scanning(vec![ScanMsg::Done]);
    let (_, next) = on_tick(phase, &"/r".to_string());
    match next {
        Next::Finish(TuiResult::Completed { freed, errors }) => {
            assert_eq!(freed, 0);
            assert!(errors.is_empty());
        }
        _ => panic!("expected completion"),
    }
}

#[test]
fn scan_can_be_cancelled() {
    let phase = scanning(vec![]);
    let (_, next) = on_key(phase, key('q'));
    assert!(matches!(next, Next::Finish(TuiResult::Cancelled)));
}

fn target_list() -> Phase {
    let phase = scanning(vec![
        ScanMsg::Found(t("/r/b/node_modules", 1)),
        ScanMsg::Found(t("/r/a/node_modules", 2)),
        ScanMsg::Done,
    ]);
    on_tick(phase, &"/r".to_string()).0
}

#[test]
fn confirming_the_list_starts_the_deletion() {
    let (phase, next) = on_key(target_list(), key(' '));
    assert!(matches!(next, Next::Redraw));
    let (_, next) = on_key(phase, code(KeyCode::Enter));
    match next {
        Next::StartDelete(targets) => {
            // The first row ("/r/a/...") was deselected.
            let paths: Vec<String> = targets.into_iter().map(|t| t.path).collect();
            assert_eq!(paths, vec!["/r/b/node_modules"]);
        }
        _ => panic!("expected the deletion to start"),
    }
}

#[test]
fn confirming_nothing_completes_without_deleting() {
    let (phase, _) = on_key(target_list(), key('n'));
    let (_, next) = on_key(phase, code(KeyCode::Enter));
    match next {
        Next::Finish(TuiResult::Completed { freed, errors }) => {
            assert_eq!(freed, 0);
            assert!(errors.is_empty());
        }
        _ => panic!("expected completion"),
    }
}

#[test]
fn quitting_the_list_cancels() {
    let (_, next) = on_key(target_list(), key('q'));
    assert!(matches!(next, Next::Finish(TuiResult::Cancelled)));
}

#[test]
fn mouse_on_the_list_sorts() {
    let mut phase = target_list();
    if let Phase::TargetSelection(app) = &mut phase {
        app.table_area = vacuum::layout::Area { x: 0, y: 0, width: 102, height: 20 };
    }
    let phase = on_mouse(phase, 6, 1, MouseKind::LeftDown);
    match &phase {
        Phase::TargetSelection(app) => assert_eq!(app.sort_col, SortColumn::Adapter),
        _ => panic!("expected the target list"),
    }
}

#[test]
fn deletion_progress_then_completion() {
    let (phase, tx) = deleting(vec![DeleteMsg::Progress {
        path: "/r/a".to_string(),
        freed: 10,
        done: 1,
    }]);
    let (phase, next) = on_tick(phase, &"/r".to_string());
    assert!(matches!(next, Next::Poll));
    match &phase {
        Phase::Deleting(d) => {
            assert_eq!(d.current_path, "/r/a");
            assert_eq!(d.freed, 10);
            assert_eq!(d.done, 1);
            assert!(!d.finished);
        }
        _ => panic!("expected the deletion screen"),
    }
    let (phase, next) = on_key(phase, code(KeyCode::Enter));
    assert!(matches!(next, Next::Redraw));

    tx.send(DeleteMsg::Done { freed: 25, errors: vec![("/r/b".to_string(), "denied".to_string())] })
        .unwrap();
    // The end is shown once before the workflow leaves.
    let (phase, next) = on_tick(phase, &"/r".to_string());
    assert!(matches!(next, Next::Poll));
    let (_, next) = on_tick(phase, &"/r".to_string());
    match next {
        Next::Finish(TuiResult::Completed { freed, errors }) => {
            assert_eq!(freed, 25);
            assert_eq!(errors, vec![("/r/b".to_string(), "denied".to_string())]);
        }
        _ => panic!("expected completion"),
    }
}

#[test]
fn finished_deletion_leaves_on_enter() {
    let (phase, _tx) = deleting(vec![DeleteMsg::Done { freed: 7, errors: vec![] }]);
    let (phase, _) = on_tick(phase, &"/r".to_string());
    let (_, next) = on_key(phase, key('q'));
    match next {
        Next::Finish(TuiResult::Completed { freed, errors }) => {
            assert_eq!(freed, 7);
            assert!(errors.is_empty());
        }
        _ => panic!("expected completion"),
    }
}
