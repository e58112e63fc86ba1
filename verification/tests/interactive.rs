use vacuum::adapter::CleanTarget;
use vacuum::cleaner::{DeleteMsg, DeletionTally};
use vacuum::interactive::adapter_select::{
    entries, handle_adapter_selection_key, AdapterSelectionResult, AdapterSelectionState,
};
use vacuum::interactive::scan_phase::spinner_frame;
use vacuum::interactive::target_select::{
    column_for, handle_help_key, handle_key, handle_mouse, handle_normal_key, handle_search_key,
    handle_visual_key, table_widths, App,
};
use vacuum::layout::{popup_area, Area, ColumnWidth};
use vacuum::interactive::types::{
    keybindings, Action, ActionResult, KeyCode, KeyInput, Mode, MouseKind, SortColumn, SortDir,
};

fn t(path: &str, adapter: &'static str, desc: &str, size: u64) -> CleanTarget {
    CleanTarget { path: path.to_string(), adapter, description: desc.to_string(), size }
}

fn key(c: char) -> KeyInput {
    KeyInput { code: KeyCode::Char(c), ctrl: false }
}

fn code(k: KeyCode) -> KeyInput {
    KeyInput { code: k, ctrl: false }
}

fn sample() -> App {
    App::new(
        vec![
            t("/r/web/node_modules", "node", "Node.js dependencies (node_modules/)", 300),
            t("/r/api/target", "cargo", "Rust build artifacts (target/)", 100),
            t("/r/py/.venv", "python", "Python build artifact (.venv/)", 200),
        ],
        "/r".to_string(),
    )
}

fn shown_paths(app: &App) -> Vec<String> {
    app.order.iter().map(|&i| app.targets[i].path.clone()).collect()
}

#[test]
fn new_sorts_by_relative_path_and_selects_everything() {
    let app = sample();
    assert_eq!(shown_paths(&app), vec!["/r/api/target", "/r/py/.venv", "/r/web/node_modules"]);
    assert_eq!(app.selected, vec![true, true, true]);
    assert_eq!(app.cursor, Some(0));
    assert_eq!(app.sort_col, SortColumn::Path);
    assert_eq!(app.sort_dir, SortDir::Asc);
    assert_eq!(app.mode, Mode::Normal);
    assert_eq!(app.help_order, (0..keybindings().len()).collect::<Vec<_>>());
    assert_eq!(app.selected_count(), 3);
    assert_eq!(app.total_size(), 600);
    assert_eq!(app.selected_size(), 600);
}

#[test]
fn new_with_no_targets_has_no_cursor() {
    let app = App::new(vec![], "/r".to_string());
    assert!(app.order.is_empty());
    assert_eq!(app.cursor, None);
    assert_eq!(app.total_size(), 0);
}

#[test]
fn cursor_wraps_both_ways() {
    let mut app = sample();
    app.move_up();
    assert_eq!(app.cursor, Some(2));
    app.move_down();
    assert_eq!(app.cursor, Some(0));
    app.move_bottom();
    assert_eq!(app.cursor(), 2);
    app.move_top();
    assert_eq!(app.cursor(), 0);
}

#[test]
fn page_moves_stop_at_the_ends() {
    let mut app = sample();
    app.page_size = 10;
    app.move_page_down();
    assert_eq!(app.cursor, Some(2));
    app.move_page_up();
    assert_eq!(app.cursor, Some(0));
    app.page_size = 4;
    app.move_half_page_down();
    assert_eq!(app.cursor, Some(2));
    app.move_half_page_up();
    assert_eq!(app.cursor, Some(0));
}

#[test]
fn toggle_twice_restores_selection() {
    let mut app = sample();
    app.move_down();
    app.toggle();
    // Row 1 shows "/r/py/.venv", the third target.
    assert_eq!(app.selected, vec![true, true, false]);
    assert_eq!(app.selected_count(), 2);
    assert_eq!(app.selected_size(), 400);
    app.toggle();
    assert_eq!(app.selected, vec![true, true, true]);
}

#[test]
fn select_none_then_all() {
    let mut app = sample();
    app.select_none();
    assert_eq!(app.selected_count(), 0);
    assert_eq!(app.selected_size(), 0);
    assert!(app.chosen_targets().is_empty());
    app.select_all();
    assert_eq!(app.selected_count(), 3);
    let chosen: Vec<String> = app.chosen_targets().into_iter().map(|t| t.path).collect();
    assert_eq!(chosen, vec!["/r/web/node_modules", "/r/api/target", "/r/py/.venv"]);
}

#[test]
fn sorting_by_size_then_again_reverses() {
    let mut app = sample();
    app.sort_by(SortColumn::Size);
    assert_eq!(app.sort_dir, SortDir::Asc);
    assert_eq!(shown_paths(&app), vec!["/r/api/target", "/r/py/.venv", "/r/web/node_modules"]);
    app.sort_by(SortColumn::Size);
    assert_eq!(app.sort_dir, SortDir::Desc);
    assert_eq!(shown_paths(&app), vec!["/r/web/node_modules", "/r/py/.venv", "/r/api/target"]);
    app.sort_by(SortColumn::Adapter);
    assert_eq!(app.sort_dir, SortDir::Asc);
    let adapters: Vec<&str> = app.order.iter().map(|&i| app.targets[i].adapter).collect();
    assert_eq!(adapters, vec!["cargo", "node", "python"]);
}

#[test]
fn sort_is_stable_for_equal_keys() {
    let mut app = App::new(
        vec![
            t("/r/c", "x", "same", 1),
            t("/r/a", "x", "same", 1),
            t("/r/b", "x", "same", 1),
        ],
        "/r".to_string(),
    );
    // Sorted by path first; equal sizes keep that order.
    app.sort_by(SortColumn::Size);
    assert_eq!(shown_paths(&app), vec!["/r/a", "/r/b", "/r/c"]);
    app.sort_by(SortColumn::Size);
    assert_eq!(shown_paths(&app), vec!["/r/a", "/r/b", "/r/c"]);
}

#[test]
fn sort_leaves_visual_mode() {
    let mut app = sample();
    app.enter_visual();
    assert_eq!(app.mode, Mode::Visual);
    app.sort_by(SortColumn::Description);
    assert_eq!(app.mode, Mode::Normal);
}

#[test]
fn typing_a_filter_narrows_the_rows() {
    let mut app = sample();
    handle_normal_key(&mut app, key('/'));
    assert_eq!(app.mode, Mode::Search);
    for c in "PY".chars() {
        handle_search_key(&mut app, key(c));
    }
    assert_eq!(app.filter_query, "PY");
    assert_eq!(shown_paths(&app), vec!["/r/py/.venv"]);
    assert_eq!(app.cursor, Some(0));
    handle_search_key(&mut app, code(KeyCode::Backspace));
    assert_eq!(app.filter_query, "P");
    // "api", "py" and "dependencies" all hold a "p".
    assert_eq!(shown_paths(&app).len(), 3);
    handle_search_key(&mut app, code(KeyCode::Enter));
    assert_eq!(app.mode, Mode::Normal);
    assert_eq!(app.filter_query, "P");
}

#[test]
fn filter_matches_relative_path_not_root() {
    let mut app = sample();
    for c in "r/".chars() {
        handle_search_key(&mut app, key(c));
    }
    // The root "/r" is not part of what is searched.
    assert!(shown_paths(&app).is_empty());
    assert_eq!(app.cursor, None);
    handle_search_key(&mut app, code(KeyCode::Esc));
    assert_eq!(app.filter_query, "");
    assert_eq!(app.mode, Mode::Normal);
    assert_eq!(shown_paths(&app).len(), 3);
    assert_eq!(app.cursor, Some(0));
}

#[test]
fn filter_matches_description_and_adapter() {
    let mut app = sample();
    for c in "rust".chars() {
        handle_search_key(&mut app, key(c));
    }
    assert_eq!(shown_paths(&app), vec!["/r/api/target"]);
    app.filter_query = "node".to_string();
    app.apply_filter();
    assert_eq!(shown_paths(&app), vec!["/r/web/node_modules"]);
}

#[test]
fn visual_range_sets_and_toggles() {
    let mut app = sample();
    handle_normal_key(&mut app, key('v'));
    assert_eq!(app.mode, Mode::Visual);
    handle_visual_key(&mut app, key('j'));
    assert_eq!(app.visual_range(), (0, 1));
    handle_visual_key(&mut app, key('n'));
    assert_eq!(app.mode, Mode::Normal);
    // Rows 0 and 1 are "/r/api/target" and "/r/py/.venv".
    assert_eq!(app.selected, vec![true, false, false]);

    handle_normal_key(&mut app, key('v'));
    handle_visual_key(&mut app, key('j'));
    handle_visual_key(&mut app, key(' '));
    // The anchor row (row 1) was deselected, so the range is selected.
    assert_eq!(app.selected, vec![true, false, true]);
    assert_eq!(app.mode, Mode::Normal);
}

#[test]
fn visual_escape_keeps_selection() {
    let mut app = sample();
    handle_normal_key(&mut app, key('v'));
    handle_visual_key(&mut app, code(KeyCode::Esc));
    assert_eq!(app.mode, Mode::Normal);
    assert_eq!(app.selected, vec![true, true, true]);
}

#[test]
fn normal_keys_map_to_actions() {
    let mut app = sample();
    assert_eq!(handle_normal_key(&mut app, key('q')), ActionResult::Quit);
    assert_eq!(handle_normal_key(&mut app, code(KeyCode::Esc)), ActionResult::Quit);
    assert_eq!(handle_normal_key(&mut app, code(KeyCode::Enter)), ActionResult::Confirm);
    assert_eq!(handle_normal_key(&mut app, key('3')), ActionResult::Continue);
    assert_eq!(app.sort_col, SortColumn::Size);
    assert_eq!(handle_normal_key(&mut app, key('e')), ActionResult::Continue);
    assert_eq!(app.mode, Mode::Detail);
    assert_eq!(handle_key(&mut app, key('x')), ActionResult::Continue);
    assert_eq!(app.mode, Mode::Normal);
    handle_normal_key(&mut app, key('?'));
    assert_eq!(app.mode, Mode::Help);
}

#[test]
fn ctrl_d_moves_half_a_page_but_d_alone_does_nothing() {
    let mut app = sample();
    app.page_size = 2;
    handle_normal_key(&mut app, key('d'));
    assert_eq!(app.cursor, Some(0));
    handle_normal_key(&mut app, KeyInput { code: KeyCode::Char('d'), ctrl: true });
    assert_eq!(app.cursor, Some(1));
}

#[test]
fn execute_action_results() {
    let mut app = sample();
    assert_eq!(app.execute_action(Action::Confirm), ActionResult::Confirm);
    assert_eq!(app.execute_action(Action::Quit), ActionResult::Quit);
    assert_eq!(app.execute_action(Action::OpenHelp), ActionResult::Continue);
    assert_eq!(app.mode, Mode::Help);
    assert_eq!(app.execute_action(Action::OpenHelp), ActionResult::Continue);
    assert_eq!(app.mode, Mode::Normal);
    app.execute_action(Action::SelectNone);
    assert_eq!(app.selected_count(), 0);
}

#[test]
fn help_filter_and_enter_runs_the_binding() {
    let mut app = sample();
    app.mode = Mode::Help;
    handle_help_key(&mut app, key('/'));
    assert!(app.help_searching);
    for c in "deselect".chars() {
        handle_help_key(&mut app, key(c));
    }
    let kbs = keybindings();
    let shown: Vec<&str> = app.help_order.iter().map(|&i| kbs[i].desc).collect();
    assert_eq!(shown, vec!["Deselect all items"]);
    handle_help_key(&mut app, code(KeyCode::Enter));
    assert!(!app.help_searching);
    let r = handle_help_key(&mut app, code(KeyCode::Enter));
    assert_eq!(r, ActionResult::Continue);
    assert_eq!(app.mode, Mode::Normal);
    assert_eq!(app.help_filter, "");
    assert_eq!(app.help_order.len(), kbs.len());
    assert_eq!(app.selected_count(), 0);
}

#[test]
fn help_enter_on_confirm_binding_confirms() {
    let mut app = sample();
    app.mode = Mode::Help;
    handle_help_key(&mut app, code(KeyCode::Up));
    handle_help_key(&mut app, code(KeyCode::Up));
    // Two rows up from the first wraps to the second to last binding.
    assert_eq!(app.help_cursor, Some(keybindings().len() - 2));
    let r = handle_help_key(&mut app, code(KeyCode::Enter));
    assert_eq!(r, ActionResult::Confirm);
}

#[test]
fn help_filter_with_no_match_has_no_cursor() {
    let mut app = sample();
    app.mode = Mode::Help;
    app.help_filter = "zzzz".to_string();
    app.apply_help_filter();
    assert!(app.help_order.is_empty());
    assert_eq!(app.help_cursor, None);
    handle_help_key(&mut app, key('q'));
    assert_eq!(app.mode, Mode::Normal);
    assert_eq!(app.help_order.len(), keybindings().len());
    assert_eq!(app.help_cursor, Some(0));
}

#[test]
fn column_for_reads_the_column_starts() {
    let starts = [0u16, 3, 15, 60, 70];
    assert_eq!(column_for(1, 100, &starts), None);
    assert_eq!(column_for(3, 100, &starts), Some(SortColumn::Adapter));
    assert_eq!(column_for(20, 100, &starts), Some(SortColumn::Path));
    assert_eq!(column_for(65, 100, &starts), Some(SortColumn::Size));
    assert_eq!(column_for(99, 100, &starts), Some(SortColumn::Description));
    assert_eq!(column_for(100, 100, &starts), None);
}

#[test]
fn table_widths_lists_five_columns() {
    let w = table_widths();
    assert_eq!(
        w,
        vec![
            ColumnWidth::Length(3),
            ColumnWidth::Length(12),
            ColumnWidth::Min(20),
            ColumnWidth::Length(10),
            ColumnWidth::Fill(1),
        ]
    );
}

#[test]
fn clicking_a_column_title_sorts_by_it() {
    let mut app = sample();
    app.table_area = Area { x: 0, y: 5, width: 102, height: 20 };
    // The adapter column starts after the 3-cell check column, inside the border.
    handle_mouse(&mut app, 6, 6, MouseKind::LeftDown);
    assert_eq!(app.sort_col, SortColumn::Adapter);
    assert_eq!(app.sort_dir, SortDir::Asc);
    handle_mouse(&mut app, 6, 6, MouseKind::LeftDown);
    assert_eq!(app.sort_dir, SortDir::Desc);
    // A click off the title row or on the check column changes nothing.
    handle_mouse(&mut app, 20, 7, MouseKind::LeftDown);
    handle_mouse(&mut app, 2, 6, MouseKind::LeftDown);
    handle_mouse(&mut app, 20, 6, MouseKind::Other);
    assert_eq!(app.sort_col, SortColumn::Adapter);
    assert_eq!(app.sort_dir, SortDir::Desc);
}

#[test]
fn adapter_list_starts_with_safe_adapters() {
    let state = AdapterSelectionState::new(true);
    assert!(state.cfg.no_size);
    assert!(state.cfg.node && state.cfg.cargo && state.cfg.python && state.cfg.go);
    assert!(state.cfg.gradle && state.cfg.maven && state.cfg.ocaml);
    assert!(!state.cfg.gitignore);
    assert_eq!(state.cursor(), 0);
    assert!(state.any_selected());
    let names: Vec<&str> = entries().iter().map(|e| e.name).collect();
    assert_eq!(
        names,
        vec!["node", "cargo", "python", "go", "gradle", "maven", "ocaml", "gitignore"]
    );
}

#[test]
fn adapter_list_keys() {
    let mut state = AdapterSelectionState::new(false);
    assert_eq!(
        handle_adapter_selection_key(&mut state, code(KeyCode::Up)),
        AdapterSelectionResult::Continue
    );
    assert_eq!(state.cursor(), entries().len() - 1);
    handle_adapter_selection_key(&mut state, key(' '));
    assert!(state.cfg.gitignore);
    handle_adapter_selection_key(&mut state, key('j'));
    assert_eq!(state.cursor(), 0);
    handle_adapter_selection_key(&mut state, key(' '));
    assert!(!state.cfg.node);
    assert_eq!(
        handle_adapter_selection_key(&mut state, code(KeyCode::Enter)),
        AdapterSelectionResult::Confirm
    );
    assert_eq!(handle_adapter_selection_key(&mut state, key('q')), AdapterSelectionResult::Quit);
}

#[test]
fn adapter_list_enter_needs_a_selection() {
    let mut state = AdapterSelectionState::new(false);
    for _ in 0..entries().len() {
        if vacuum::interactive::adapter_select::get_flag(&state.cfg, state.cursor()) {
            handle_adapter_selection_key(&mut state, key(' '));
        }
        handle_adapter_selection_key(&mut state, code(KeyCode::Down));
    }
    assert!(!state.any_selected());
    assert_eq!(
        handle_adapter_selection_key(&mut state, code(KeyCode::Enter)),
        AdapterSelectionResult::Continue
    );
}

#[test]
fn spinner_cycles_every_80_ms() {
    assert_eq!(spinner_frame(0), "⠋");
    assert_eq!(spinner_frame(79), "⠋");
    assert_eq!(spinner_frame(80), "⠙");
    assert_eq!(spinner_frame(80 * 9), "⠏");
    assert_eq!(spinner_frame(800), "⠋");
}

#[test]
fn deletion_tally_counts_bytes_and_failures() {
    let mut tally = DeletionTally::new();
    let m = tally.record("/r/a".to_string(), 10, Ok(()));
    match m {
        DeleteMsg::Progress { path, freed, done } => {
            assert_eq!(path, "/r/a");
            assert_eq!(freed, 10);
            assert_eq!(done, 1);
        }
        _ => panic!("expected progress"),
    }
    tally.record("/r/b".to_string(), 5, Err("denied".to_string()));
    tally.record("/r/c".to_string(), 7, Ok(()));
    assert_eq!(tally.freed, 17);
    assert_eq!(tally.done, 3);
    match tally.finish() {
        DeleteMsg::Done { freed, errors } => {
            assert_eq!(freed, 17);
            assert_eq!(errors, vec![("/r/b".to_string(), "denied".to_string())]);
        }
        _ => panic!("expected done"),
    }
}

#[test]
fn popup_sits_in_the_middle() {
    let area = Area { x: 0, y: 0, width: 100, height: 50 };
    assert_eq!(popup_area(area, 60, 80), Area { x: 20, y: 5, width: 60, height: 40 });
    assert_eq!(popup_area(area, 100, 100), area);
}

#[test]
fn toggling_an_adapter_twice_restores_the_settings() {
    let mut state = AdapterSelectionState::new(false);
    let before = state.cfg;
    handle_adapter_selection_key(&mut state, key('j'));
    handle_adapter_selection_key(&mut state, key(' '));
    assert!(!state.cfg.cargo);
    handle_adapter_selection_key(&mut state, key(' '));
    assert_eq!(state.cfg, before);
}
