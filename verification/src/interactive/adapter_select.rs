//! The first screen of the interactive workflow: which adapters to scan with.

use vstd::prelude::*;

use crate::interactive::types::{KeyCode, KeyInput};
use crate::scanner::ScanConfig;

verus! {

/// The number of adapters offered.
pub const ADAPTER_COUNT: usize = 8;

/// The adapters offered, in display order: name, description, and whether
/// the adapter is safe (selected at first).
pub open spec fn adapter_entries() -> Seq<(Seq<char>, Seq<char>, bool)> {
    seq![
        ("node"@, "node_modules/"@, true),
        ("cargo"@, "target/"@, true),
        ("python"@, "__pycache__/, .venv/"@, true),
        ("go"@, "vendor/"@, true),
        ("gradle"@, ".gradle/, build/"@, true),
        ("maven"@, "target/"@, true),
        ("ocaml"@, "_build/"@, true),
        ("gitignore"@, ".gitignore-matched paths"@, false)
    ]
}

/// Whether the adapter of entry `i` is enabled in `cfg`.
pub open spec fn flag(cfg: ScanConfig, i: int) -> bool {
    if i == 0 {
        cfg.node
    } else if i == 1 {
        cfg.cargo
    } else if i == 2 {
        cfg.python
    } else if i == 3 {
        cfg.go
    } else if i == 4 {
        cfg.gradle
    } else if i == 5 {
        cfg.maven
    } else if i == 6 {
        cfg.ocaml
    } else {
        cfg.gitignore
    }
}

/// `cfg` with the adapter of entry `i` enabled when `v`, disabled otherwise.
pub open spec fn with_flag(cfg: ScanConfig, i: int, v: bool) -> ScanConfig {
    if i == 0 {
        ScanConfig { node: v, ..cfg }
    } else if i == 1 {
        ScanConfig { cargo: v, ..cfg }
    } else if i == 2 {
        ScanConfig { python: v, ..cfg }
    } else if i == 3 {
        ScanConfig { go: v, ..cfg }
    } else if i == 4 {
        ScanConfig { gradle: v, ..cfg }
    } else if i == 5 {
        ScanConfig { maven: v, ..cfg }
    } else if i == 6 {
        ScanConfig { ocaml: v, ..cfg }
    } else {
        ScanConfig { gitignore: v, ..cfg }
    }
}

/// Setting entry `i` changes that entry's flag and no other.
pub proof fn lemma_flag_with(cfg: ScanConfig, i: int, v: bool, x: int)
    requires
        0 <= i < ADAPTER_COUNT,
        0 <= x < ADAPTER_COUNT,
    ensures
        flag(with_flag(cfg, i, v), x) == (if x == i {
            v
        } else {
            flag(cfg, x)
        }),
        with_flag(cfg, i, v).no_size == cfg.no_size,
{
}

/// The settings first offered: every safe adapter on, the dangerous one
/// off.
pub open spec fn default_config(no_size: bool) -> ScanConfig {
    ScanConfig {
        no_size,
        node: true,
        cargo: true,
        python: true,
        go: true,
        gradle: true,
        maven: true,
        ocaml: true,
        gitignore: false,
    }
}

/// Toggling an adapter twice gives back the settings.
pub proof fn law_toggle_adapter_twice(cfg: ScanConfig, i: int)
    requires
        0 <= i < ADAPTER_COUNT,
    ensures
        ({
            let once = with_flag(cfg, i, !flag(cfg, i));
            with_flag(once, i, !flag(once, i)) == cfg
        }),
{
}

/// Whether some adapter is enabled in `cfg`.
pub open spec fn some_enabled(cfg: ScanConfig) -> bool {
    exists|i: int| 0 <= i < ADAPTER_COUNT && #[trigger] flag(cfg, i)
}

/// One adapter as the list shows it.
#[derive(Clone, Copy, Debug)]
pub struct AdapterEntry {
    pub name: &'static str,
    pub description: &'static str,
    pub is_safe: bool,
}

/// The adapters offered, in display order (see [`adapter_entries`]).
pub fn entries() -> (r: Vec<AdapterEntry>)
    ensures
        r.len() == ADAPTER_COUNT,
        forall|i: int|
            0 <= i < r.len() ==> (#[trigger] r@[i]).name@ == adapter_entries()[i].0 && r@[i].description@
                == adapter_entries()[i].1 && r@[i].is_safe == adapter_entries()[i].2,
{
    let mut v: Vec<AdapterEntry> = Vec::new();
    v.push(AdapterEntry { name: "node", description: "node_modules/", is_safe: true });
    v.push(AdapterEntry { name: "cargo", description: "target/", is_safe: true });
    v.push(AdapterEntry { name: "python", description: "__pycache__/, .venv/", is_safe: true });
    v.push(AdapterEntry { name: "go", description: "vendor/", is_safe: true });
    v.push(AdapterEntry { name: "gradle", description: ".gradle/, build/", is_safe: true });
    v.push(AdapterEntry { name: "maven", description: "target/", is_safe: true });
    v.push(AdapterEntry { name: "ocaml", description: "_build/", is_safe: true });
    v.push(AdapterEntry { name: "gitignore", description: ".gitignore-matched paths", is_safe: false });
    v
}

/// Whether the adapter of entry `i` is enabled in `cfg` (see [`flag`]).
pub fn get_flag(cfg: &ScanConfig, i: usize) -> (r: bool)
    ensures
        r == flag(*cfg, i as int),
{
    if i == 0 {
        cfg.node
    } else if i == 1 {
        cfg.cargo
    } else if i == 2 {
        cfg.python
    } else if i == 3 {
        cfg.go
    } else if i == 4 {
        cfg.gradle
    } else if i == 5 {
        cfg.maven
    } else if i == 6 {
        cfg.ocaml
    } else {
        cfg.gitignore
    }
}

/// Enables (when `v`) or disables the adapter of entry `i` (see
/// [`with_flag`]).
pub fn set_flag(cfg: &mut ScanConfig, i: usize, v: bool)
    ensures
        *final(cfg) == with_flag(*old(cfg), i as int, v),
{
    if i == 0 {
        cfg.node = v;
    } else if i == 1 {
        cfg.cargo = v;
    } else if i == 2 {
        cfg.python = v;
    } else if i == 3 {
        cfg.go = v;
    } else if i == 4 {
        cfg.gradle = v;
    } else if i == 5 {
        cfg.maven = v;
    } else if i == 6 {
        cfg.ocaml = v;
    } else {
        cfg.gitignore = v;
    }
}

/// The state of the adapter list.
pub struct AdapterSelectionState {
    /// The settings being chosen.
    pub cfg: ScanConfig,
    /// The entry under the cursor.
    pub cursor: usize,
}

/// What the event loop does after a key on the adapter list.
#[derive(Clone, Copy, Debug, PartialEq, Eq, Structural)]
pub enum AdapterSelectionResult {
    Continue,
    Confirm,
    Quit,
}

impl AdapterSelectionState {
    /// The row under the cursor.
    pub open spec fn cursor_row(&self) -> int {
        self.cursor as int
    }

    /// The invariant: the cursor is on an entry.
    pub open spec fn wf(&self) -> bool {
        self.cursor < ADAPTER_COUNT
    }

    /// The list with the safe adapters selected, the dangerous ones not, and
    /// the cursor on the first entry.
    pub fn new(no_size: bool) -> (r: Self)
        ensures
            r.wf(),
            r.cursor_row() == 0,
            r.cfg == default_config(no_size),
    {
        let mut cfg = ScanConfig {
            no_size,
            node: false,
            cargo: false,
            python: false,
            go: false,
            gradle: false,
            maven: false,
            ocaml: false,
            gitignore: false,
        };
        let list = entries();
        let mut i: usize = 0;
        while i < list.len()
            invariant
                list.len() == ADAPTER_COUNT,
                forall|x: int|
                    0 <= x < list.len() ==> (#[trigger] list@[x]).is_safe == adapter_entries()[x].2,
                i <= list.len(),
                cfg.no_size == no_size,
                forall|x: int| 0 <= x < i ==> #[trigger] flag(cfg, x) == adapter_entries()[x].2,
                forall|x: int| i <= x < ADAPTER_COUNT ==> !#[trigger] flag(cfg, x),
            decreases list.len() - i,
        {
            let ghost before = cfg;
            if list[i].is_safe {
                set_flag(&mut cfg, i, true);
            }
            proof {
                assert forall|x: int| 0 <= x < ADAPTER_COUNT implies #[trigger] flag(cfg, x) == (if x
                    == i {
                    adapter_entries()[x].2 || flag(before, x)
                } else {
                    flag(before, x)
                }) by {
                    lemma_flag_with(before, i as int, true, x);
                }
            }
            i += 1;
        }
        assert(flag(cfg, 0) && flag(cfg, 1) && flag(cfg, 2) && flag(cfg, 3));
        assert(flag(cfg, 4) && flag(cfg, 5) && flag(cfg, 6) && !flag(cfg, 7));
        AdapterSelectionState { cfg, cursor: 0 }
    }

    /// The row under the cursor.
    pub fn cursor(&self) -> (r: usize)
        ensures
            r == self.cursor_row(),
    {
        self.cursor
    }

    /// Whether some adapter is selected.
    pub fn any_selected(&self) -> (r: bool)
        ensures
            r == some_enabled(self.cfg),
    {
        let mut i: usize = 0;
        while i < ADAPTER_COUNT
            invariant
                i <= ADAPTER_COUNT,
                forall|x: int| 0 <= x < i ==> !#[trigger] flag(self.cfg, x),
            decreases ADAPTER_COUNT - i,
        {
            if get_flag(&self.cfg, i) {
                return true;
            }
            i += 1;
        }
        false
    }

    fn move_up(&mut self)
        requires
            old(self).wf(),
        ensures
            final(self).wf(),
            final(self).cfg == old(self).cfg,
            final(self).cursor_row() == (if old(self).cursor_row() == 0 {
                ADAPTER_COUNT - 1
            } else {
                old(self).cursor_row() - 1
            }),
    {
        self.cursor = if self.cursor == 0 {
            ADAPTER_COUNT - 1
        } else {
            self.cursor - 1
        };
    }

    fn move_down(&mut self)
        requires
            old(self).wf(),
        ensures
            final(self).wf(),
            final(self).cfg == old(self).cfg,
            final(self).cursor_row() == (if old(self).cursor_row() + 1 >= ADAPTER_COUNT {
                0
            } else {
                old(self).cursor_row() + 1
            }),
    {
        self.cursor = if self.cursor + 1 >= ADAPTER_COUNT {
            0
        } else {
            self.cursor + 1
        };
    }

    fn toggle(&mut self)
        requires
            old(self).wf(),
        ensures
            final(self).wf(),
            final(self).cursor_row() == old(self).cursor_row(),
            final(self).cfg == with_flag(
                old(self).cfg,
                old(self).cursor_row(),
                !flag(old(self).cfg, old(self).cursor_row()),
            ),
    {
        let cur = get_flag(&self.cfg, self.cursor);
        set_flag(&mut self.cfg, self.cursor, !cur);
    }
}

/// `b` is `a` after key `k`, and `r` is what follows.
pub open spec fn adapter_key_effect(
    a: AdapterSelectionState,
    b: AdapterSelectionState,
    k: KeyInput,
    r: AdapterSelectionResult,
) -> bool {
    let c = a.cursor_row();
    if k.code == KeyCode::Char('q') || k.code == KeyCode::Esc {
        b == a && r == AdapterSelectionResult::Quit
    } else if k.code == KeyCode::Enter {
        b == a && r == (if some_enabled(a.cfg) {
            AdapterSelectionResult::Confirm
        } else {
            AdapterSelectionResult::Continue
        })
    } else if k.code == KeyCode::Up || k.code == KeyCode::Char('k') {
        r == AdapterSelectionResult::Continue && b.cfg == a.cfg && b.cursor_row() == (if c == 0 {
            ADAPTER_COUNT - 1
        } else {
            c - 1
        })
    } else if k.code == KeyCode::Down || k.code == KeyCode::Char('j') {
        r == AdapterSelectionResult::Continue && b.cfg == a.cfg && b.cursor_row() == (if c + 1
            >= ADAPTER_COUNT {
            0
        } else {
            c + 1
        })
    } else if k.code == KeyCode::Char(' ') {
        r == AdapterSelectionResult::Continue && b.cursor_row() == c && b.cfg == with_flag(
            a.cfg,
            c,
            !flag(a.cfg, c),
        )
    } else {
        b == a && r == AdapterSelectionResult::Continue
    }
}

/// Handles key `k` on the adapter list: moves the cursor, toggles an
/// adapter, starts the scan (where some adapter is selected) or quits.
pub fn handle_adapter_selection_key(state: &mut AdapterSelectionState, key: KeyInput) -> (r:
    AdapterSelectionResult)
    requires
        old(state).wf(),
    ensures
        final(state).wf(),
        adapter_key_effect(*old(state), *final(state), key, r),
{
    if key.code == KeyCode::Char('q') || key.code == KeyCode::Esc {
        AdapterSelectionResult::Quit
    } else if key.code == KeyCode::Enter {
        if state.any_selected() {
            AdapterSelectionResult::Confirm
        } else {
            AdapterSelectionResult::Continue
        }
    } else if key.code == KeyCode::Up || key.code == KeyCode::Char('k') {
        state.move_up();
        AdapterSelectionResult::Continue
    } else if key.code == KeyCode::Down || key.code == KeyCode::Char('j') {
        state.move_down();
        AdapterSelectionResult::Continue
    } else if key.code == KeyCode::Char(' ') {
        state.toggle();
        AdapterSelectionResult::Continue
    } else {
        AdapterSelectionResult::Continue
    }
}

} // verus!
