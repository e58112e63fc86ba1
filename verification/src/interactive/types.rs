//! The enums of the target list, and the key binding table.

use vstd::prelude::*;

verus! {

/// The column by which the target list is sorted.
#[derive(Clone, Copy, Debug, PartialEq, Eq, Structural)]
pub enum SortColumn {
    Adapter,
    Path,
    Size,
    Description,
}

/// The direction of the sort.
#[derive(Clone, Copy, Debug, PartialEq, Eq, Structural)]
pub enum SortDir {
    Asc,
    Desc,
}

impl SortDir {
    /// The other direction.
    pub fn toggle(self) -> (r: Self)
        ensures
            r == (if self == SortDir::Asc {
                SortDir::Desc
            } else {
                SortDir::Asc
            }),
    {
        match self {
            SortDir::Asc => SortDir::Desc,
            SortDir::Desc => SortDir::Asc,
        }
    }

    /// The arrow shown beside the sorted column's title.
    pub fn indicator(self) -> (r: &'static str)
        ensures
            r@ == (if self == SortDir::Asc {
                " ↑"@
            } else {
                " ↓"@
            }),
    {
        match self {
            SortDir::Asc => " ↑",
            SortDir::Desc => " ↓",
        }
    }
}

/// The input mode of the target list.
#[derive(Clone, Copy, Debug, PartialEq, Eq, Structural)]
pub enum Mode {
    Normal,
    Visual,
    Search,
    Help,
    Detail,
}

/// What a key binding does.
#[derive(Clone, Copy, Debug, PartialEq, Eq, Structural)]
pub enum Action {
    MoveUp,
    MoveDown,
    MoveTop,
    MoveBottom,
    MovePageUp,
    MovePageDown,
    MoveHalfPageUp,
    MoveHalfPageDown,
    Toggle,
    SelectAll,
    SelectNone,
    SortByAdapter,
    SortByPath,
    SortBySize,
    SortByDescription,
    EnterVisual,
    OpenDetail,
    OpenSearch,
    OpenHelp,
    Confirm,
    Quit,
}

/// What the event loop does after a key.
#[derive(Clone, Copy, Debug, PartialEq, Eq, Structural)]
pub enum ActionResult {
    Continue,
    Confirm,
    Quit,
}

/// A key, as the interactive lists read it.
#[derive(Clone, Copy, Debug, PartialEq, Eq, Structural)]
pub enum KeyCode {
    Char(char),
    Up,
    Down,
    PageUp,
    PageDown,
    Home,
    End,
    Enter,
    Esc,
    Backspace,
    /// Any other key.
    Other,
}

/// A key press: the key, and whether Control was held.
#[derive(Clone, Copy, Debug, PartialEq, Eq, Structural)]
pub struct KeyInput {
    pub code: KeyCode,
    pub ctrl: bool,
}

/// A mouse event, as the target list reads it.
#[derive(Clone, Copy, Debug, PartialEq, Eq, Structural)]
pub enum MouseKind {
    /// The left button went down.
    LeftDown,
    /// Any other mouse event.
    Other,
}

/// One entry of the key binding table.
#[derive(Clone, Copy, Debug)]
pub struct KeyBinding {
    pub key: &'static str,
    pub desc: &'static str,
    pub action: Action,
}

/// The key binding table: keys, descriptions and actions, in display order.
pub open spec fn binding_table() -> Seq<(Seq<char>, Seq<char>, Action)> {
    seq![
        ("↑ / k"@, "Move cursor up"@, Action::MoveUp),
        ("↓ / j"@, "Move cursor down"@, Action::MoveDown),
        ("PgUp"@, "Page up"@, Action::MovePageUp),
        ("PgDn"@, "Page down"@, Action::MovePageDown),
        ("Ctrl+u"@, "Half page up"@, Action::MoveHalfPageUp),
        ("Ctrl+d"@, "Half page down"@, Action::MoveHalfPageDown),
        ("g / Home"@, "Jump to top"@, Action::MoveTop),
        ("G / End"@, "Jump to bottom"@, Action::MoveBottom),
        ("Space"@, "Toggle item selection"@, Action::Toggle),
        ("a"@, "Select all items"@, Action::SelectAll),
        ("n"@, "Deselect all items"@, Action::SelectNone),
        ("v"@, "Enter visual selection mode"@, Action::EnterVisual),
        ("e"@, "Show full details of cursor row"@, Action::OpenDetail),
        ("1"@, "Sort by Adapter"@, Action::SortByAdapter),
        ("2"@, "Sort by Path"@, Action::SortByPath),
        ("3"@, "Sort by Size"@, Action::SortBySize),
        ("4"@, "Sort by Description"@, Action::SortByDescription),
        ("/"@, "Filter items"@, Action::OpenSearch),
        ("?"@, "Toggle this help screen"@, Action::OpenHelp),
        ("Enter"@, "Confirm and delete"@, Action::Confirm),
        ("q / Esc"@, "Quit without deleting"@, Action::Quit)
    ]
}

/// The key binding table.
pub fn keybindings() -> (r: Vec<KeyBinding>)
    ensures
        r.len() == binding_table().len(),
        forall|i: int|
            0 <= i < r.len() ==> (#[trigger] r@[i]).key@ == binding_table()[i].0 && r@[i].desc@
                == binding_table()[i].1 && r@[i].action == binding_table()[i].2,
{
    let mut v: Vec<KeyBinding> = Vec::new();
    v.push(KeyBinding { key: "↑ / k", desc: "Move cursor up", action: Action::MoveUp });
    v.push(KeyBinding { key: "↓ / j", desc: "Move cursor down", action: Action::MoveDown });
    v.push(KeyBinding { key: "PgUp", desc: "Page up", action: Action::MovePageUp });
    v.push(KeyBinding { key: "PgDn", desc: "Page down", action: Action::MovePageDown });
    v.push(KeyBinding { key: "Ctrl+u", desc: "Half page up", action: Action::MoveHalfPageUp });
    v.push(KeyBinding { key: "Ctrl+d", desc: "Half page down", action: Action::MoveHalfPageDown });
    v.push(KeyBinding { key: "g / Home", desc: "Jump to top", action: Action::MoveTop });
    v.push(KeyBinding { key: "G / End", desc: "Jump to bottom", action: Action::MoveBottom });
    v.push(KeyBinding { key: "Space", desc: "Toggle item selection", action: Action::Toggle });
    v.push(KeyBinding { key: "a", desc: "Select all items", action: Action::SelectAll });
    v.push(KeyBinding { key: "n", desc: "Deselect all items", action: Action::SelectNone });
    v.push(KeyBinding { key: "v", desc: "Enter visual selection mode", action: Action::EnterVisual });
    v.push(KeyBinding { key: "e", desc: "Show full details of cursor row", action: Action::OpenDetail });
    v.push(KeyBinding { key: "1", desc: "Sort by Adapter", action: Action::SortByAdapter });
    v.push(KeyBinding { key: "2", desc: "Sort by Path", action: Action::SortByPath });
    v.push(KeyBinding { key: "3", desc: "Sort by Size", action: Action::SortBySize });
    v.push(KeyBinding { key: "4", desc: "Sort by Description", action: Action::SortByDescription });
    v.push(KeyBinding { key: "/", desc: "Filter items", action: Action::OpenSearch });
    v.push(KeyBinding { key: "?", desc: "Toggle this help screen", action: Action::OpenHelp });
    v.push(KeyBinding { key: "Enter", desc: "Confirm and delete", action: Action::Confirm });
    v.push(KeyBinding { key: "q / Esc", desc: "Quit without deleting", action: Action::Quit });
    v
}

} // verus!
