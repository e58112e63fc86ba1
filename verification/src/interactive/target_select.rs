//! The target list of the interactive workflow: cursor, selection, visual
//! ranges, sorting, filtering and the key bindings that drive them.

use vstd::prelude::*;

use crate::adapter::{lemma_sum_mono, sum_sizes, views, CleanTarget};
use crate::interactive::types::{
    binding_table, keybindings, Action, ActionResult, KeyCode, KeyInput, Mode, MouseKind,
    SortColumn, SortDir,
};
use crate::layout::{layout_split, split_area, starts, starts_of, Area, Axis, ColumnWidth};
use crate::order::{ranked, sorted_positions};
use crate::path::{path_key, path_key_of, relative_of, relative_to, text_key, text_key_of};
use crate::text::{
    chars_of, contains_chars, contains_seq, lowercase, lowercase_chars, pop_char, push_char, string_of,
};

verus! {

/// The state of the target list.
pub struct App {
    /// The targets found, in the order of the scan.
    pub targets: Vec<CleanTarget>,
    /// The scan root; paths are shown relative to it.
    pub root: String,
    /// Whether each target (by its index in `targets`) is selected.
    pub selected: Vec<bool>,
    /// All target indices, in the current sort order.
    pub sorted_order: Vec<usize>,
    /// The target indices shown (those of `sorted_order` that pass the filter).
    pub order: Vec<usize>,
    /// The row under the cursor, if any row is shown.
    pub cursor: Option<usize>,
    /// The row where the visual selection started.
    pub visual_anchor: usize,
    pub sort_col: SortColumn,
    pub sort_dir: SortDir,
    /// The number of rows a page holds (set by the renderer).
    pub page_size: usize,
    /// Where the table was last drawn (set by the renderer).
    pub table_area: Area,
    pub mode: Mode,
    /// The filter typed by the user.
    pub filter_query: String,
    /// The row under the cursor in the help overlay, if any.
    pub help_cursor: Option<usize>,
    /// The filter of the help overlay.
    pub help_filter: String,
    /// The key binding indices shown in the help overlay.
    pub help_order: Vec<usize>,
    /// Whether the help overlay takes filter input.
    pub help_searching: bool,
}

/// The row under the cursor, 0 where there is none.
pub open spec fn cur(a: App) -> int {
    match a.cursor {
        Some(c) => c as int,
        None => 0,
    }
}

/// `s` holds each index `0..n` and nothing else.
pub open spec fn covers(s: Seq<usize>, n: int) -> bool {
    &&& s.len() == n
    &&& forall|i: int| 0 <= i < s.len() ==> #[trigger] s[i] < n
    &&& forall|x: usize| x < n ==> s.contains(x)
}

/// `a` and `b` list the same targets under the same root.
pub open spec fn same_data(a: App, b: App) -> bool {
    a.targets@ == b.targets@ && a.root@ == b.root@
}

/// `a` and `b` select the same targets.
pub open spec fn same_sel(a: App, b: App) -> bool {
    a.selected@ == b.selected@
}

/// `a` and `b` sort and show the rows alike.
pub open spec fn same_orders(a: App, b: App) -> bool {
    a.sorted_order@ == b.sorted_order@ && a.order@ == b.order@
}

/// `a` and `b` sort by the same column in the same direction.
pub open spec fn same_sort(a: App, b: App) -> bool {
    a.sort_col == b.sort_col && a.sort_dir == b.sort_dir
}

/// `a` and `b` have the same page size and table area.
pub open spec fn same_layout(a: App, b: App) -> bool {
    a.page_size == b.page_size && a.table_area == b.table_area
}

/// `a` and `b` have the same filter.
pub open spec fn same_query(a: App, b: App) -> bool {
    a.filter_query@ == b.filter_query@
}

/// `a` and `b` have the same help overlay.
pub open spec fn same_help(a: App, b: App) -> bool {
    &&& a.help_cursor == b.help_cursor
    &&& a.help_filter@ == b.help_filter@
    &&& a.help_order@ == b.help_order@
    &&& a.help_searching == b.help_searching
}

/// `b` is `a` with only the cursor row changed, to `c`.
pub open spec fn cursor_moved(a: App, b: App, c: Option<usize>) -> bool {
    &&& same_data(a, b) && same_sel(a, b) && same_orders(a, b) && same_sort(a, b)
    &&& same_layout(a, b) && same_query(a, b) && same_help(a, b)
    &&& b.visual_anchor == a.visual_anchor && b.mode == a.mode
    &&& b.cursor == c
}

/// `b` is `a` with only the selection changed, to `sel`.
pub open spec fn selection_changed(a: App, b: App, sel: Seq<bool>) -> bool {
    &&& same_data(a, b) && same_orders(a, b) && same_sort(a, b)
    &&& same_layout(a, b) && same_query(a, b) && same_help(a, b)
    &&& b.visual_anchor == a.visual_anchor && b.mode == a.mode && b.cursor == a.cursor
    &&& b.selected@ == sel
}

/// The cursor after moving up one row (wrapping to the bottom).
pub open spec fn up_cursor(a: App) -> Option<usize> {
    let len = a.order.len();
    if len == 0 {
        a.cursor
    } else if cur(a) == 0 {
        Some((len - 1) as usize)
    } else {
        Some((cur(a) - 1) as usize)
    }
}

/// The cursor after moving down one row (wrapping to the top).
pub open spec fn down_cursor(a: App) -> Option<usize> {
    let len = a.order.len();
    if len == 0 {
        a.cursor
    } else if cur(a) + 1 >= len {
        Some(0)
    } else {
        Some((cur(a) + 1) as usize)
    }
}

/// The cursor after moving up by `n` rows (stopping at the top).
pub open spec fn back_cursor(a: App, n: int) -> Option<usize> {
    if a.order.len() == 0 {
        a.cursor
    } else if cur(a) >= n {
        Some((cur(a) - n) as usize)
    } else {
        Some(0)
    }
}

/// The cursor after moving down by `n` rows (stopping at the bottom).
pub open spec fn forward_cursor(a: App, n: int) -> Option<usize> {
    let len = a.order.len();
    if len == 0 {
        a.cursor
    } else if cur(a) + n <= len - 1 {
        Some((cur(a) + n) as usize)
    } else {
        Some((len - 1) as usize)
    }
}

/// The smaller of `a` and `b`.
pub open spec fn min_int(a: int, b: int) -> int {
    if a <= b {
        a
    } else {
        b
    }
}

/// The larger of `a` and `b`.
pub open spec fn max_int(a: int, b: int) -> int {
    if a >= b {
        a
    } else {
        b
    }
}

/// The rows of the visual range: from the anchor to the cursor, within the
/// shown rows.
pub open spec fn visual_bounds(a: App) -> (int, int) {
    let len = a.order.len() as int;
    (
        min_int(a.visual_anchor as int, cur(a)),
        min_int(max_int(a.visual_anchor as int, cur(a)), if len > 0 { len - 1 } else { 0 }),
    )
}

/// The selection after setting every target shown in rows `lo..=hi` to `v`.
pub open spec fn set_rows(sel: Seq<bool>, order: Seq<usize>, lo: int, hi: int, v: bool) -> Seq<bool> {
    Seq::new(
        sel.len(),
        |i: int|
            if exists|d: int| lo <= d <= hi && 0 <= d < order.len() && order[d] == i {
                v
            } else {
                sel[i]
            },
    )
}

/// The sum of the sizes of the selected targets among the first `n`.
pub open spec fn sum_selected(ts: Seq<CleanTarget>, sel: Seq<bool>, n: int) -> int
    decreases n,
{
    if n <= 0 {
        0
    } else {
        sum_selected(ts, sel, n - 1) + if sel[n - 1] {
            ts[n - 1].size as int
        } else {
            0
        }
    }
}

/// The number of `true` among the first `n` flags.
pub open spec fn count_true(sel: Seq<bool>, n: int) -> int
    decreases n,
{
    if n <= 0 {
        0
    } else {
        count_true(sel, n - 1) + if sel[n - 1] {
            1int
        } else {
            0
        }
    }
}

/// Every flag of the selection set to `v`.
pub open spec fn all_set(n: nat, v: bool) -> Seq<bool> {
    Seq::new(n, |i: int| v)
}

proof fn lemma_all_set_counts(ts: Seq<CleanTarget>, v: bool, n: int)
    requires
        0 <= n <= ts.len(),
    ensures
        count_true(all_set(ts.len(), v), n) == (if v {
            n
        } else {
            0
        }),
        sum_selected(ts, all_set(ts.len(), v), n) == (if v {
            sum_sizes(ts, n)
        } else {
            0
        }),
    decreases n,
{
    if n > 0 {
        lemma_all_set_counts(ts, v, n - 1);
    }
}

/// With every target selected, the selected count is the number of targets
/// and the selected size is the total size; with none selected, both are 0.
pub proof fn law_select_all_none(ts: Seq<CleanTarget>)
    ensures
        count_true(all_set(ts.len(), true), ts.len() as int) == ts.len(),
        sum_selected(ts, all_set(ts.len(), true), ts.len() as int) == sum_sizes(ts, ts.len() as int),
        count_true(all_set(ts.len(), false), ts.len() as int) == 0,
        sum_selected(ts, all_set(ts.len(), false), ts.len() as int) == 0,
{
    lemma_all_set_counts(ts, true, ts.len() as int);
    lemma_all_set_counts(ts, false, ts.len() as int);
}

/// Toggling twice gives back the selection: where `b` is `a` after one
/// toggle, toggling `b` restores the selection of `a`.
pub proof fn law_toggle_twice(a: App, b: App)
    requires
        a.wf(),
        selection_changed(a, b, toggled_sel(a)),
    ensures
        toggled_sel(b) == a.selected@,
{
    assert(toggled_sel(b) =~= a.selected@);
}

/// Moving down then up (or up then down) puts the cursor back on its row,
/// the ends wrapping around.
pub proof fn law_down_up(a: App, b: App, c: App)
    requires
        a.wf(),
        a.cursor is Some,
        cursor_moved(a, b, down_cursor(a)),
        cursor_moved(a, c, up_cursor(a)),
    ensures
        up_cursor(b) == a.cursor,
        down_cursor(c) == a.cursor,
{
}

/// Sorting twice by the same column sorts in the two directions in turn:
/// the second sort runs opposite to the first, and sorting again by the
/// column already sorted on gives back its direction after two sorts.
pub proof fn law_sort_twice(a: App, b: App, col: SortColumn)
    requires
        resort_done(a, b, col, next_dir(a, col)),
    ensures
        next_dir(b, col) != next_dir(a, col),
        a.sort_col == col ==> next_dir(b, col) == a.sort_dir,
{
}

/// The rows shown are exactly the targets of the sort order that pass the
/// filter.
pub proof fn law_filter_rows(ts: Seq<CleanTarget>, root: Seq<char>, q: Seq<char>, sorted: Seq<usize>, x: usize)
    requires
        forall|i: int| 0 <= i < sorted.len() ==> #[trigger] sorted[i] < ts.len(),
    ensures
        shown_rows(ts, root, q, sorted).contains(x) <==> (sorted.contains(x) && target_matches(
            ts[x as int],
            root,
            q,
        )),
{
    let pred = |i: usize| target_matches(ts[i as int], root, q);
    if shown_rows(ts, root, q, sorted).contains(x) {
        sorted.lemma_filter_contains_rev(pred, x);
        let k = choose|k: int| 0 <= k < sorted.filter(pred).len() && sorted.filter(pred)[k] == x;
        sorted.lemma_filter_pred(pred, k);
    }
    if sorted.contains(x) && target_matches(ts[x as int], root, q) {
        let k = choose|k: int| 0 <= k < sorted.len() && sorted[k] == x;
        sorted.lemma_filter_contains(pred, k);
    }
}

/// The selected targets among the first `n`, in order.
pub open spec fn chosen(ts: Seq<CleanTarget>, sel: Seq<bool>, n: int) -> Seq<
    (Seq<char>, Seq<char>, Seq<char>, u64),
>
    decreases n,
{
    if n <= 0 {
        Seq::empty()
    } else if sel[n - 1] {
        chosen(ts, sel, n - 1).push(ts[n - 1]@)
    } else {
        chosen(ts, sel, n - 1)
    }
}


/// `m`, with the visual mode left for the normal one.
pub open spec fn normal_of(m: Mode) -> Mode {
    if m == Mode::Visual {
        Mode::Normal
    } else {
        m
    }
}

/// The row of cursor `c`, 0 where there is none.
pub open spec fn cur_of(c: Option<usize>) -> int {
    match c {
        Some(x) => x as int,
        None => 0,
    }
}

/// `b` holds the cursor `c` and the anchor `anchor`, brought within its
/// shown rows (no cursor where no row is shown).
pub open spec fn clamped_pos(c: Option<usize>, anchor: usize, b: App) -> bool {
    let len = b.order.len() as int;
    &&& len == 0 ==> b.cursor is None && b.visual_anchor == anchor
    &&& len > 0 ==> b.cursor == Some(min_int(cur_of(c), len - 1) as usize) && b.visual_anchor
        == min_int(anchor as int, len - 1) as usize
}

/// The mode once `len` rows are shown: the visual mode ends where none is.
pub open spec fn clamp_mode(m: Mode, len: int) -> Mode {
    if len == 0 {
        normal_of(m)
    } else {
        m
    }
}

/// The key by which target `t` sorts in column `col`.
pub open spec fn sort_key(t: CleanTarget, root: Seq<char>, col: SortColumn) -> Seq<u64> {
    match col {
        SortColumn::Adapter => text_key(t.adapter@),
        SortColumn::Path => path_key(relative_to(t.path@, root)),
        SortColumn::Size => seq![t.size],
        SortColumn::Description => text_key(t.description@),
    }
}

/// The keys of the targets listed (by index) in `s`, in the order of `s`.
pub open spec fn order_keys(ts: Seq<CleanTarget>, root: Seq<char>, col: SortColumn, s: Seq<usize>) -> Seq<
    Seq<u64>,
> {
    Seq::new(s.len(), |k: int| sort_key(ts[s[k] as int], root, col))
}

/// `next` is `prev` sorted stably by the key of column `col` (descending
/// when `desc`): targets with equal keys keep their order in `prev`.
pub open spec fn resorted(
    ts: Seq<CleanTarget>,
    root: Seq<char>,
    col: SortColumn,
    desc: bool,
    prev: Seq<usize>,
    next: Seq<usize>,
) -> bool {
    exists|perm: Seq<usize>|
        #[trigger] ranked(order_keys(ts, root, col, prev), desc, perm) && covers(
            perm,
            prev.len() as int,
        ) && next == perm.map_values(|k: usize| prev[k as int])
}

/// Whether target `t` passes the (lowercased) filter `q`: its adapter, its
/// path relative to `root` or its description contains `q`, ignoring case.
pub open spec fn target_matches(t: CleanTarget, root: Seq<char>, q: Seq<char>) -> bool {
    ||| contains_seq(lowercase(t.adapter@), q)
    ||| contains_seq(lowercase(relative_to(t.path@, root)), q)
    ||| contains_seq(lowercase(t.description@), q)
}

/// The targets of `sorted` that pass the filter `q`, in the order of `sorted`.
pub open spec fn shown_rows(ts: Seq<CleanTarget>, root: Seq<char>, q: Seq<char>, sorted: Seq<usize>) -> Seq<
    usize,
> {
    sorted.filter(|i: usize| target_matches(ts[i as int], root, q))
}

/// `b` is `a` sorted anew by column `col` in direction `dir`, filtered, and
/// with its cursor brought within the rows.
pub open spec fn resort_done(a: App, b: App, col: SortColumn, dir: SortDir) -> bool {
    &&& same_data(a, b) && same_sel(a, b) && same_layout(a, b) && same_query(a, b)
    &&& same_help(a, b)
    &&& b.sort_col == col && b.sort_dir == dir
    &&& resorted(a.targets@, a.root@, col, dir == SortDir::Desc, a.sorted_order@, b.sorted_order@)
    &&& b.order@ == shown_rows(a.targets@, a.root@, lowercase(a.filter_query@), b.sorted_order@)
    &&& (a.filter_query@.len() == 0 ==> b.order@ == b.sorted_order@)
    &&& clamped_pos(a.cursor, a.visual_anchor, b)
    &&& b.mode == clamp_mode(normal_of(a.mode), b.order.len() as int)
}

/// The direction after a click or key on column `col`: the other one on the
/// sorted column, ascending on another.
pub open spec fn next_dir(a: App, col: SortColumn) -> SortDir {
    if a.sort_col == col {
        if a.sort_dir == SortDir::Asc {
            SortDir::Desc
        } else {
            SortDir::Asc
        }
    } else {
        SortDir::Asc
    }
}

proof fn lemma_shown_push(ts: Seq<CleanTarget>, root: Seq<char>, q: Seq<char>, s: Seq<usize>, i: usize)
    ensures
        shown_rows(ts, root, q, s.push(i)) == (if target_matches(ts[i as int], root, q) {
            shown_rows(ts, root, q, s).push(i)
        } else {
            shown_rows(ts, root, q, s)
        }),
{
    s.lemma_filter_push(i, |j: usize| target_matches(ts[j as int], root, q));
}

proof fn lemma_contains_empty(hay: Seq<char>, q: Seq<char>)
    requires
        q.len() == 0,
    ensures
        contains_seq(hay, q),
{
    assert(hay.subrange(0, 0 + q.len() as int) =~= q);
}

/// Whether target `t` passes the lowercased filter `q` (see [`target_matches`]).
fn target_matches_of(t: &CleanTarget, root: &[char], q: &[char]) -> (r: bool)
    ensures
        r == target_matches(*t, root@, q@),
{
    let a = lowercase_chars(t.adapter);
    if contains_chars(a.as_slice(), q) {
        return true;
    }
    let p = chars_of(t.path.as_str());
    let rel = relative_of(p.as_slice(), root);
    let rs = string_of(rel.as_slice());
    let rl = lowercase_chars(rs.as_str());
    if contains_chars(rl.as_slice(), q) {
        return true;
    }
    let d = lowercase_chars(t.description.as_str());
    contains_chars(d.as_slice(), q)
}

/// The sort key of target `t` for column `col` (see [`sort_key`]).
fn key_of(t: &CleanTarget, root: &[char], col: SortColumn) -> (r: Vec<u64>)
    ensures
        r@ == sort_key(*t, root@, col),
{
    match col {
        SortColumn::Adapter => {
            let a = chars_of(t.adapter);
            text_key_of(a.as_slice())
        },
        SortColumn::Path => {
            let p = chars_of(t.path.as_str());
            let rel = relative_of(p.as_slice(), root);
            path_key_of(rel.as_slice())
        },
        SortColumn::Size => {
            let mut v: Vec<u64> = Vec::new();
            v.push(t.size);
            assert(v@ =~= seq![t.size]);
            v
        },
        SortColumn::Description => {
            let d = chars_of(t.description.as_str());
            text_key_of(d.as_slice())
        },
    }
}


/// The indices of all key bindings, in table order.
pub open spec fn all_bindings() -> Seq<usize> {
    Seq::new(binding_table().len(), |i: int| i as usize)
}

/// Whether key binding `i` passes the (lowercased) help filter `q`: its key
/// or its description contains `q`, ignoring case.
pub open spec fn binding_matches(i: int, q: Seq<char>) -> bool {
    contains_seq(lowercase(binding_table()[i].0), q) || contains_seq(
        lowercase(binding_table()[i].1),
        q,
    )
}

/// The key bindings shown under the help filter `q`, in table order.
pub open spec fn help_rows(q: Seq<char>) -> Seq<usize> {
    all_bindings().filter(|i: usize| binding_matches(i as int, q))
}

/// The row under the help cursor, 0 where there is none.
pub open spec fn help_cur(a: App) -> int {
    cur_of(a.help_cursor)
}

/// Everything of `a` and `b` but the help overlay agrees.
pub open spec fn same_list(a: App, b: App) -> bool {
    &&& same_data(a, b) && same_sel(a, b) && same_orders(a, b) && same_sort(a, b)
    &&& same_layout(a, b) && same_query(a, b)
    &&& b.cursor == a.cursor && b.visual_anchor == a.visual_anchor && b.mode == a.mode
}

/// `b` is `a` with the help filter set to `q`, the help rows filtered by it,
/// the help cursor brought within them and the help search on when
/// `searching`; the list is unchanged (its mode aside).
pub open spec fn help_query_set(a: App, b: App, q: Seq<char>, searching: bool) -> bool {
    &&& same_data(a, b) && same_sel(a, b) && same_orders(a, b) && same_sort(a, b)
    &&& same_layout(a, b) && same_query(a, b)
    &&& b.cursor == a.cursor && b.visual_anchor == a.visual_anchor
    &&& b.help_searching == searching
    &&& b.help_filter@ == q
    &&& b.help_order@ == help_rows(lowercase(q))
    &&& (q.len() == 0 ==> b.help_order@ == all_bindings())
    &&& b.help_cursor == (if b.help_order.len() == 0 {
        None
    } else {
        Some(min_int(help_cur(a), b.help_order.len() - 1) as usize)
    })
}

/// `b` is `a` with the help rows filtered anew by the help filter `q`.
pub open spec fn help_refiltered(a: App, b: App, q: Seq<char>) -> bool {
    help_query_set(a, b, q, a.help_searching) && b.mode == a.mode
}

/// `b` is `a` with only the help cursor changed, to `c`.
pub open spec fn help_cursor_moved(a: App, b: App, c: Option<usize>) -> bool {
    &&& same_list(a, b)
    &&& b.help_filter@ == a.help_filter@ && b.help_order@ == a.help_order@
    &&& b.help_searching == a.help_searching
    &&& b.help_cursor == c
}

/// The help cursor after moving up one row (wrapping to the bottom).
pub open spec fn help_up(a: App) -> Option<usize> {
    let len = a.help_order.len();
    if len == 0 {
        a.help_cursor
    } else if help_cur(a) == 0 {
        Some((len - 1) as usize)
    } else {
        Some((help_cur(a) - 1) as usize)
    }
}

/// The help cursor after moving down one row (wrapping to the top).
pub open spec fn help_down(a: App) -> Option<usize> {
    let len = a.help_order.len();
    if len == 0 {
        a.help_cursor
    } else if help_cur(a) + 1 >= len {
        Some(0)
    } else {
        Some((help_cur(a) + 1) as usize)
    }
}

proof fn lemma_help_push(q: Seq<char>, s: Seq<usize>, i: usize)
    ensures
        s.push(i).filter(|j: usize| binding_matches(j as int, q)) == (if binding_matches(
            i as int,
            q,
        ) {
            s.filter(|j: usize| binding_matches(j as int, q)).push(i)
        } else {
            s.filter(|j: usize| binding_matches(j as int, q))
        }),
{
    s.lemma_filter_push(i, |j: usize| binding_matches(j as int, q));
}


/// The selection after flipping the target under the cursor.
pub open spec fn toggled_sel(a: App) -> Seq<bool> {
    if cur(a) < a.order.len() {
        a.selected@.update(a.order@[cur(a)] as int, !a.selected@[a.order@[cur(a)] as int])
    } else {
        a.selected@
    }
}

/// `b` is `a` with a visual range started at the cursor (where a row is
/// shown).
pub open spec fn visual_entered(a: App, b: App) -> bool {
    &&& same_data(a, b) && same_sel(a, b) && same_orders(a, b) && same_sort(a, b)
    &&& same_layout(a, b) && same_query(a, b) && same_help(a, b)
    &&& b.cursor == a.cursor
    &&& a.order.len() == 0 ==> b.visual_anchor == a.visual_anchor && b.mode == a.mode
    &&& a.order.len() > 0 ==> b.visual_anchor == cur(a) && b.mode == Mode::Visual
}

/// `b` is `a` with every target shown in the visual range set to `target`,
/// and the visual mode ended.
pub open spec fn visual_applied(a: App, b: App, target: bool) -> bool {
    &&& same_data(a, b) && same_orders(a, b) && same_sort(a, b) && same_layout(a, b)
    &&& same_query(a, b) && same_help(a, b)
    &&& b.cursor == a.cursor && b.visual_anchor == a.visual_anchor
    &&& b.mode == Mode::Normal
    &&& b.selected@ == set_rows(
        a.selected@,
        a.order@,
        visual_bounds(a).0,
        visual_bounds(a).1,
        target,
    )
}

/// What a visual toggle sets the range to: the opposite of the anchor row's
/// selection, or selected where the anchor row is not shown.
pub open spec fn toggle_target(a: App) -> bool {
    if a.visual_anchor < a.order.len() {
        !a.selected@[a.order@[a.visual_anchor as int] as int]
    } else {
        true
    }
}

/// `b` is `a` with only the mode changed, to `m`.
pub open spec fn mode_set(a: App, b: App, m: Mode) -> bool {
    &&& same_data(a, b) && same_sel(a, b) && same_orders(a, b) && same_sort(a, b)
    &&& same_layout(a, b) && same_query(a, b) && same_help(a, b)
    &&& b.cursor == a.cursor && b.visual_anchor == a.visual_anchor
    &&& b.mode == m
}

/// What the event loop does after `act`.
pub open spec fn action_result(act: Action) -> ActionResult {
    match act {
        Action::Confirm => ActionResult::Confirm,
        Action::Quit => ActionResult::Quit,
        _ => ActionResult::Continue,
    }
}

/// `b` is `a` after the action `act`.
pub open spec fn action_effect(a: App, b: App, act: Action) -> bool {
    let len = a.order.len();
    match act {
        Action::MoveUp => cursor_moved(a, b, up_cursor(a)),
        Action::MoveDown => cursor_moved(a, b, down_cursor(a)),
        Action::MoveTop => cursor_moved(
            a,
            b,
            if len > 0 {
                Some(0)
            } else {
                a.cursor
            },
        ),
        Action::MoveBottom => cursor_moved(
            a,
            b,
            if len > 0 {
                Some((len - 1) as usize)
            } else {
                a.cursor
            },
        ),
        Action::MovePageUp => cursor_moved(a, b, back_cursor(a, a.page_size as int)),
        Action::MovePageDown => cursor_moved(a, b, forward_cursor(a, a.page_size as int)),
        Action::MoveHalfPageUp => cursor_moved(a, b, back_cursor(a, a.page_size as int / 2)),
        Action::MoveHalfPageDown => cursor_moved(a, b, forward_cursor(a, a.page_size as int / 2)),
        Action::Toggle => selection_changed(a, b, toggled_sel(a)),
        Action::SelectAll => selection_changed(a, b, all_set(a.selected@.len(), true)),
        Action::SelectNone => selection_changed(a, b, all_set(a.selected@.len(), false)),
        Action::SortByAdapter => resort_done(
            a,
            b,
            SortColumn::Adapter,
            next_dir(a, SortColumn::Adapter),
        ),
        Action::SortByPath => resort_done(a, b, SortColumn::Path, next_dir(a, SortColumn::Path)),
        Action::SortBySize => resort_done(a, b, SortColumn::Size, next_dir(a, SortColumn::Size)),
        Action::SortByDescription => resort_done(
            a,
            b,
            SortColumn::Description,
            next_dir(a, SortColumn::Description),
        ),
        Action::EnterVisual => visual_entered(a, b),
        Action::OpenDetail => mode_set(
            a,
            b,
            if len > 0 {
                Mode::Detail
            } else {
                a.mode
            },
        ),
        Action::OpenSearch => mode_set(a, b, Mode::Search),
        Action::OpenHelp => mode_set(
            a,
            b,
            if a.mode == Mode::Help {
                Mode::Normal
            } else {
                Mode::Help
            },
        ),
        Action::Confirm => b == a,
        Action::Quit => b == a,
    }
}


/// The movement that key `k` asks for, in the normal and visual modes.
pub open spec fn move_key_action(k: KeyInput) -> Option<Action> {
    match k.code {
        KeyCode::Up => Some(Action::MoveUp),
        KeyCode::Down => Some(Action::MoveDown),
        KeyCode::PageUp => Some(Action::MovePageUp),
        KeyCode::PageDown => Some(Action::MovePageDown),
        KeyCode::Home => Some(Action::MoveTop),
        KeyCode::End => Some(Action::MoveBottom),
        KeyCode::Char(c) => if c == 'k' {
            Some(Action::MoveUp)
        } else if c == 'j' {
            Some(Action::MoveDown)
        } else if c == 'g' {
            Some(Action::MoveTop)
        } else if c == 'G' {
            Some(Action::MoveBottom)
        } else if c == 'u' && k.ctrl {
            Some(Action::MoveHalfPageUp)
        } else if c == 'd' && k.ctrl {
            Some(Action::MoveHalfPageDown)
        } else {
            None
        },
        _ => None,
    }
}

/// The action of a character key other than a movement, in the normal mode.
pub open spec fn normal_char_action(c: char) -> Option<Action> {
    if c == 'q' {
        Some(Action::Quit)
    } else if c == ' ' {
        Some(Action::Toggle)
    } else if c == 'a' {
        Some(Action::SelectAll)
    } else if c == 'n' {
        Some(Action::SelectNone)
    } else if c == '1' {
        Some(Action::SortByAdapter)
    } else if c == '2' {
        Some(Action::SortByPath)
    } else if c == '3' {
        Some(Action::SortBySize)
    } else if c == '4' {
        Some(Action::SortByDescription)
    } else if c == 'v' {
        Some(Action::EnterVisual)
    } else if c == 'e' {
        Some(Action::OpenDetail)
    } else if c == '/' {
        Some(Action::OpenSearch)
    } else if c == '?' {
        Some(Action::OpenHelp)
    } else {
        None
    }
}

/// The action of key `k` in the normal mode, if it has one.
pub open spec fn normal_key_action(k: KeyInput) -> Option<Action> {
    if move_key_action(k) is Some {
        move_key_action(k)
    } else {
        match k.code {
            KeyCode::Esc => Some(Action::Quit),
            KeyCode::Enter => Some(Action::Confirm),
            KeyCode::Char(c) => normal_char_action(c),
            _ => None,
        }
    }
}

/// `b` is `a` after key `k` in the visual mode.
pub open spec fn visual_key_effect(a: App, b: App, k: KeyInput) -> bool {
    if k.code == KeyCode::Esc || k.code == KeyCode::Char('v') {
        mode_set(a, b, Mode::Normal)
    } else if move_key_action(k) is Some {
        action_effect(a, b, move_key_action(k)->0)
    } else if k.code == KeyCode::Char(' ') || k.code == KeyCode::Enter {
        visual_applied(a, b, toggle_target(a))
    } else if k.code == KeyCode::Char('a') {
        visual_applied(a, b, true)
    } else if k.code == KeyCode::Char('n') {
        visual_applied(a, b, false)
    } else {
        b == a
    }
}

/// `s` without its last character, if it has one.
pub open spec fn popped(s: Seq<char>) -> Seq<char> {
    if s.len() == 0 {
        s
    } else {
        s.drop_last()
    }
}

/// `b` is `a` with the filter set to `q`, the rows filtered anew by it and
/// the cursor brought within them (the mode aside).
pub open spec fn query_set(a: App, b: App, q: Seq<char>) -> bool {
    &&& same_data(a, b) && same_sel(a, b) && same_sort(a, b) && same_layout(a, b)
    &&& same_help(a, b)
    &&& b.sorted_order@ == a.sorted_order@
    &&& b.filter_query@ == q
    &&& b.order@ == shown_rows(a.targets@, a.root@, lowercase(q), a.sorted_order@)
    &&& (q.len() == 0 ==> b.order@ == a.sorted_order@)
    &&& clamped_pos(a.cursor, a.visual_anchor, b)
}

/// `b` is `a` after key `k` in the search mode.
pub open spec fn search_key_effect(a: App, b: App, k: KeyInput) -> bool {
    match k.code {
        KeyCode::Esc => query_set(a, b, Seq::empty()) && b.mode == Mode::Normal,
        KeyCode::Enter => mode_set(a, b, Mode::Normal),
        KeyCode::Backspace => query_set(a, b, popped(a.filter_query@)) && b.mode == clamp_mode(
            a.mode,
            b.order.len() as int,
        ),
        KeyCode::Char(c) => query_set(a, b, a.filter_query@.push(c)) && b.mode == clamp_mode(
            a.mode,
            b.order.len() as int,
        ),
        _ => b == a,
    }
}

/// `b` is `a` with only the help search switched to `v`.
pub open spec fn help_searching_set(a: App, b: App, v: bool) -> bool {
    &&& same_list(a, b)
    &&& b.help_filter@ == a.help_filter@ && b.help_order@ == a.help_order@
    &&& b.help_cursor == a.help_cursor
    &&& b.help_searching == v
}

/// The action of the key binding under the help cursor (the first binding
/// where no row is under it).
pub open spec fn help_choice(a: App) -> Action {
    let kb = if help_cur(a) < a.help_order.len() {
        a.help_order@[help_cur(a)] as int
    } else {
        0
    };
    binding_table()[kb].2
}

/// `b` is `a` after key `k` in the help overlay, and `r` is what follows.
pub open spec fn help_key_effect(a: App, b: App, k: KeyInput, r: ActionResult) -> bool {
    if a.help_searching {
        r == ActionResult::Continue && match k.code {
            KeyCode::Esc => help_query_set(a, b, Seq::empty(), false) && b.mode == a.mode,
            KeyCode::Enter => help_searching_set(a, b, false),
            KeyCode::Backspace => help_query_set(a, b, popped(a.help_filter@), true) && b.mode
                == a.mode,
            KeyCode::Char(c) => help_query_set(a, b, a.help_filter@.push(c), true) && b.mode
                == a.mode,
            _ => b == a,
        }
    } else if k.code == KeyCode::Char('q') || k.code == KeyCode::Esc || k.code == KeyCode::Char(
        '?',
    ) {
        r == ActionResult::Continue && help_query_set(a, b, Seq::empty(), false) && b.mode
            == Mode::Normal
    } else if k.code == KeyCode::Char('/') {
        r == ActionResult::Continue && help_searching_set(a, b, true)
    } else if k.code == KeyCode::Up || k.code == KeyCode::Char('k') {
        r == ActionResult::Continue && help_cursor_moved(a, b, help_up(a))
    } else if k.code == KeyCode::Down || k.code == KeyCode::Char('j') {
        r == ActionResult::Continue && help_cursor_moved(a, b, help_down(a))
    } else if k.code == KeyCode::Enter {
        exists|mid: App|
            #[trigger] help_query_set(a, mid, Seq::empty(), false) && mid.mode == Mode::Normal && (
            if help_choice(a) == Action::OpenHelp {
                b == mid && r == ActionResult::Continue
            } else {
                action_effect(mid, b, help_choice(a)) && r == action_result(help_choice(a))
            })
    } else {
        r == ActionResult::Continue && b == a
    }
}

/// The columns of the target table: check box, adapter, path, size,
/// description.
pub open spec fn table_columns() -> Seq<ColumnWidth> {
    seq![
        ColumnWidth::Length(3),
        ColumnWidth::Length(12),
        ColumnWidth::Min(20),
        ColumnWidth::Length(10),
        ColumnWidth::Fill(1)
    ]
}

/// The columns of the target table (see [`table_columns`]).
pub fn table_widths() -> (r: Vec<ColumnWidth>)
    ensures
        r@ == table_columns(),
{
    let mut v: Vec<ColumnWidth> = Vec::new();
    v.push(ColumnWidth::Length(3));
    v.push(ColumnWidth::Length(12));
    v.push(ColumnWidth::Min(20));
    v.push(ColumnWidth::Length(10));
    v.push(ColumnWidth::Fill(1));
    assert(v@ =~= table_columns());
    v
}

/// The sort column under cell `inner_x` of a table row `inner_w` cells wide
/// whose columns start at `starts` (the check box column first).
pub open spec fn column_at(inner_x: u16, inner_w: u16, starts: Seq<u16>) -> Option<SortColumn> {
    if inner_x < starts[1] {
        None
    } else if inner_x < starts[2] {
        Some(SortColumn::Adapter)
    } else if inner_x < starts[3] {
        Some(SortColumn::Path)
    } else if inner_x < starts[4] {
        Some(SortColumn::Size)
    } else if inner_x < inner_w {
        Some(SortColumn::Description)
    } else {
        None
    }
}

/// The sort column whose title lies under terminal column `col`, for a
/// table drawn in `area` (inside its border).
pub open spec fn click_column(col: u16, area: Area) -> Option<SortColumn> {
    let inner_x = if col >= area.x + 1 {
        (col - (area.x + 1)) as u16
    } else {
        0u16
    };
    let inner_w = if area.width >= 2 {
        (area.width - 2) as u16
    } else {
        0u16
    };
    column_at(
        inner_x,
        inner_w,
        starts_of(layout_split(Area { x: 0, y: 0, width: inner_w, height: 1 }, Axis::Horizontal, table_columns())),
    )
}

/// Whether a mouse event sorts the list: a left click on the title row of
/// the table, outside the search and the help search.
pub open spec fn sorting_click(a: App, row: u16, kind: MouseKind) -> bool {
    kind == MouseKind::LeftDown && row == a.table_area.y + 1 && a.mode != Mode::Search
        && !a.help_searching
}


/// `r` is a new list over `targets`, found under `root`: every target
/// selected, sorted by path ascending (stably), no filter, the cursor on the
/// first row, the help overlay unfiltered.
pub open spec fn fresh_app(r: App, targets: Seq<CleanTarget>, root: Seq<char>) -> bool {
    &&& r.targets@ == targets
    &&& r.root@ == root
    &&& r.selected@ == all_set(targets.len(), true)
    &&& r.sort_col == SortColumn::Path
    &&& r.sort_dir == SortDir::Asc
    &&& resorted(
        targets,
        root,
        SortColumn::Path,
        false,
        Seq::new(targets.len(), |i: int| i as usize),
        r.sorted_order@,
    )
    &&& r.order@ == r.sorted_order@
    &&& r.cursor == (if targets.len() > 0 {
        Some(0usize)
    } else {
        None
    })
    &&& r.visual_anchor == 0
    &&& r.page_size == 10
    &&& r.table_area == (Area { x: 0, y: 0, width: 0, height: 0 })
    &&& r.mode == Mode::Normal
    &&& r.filter_query@.len() == 0
    &&& r.help_cursor == Some(0usize)
    &&& r.help_filter@.len() == 0
    &&& r.help_order@ == all_bindings()
    &&& !r.help_searching
}

/// The rows shown for the filter `q` among the sorted rows `sorted`: all of
/// them where the filter is empty, else those that pass it (in the order of
/// `sorted`, so a subsequence of it).
pub open spec fn rows_shown(ts: Seq<CleanTarget>, root: Seq<char>, q: Seq<char>, sorted: Seq<usize>) -> Seq<usize> {
    if q.len() == 0 {
        sorted
    } else {
        shown_rows(ts, root, lowercase(q), sorted)
    }
}

/// The invariant of the target list: the lists agree (see [`App::wf`]), the
/// rows shown are the sorted rows that pass the filter, the cursor is absent
/// exactly when no row is shown, and the visual mode has rows.
pub open spec fn app_inv(a: App) -> bool {
    &&& a.wf()
    &&& a.order@ == rows_shown(a.targets@, a.root@, a.filter_query@, a.sorted_order@)
    &&& (a.cursor is None <==> a.order.len() == 0)
    &&& (a.mode == Mode::Visual ==> a.order.len() > 0)
}

/// A new target list meets the invariant.
pub proof fn law_fresh_app_inv(r: App, targets: Seq<CleanTarget>, root: Seq<char>)
    requires
        r.wf(),
        fresh_app(r, targets, root),
    ensures
        app_inv(r),
{
}

/// Every action keeps the invariant of the target list, and the targets.
pub proof fn law_action_keeps_inv(a: App, b: App, act: Action)
    requires
        app_inv(a),
        b.wf(),
        action_effect(a, b, act),
    ensures
        app_inv(b),
        b.targets@ == a.targets@,
{
}

/// `b` is `a` after key `k` in the normal mode, and `r` is what follows.
pub open spec fn normal_key_effect(a: App, b: App, k: KeyInput, r: ActionResult) -> bool {
    match normal_key_action(k) {
        Some(Action::OpenHelp) => mode_set(a, b, Mode::Help) && r == ActionResult::Continue,
        Some(act) => action_effect(a, b, act) && r == action_result(act),
        None => b == a && r == ActionResult::Continue,
    }
}

/// `b` is `a` after key `k`, handled as the mode of `a` wants, and `r` is
/// what follows.
pub open spec fn target_key_effect(a: App, b: App, k: KeyInput, r: ActionResult) -> bool {
    match a.mode {
        Mode::Normal => normal_key_effect(a, b, k, r),
        Mode::Visual => visual_key_effect(a, b, k) && r == ActionResult::Continue,
        Mode::Search => search_key_effect(a, b, k) && r == ActionResult::Continue,
        Mode::Help => help_key_effect(a, b, k, r),
        Mode::Detail => mode_set(a, b, Mode::Normal) && r == ActionResult::Continue,
    }
}

proof fn lemma_sum_selected_mono(ts: Seq<CleanTarget>, sel: Seq<bool>, m: int, n: int)
    requires
        m <= n,
    ensures
        sum_selected(ts, sel, m) <= sum_selected(ts, sel, n),
    decreases n - m,
{
    if m < n {
        lemma_sum_selected_mono(ts, sel, m, n - 1);
    }
}

proof fn lemma_count_le(sel: Seq<bool>, n: int)
    ensures
        0 <= count_true(sel, n) <= if n > 0 {
            n
        } else {
            0
        },
    decreases n,
{
    if n > 0 {
        lemma_count_le(sel, n - 1);
    }
}

impl App {
    /// The invariant of the lists, whatever the cursor of the target list.
    pub open spec fn lists_ok(&self) -> bool {
        &&& self.selected.len() == self.targets.len()
        &&& covers(self.sorted_order@, self.targets.len() as int)
        &&& forall|i: int| 0 <= i < self.order.len() ==> #[trigger] self.order@[i] < self.targets.len()
        &&& forall|i: int|
            0 <= i < self.help_order.len() ==> #[trigger] self.help_order@[i] < binding_table().len()
        &&& (self.help_cursor matches Some(c) ==> c < self.help_order.len())
    }

    /// The invariant of the list state.
    pub open spec fn wf(&self) -> bool {
        &&& self.lists_ok()
        &&& (self.cursor matches Some(c) ==> c < self.order.len())
    }

    /// The row under the cursor, 0 where there is none.
    pub fn cursor(&self) -> (r: usize)
        ensures
            r == cur(*self),
    {
        match self.cursor {
            Some(c) => c,
            None => 0,
        }
    }

    /// Moves the cursor up one row, wrapping to the bottom.
    pub fn move_up(&mut self)
        requires
            old(self).wf(),
        ensures
            final(self).wf(),
            cursor_moved(*old(self), *final(self), up_cursor(*old(self))),
    {
        let len = self.order.len();
        if len == 0 {
            return;
        }
        let c = self.cursor();
        self.cursor = Some(if c == 0 { len - 1 } else { c - 1 });
    }

    /// Moves the cursor down one row, wrapping to the top.
    pub fn move_down(&mut self)
        requires
            old(self).wf(),
        ensures
            final(self).wf(),
            cursor_moved(*old(self), *final(self), down_cursor(*old(self))),
    {
        let len = self.order.len();
        if len == 0 {
            return;
        }
        let c = self.cursor();
        self.cursor = Some(if c + 1 >= len { 0 } else { c + 1 });
    }

    /// Moves the cursor to the first row.
    pub fn move_top(&mut self)
        requires
            old(self).wf(),
        ensures
            final(self).wf(),
            cursor_moved(
                *old(self),
                *final(self),
                if old(self).order.len() > 0 {
                    Some(0)
                } else {
                    old(self).cursor
                },
            ),
    {
        if self.order.len() > 0 {
            self.cursor = Some(0);
        }
    }

    /// Moves the cursor to the last row.
    pub fn move_bottom(&mut self)
        requires
            old(self).wf(),
        ensures
            final(self).wf(),
            cursor_moved(
                *old(self),
                *final(self),
                if old(self).order.len() > 0 {
                    Some((old(self).order.len() - 1) as usize)
                } else {
                    old(self).cursor
                },
            ),
    {
        let len = self.order.len();
        if len > 0 {
            self.cursor = Some(len - 1);
        }
    }

    fn move_back(&mut self, n: usize)
        requires
            old(self).wf(),
        ensures
            final(self).wf(),
            cursor_moved(*old(self), *final(self), back_cursor(*old(self), n as int)),
    {
        if self.order.len() == 0 {
            return;
        }
        let c = self.cursor();
        self.cursor = Some(if c >= n { c - n } else { 0 });
    }

    fn move_forward(&mut self, n: usize)
        requires
            old(self).wf(),
        ensures
            final(self).wf(),
            cursor_moved(*old(self), *final(self), forward_cursor(*old(self), n as int)),
    {
        let len = self.order.len();
        if len == 0 {
            return;
        }
        let c = self.cursor();
        let last = len - 1;
        self.cursor = Some(if n <= last - c { c + n } else { last });
    }

    /// Moves the cursor up a page, stopping at the top.
    pub fn move_page_up(&mut self)
        requires
            old(self).wf(),
        ensures
            final(self).wf(),
            cursor_moved(*old(self), *final(self), back_cursor(*old(self), old(self).page_size as int)),
    {
        let n = self.page_size;
        self.move_back(n);
    }

    /// Moves the cursor down a page, stopping at the bottom.
    pub fn move_page_down(&mut self)
        requires
            old(self).wf(),
        ensures
            final(self).wf(),
            cursor_moved(*old(self), *final(self), forward_cursor(*old(self), old(self).page_size as int)),
    {
        let n = self.page_size;
        self.move_forward(n);
    }

    /// Moves the cursor up half a page, stopping at the top.
    pub fn move_half_page_up(&mut self)
        requires
            old(self).wf(),
        ensures
            final(self).wf(),
            cursor_moved(*old(self), *final(self), back_cursor(*old(self), old(self).page_size as int / 2)),
    {
        let n = self.page_size / 2;
        self.move_back(n);
    }

    /// Moves the cursor down half a page, stopping at the bottom.
    pub fn move_half_page_down(&mut self)
        requires
            old(self).wf(),
        ensures
            final(self).wf(),
            cursor_moved(*old(self), *final(self), forward_cursor(*old(self), old(self).page_size as int / 2)),
    {
        let n = self.page_size / 2;
        self.move_forward(n);
    }

    /// Flips the selection of the target under the cursor.
    pub fn toggle(&mut self)
        requires
            old(self).wf(),
        ensures
            final(self).wf(),
            selection_changed(*old(self), *final(self), toggled_sel(*old(self))),
    {
        let c = self.cursor();
        if c < self.order.len() {
            let i = self.order[c];
            let v = !self.selected[i];
            self.selected.set(i, v);
        }
    }

    fn set_all(&mut self, v: bool)
        requires
            old(self).wf(),
        ensures
            final(self).wf(),
            selection_changed(*old(self), *final(self), all_set(old(self).selected@.len(), v)),
    {
        let mut i: usize = 0;
        while i < self.selected.len()
            invariant
                self.wf(),
                i <= self.selected.len(),
                self.selected.len() == old(self).selected.len(),
                forall|k: int| 0 <= k < i ==> self.selected@[k] == v,
                selection_changed(*old(self), *self, self.selected@),
            decreases self.selected.len() - i,
        {
            self.selected.set(i, v);
            i += 1;
        }
        assert(self.selected@ =~= all_set(old(self).selected@.len(), v));
    }

    /// Selects every target.
    pub fn select_all(&mut self)
        requires
            old(self).wf(),
        ensures
            final(self).wf(),
            selection_changed(*old(self), *final(self), all_set(old(self).selected@.len(), true)),
    {
        self.set_all(true);
    }

    /// Deselects every target.
    pub fn select_none(&mut self)
        requires
            old(self).wf(),
        ensures
            final(self).wf(),
            selection_changed(*old(self), *final(self), all_set(old(self).selected@.len(), false)),
    {
        self.set_all(false);
    }

    /// Starts a visual range at the cursor (where a row is shown).
    pub fn enter_visual(&mut self)
        requires
            old(self).wf(),
        ensures
            final(self).wf(),
            visual_entered(*old(self), *final(self)),
    {
        if self.order.len() == 0 {
            return;
        }
        self.visual_anchor = self.cursor();
        self.mode = Mode::Visual;
    }

    /// The rows of the visual range, first and last.
    pub fn visual_range(&self) -> (r: (usize, usize))
        ensures
            r.0 == visual_bounds(*self).0,
            r.1 == visual_bounds(*self).1,
    {
        let c = self.cursor();
        let anchor = self.visual_anchor;
        let lo = if anchor <= c { anchor } else { c };
        let hi0 = if anchor >= c { anchor } else { c };
        let last = if self.order.len() > 0 { self.order.len() - 1 } else { 0 };
        let hi = if hi0 <= last { hi0 } else { last };
        (lo, hi)
    }

    /// Sets every target shown in the visual range to `target`, and ends the
    /// visual mode.
    pub fn apply_visual_op(&mut self, target: bool)
        requires
            old(self).wf(),
        ensures
            final(self).wf(),
            visual_applied(*old(self), *final(self), target),
    {
        let (lo, hi) = self.visual_range();
        let ghost sel0 = self.selected@;
        let mut d = lo;
        while d <= hi
            invariant
                self.wf(),
                lo <= d,
                hi < usize::MAX,
                lo == visual_bounds(*old(self)).0,
                hi == visual_bounds(*old(self)).1,
                d <= hi + 1,
                same_data(*old(self), *self) && same_orders(*old(self), *self),
                same_sort(*old(self), *self) && same_layout(*old(self), *self),
                same_query(*old(self), *self) && same_help(*old(self), *self),
                self.cursor == old(self).cursor,
                self.visual_anchor == old(self).visual_anchor,
                self.mode == old(self).mode,
                sel0 == old(self).selected@,
                self.selected@ == set_rows(sel0, self.order@, lo as int, d as int - 1, target),
            decreases hi + 1 - d,
        {
            let ghost before = self.selected@;
            if d < self.order.len() {
                let i = self.order[d];
                self.selected.set(i, target);
            }
            proof {
                assert(self.selected@ =~= set_rows(sel0, self.order@, lo as int, d as int, target)) by {
                    assert forall|i: int| 0 <= i < sel0.len() implies self.selected@[i] == set_rows(sel0, self.order@, lo as int, d as int, target)[i] by {
                        if d < self.order.len() && self.order@[d as int] == i {
                        } else if exists|e: int| lo <= e <= d - 1 && 0 <= e < self.order.len() && self.order@[e] == i {
                            let e = choose|e: int| lo <= e <= d - 1 && 0 <= e < self.order.len() && self.order@[e] == i;
                            assert(lo <= e <= d && 0 <= e < self.order.len() && self.order@[e] == i);
                        } else {
                            assert(!(exists|e: int| lo <= e <= d && 0 <= e < self.order.len() && self.order@[e] == i)) by {
                                if exists|e: int| lo <= e <= d && 0 <= e < self.order.len() && self.order@[e] == i {
                                    let e = choose|e: int| lo <= e <= d && 0 <= e < self.order.len() && self.order@[e] == i;
                                    if e < d {
                                        assert(lo <= e <= d - 1);
                                    }
                                }
                            }
                        }
                    }
                }
            }
            d += 1;
        }
        self.mode = Mode::Normal;
    }

    /// Toggles the visual range: every target shown in it takes the opposite
    /// of the anchor row's selection (selected where the anchor row is not
    /// shown); the visual mode ends.
    pub fn apply_visual_toggle(&mut self)
        requires
            old(self).wf(),
        ensures
            final(self).wf(),
            visual_applied(*old(self), *final(self), toggle_target(*old(self))),
    {
        let target = if self.visual_anchor < self.order.len() {
            !self.selected[self.order[self.visual_anchor]]
        } else {
            true
        };
        self.apply_visual_op(target);
    }


    /// Brings the cursor and the visual anchor within the shown rows; with
    /// no row shown there is no cursor and the visual mode ends.
    pub fn clamp_cursor(&mut self)
        requires
            old(self).lists_ok(),
        ensures
            final(self).wf(),
            same_data(*old(self), *final(self)) && same_sel(*old(self), *final(self)),
            same_orders(*old(self), *final(self)) && same_sort(*old(self), *final(self)),
            same_layout(*old(self), *final(self)) && same_query(*old(self), *final(self)),
            same_help(*old(self), *final(self)),
            clamped_pos(old(self).cursor, old(self).visual_anchor, *final(self)),
            final(self).mode == clamp_mode(old(self).mode, old(self).order.len() as int),
    {
        let len = self.order.len();
        if len == 0 {
            self.cursor = None;
            if self.mode == Mode::Visual {
                self.mode = Mode::Normal;
            }
        } else {
            let c = self.cursor();
            self.cursor = Some(if c <= len - 1 { c } else { len - 1 });
            let a = self.visual_anchor;
            self.visual_anchor = if a <= len - 1 { a } else { len - 1 };
        }
    }

    /// Shows the targets of the sort order that pass the filter, and brings
    /// the cursor within them.
    pub fn apply_filter(&mut self)
        requires
            old(self).lists_ok(),
        ensures
            final(self).wf(),
            same_data(*old(self), *final(self)) && same_sel(*old(self), *final(self)),
            same_sort(*old(self), *final(self)) && same_layout(*old(self), *final(self)),
            same_query(*old(self), *final(self)) && same_help(*old(self), *final(self)),
            final(self).sorted_order@ == old(self).sorted_order@,
            final(self).order@ == shown_rows(
                old(self).targets@,
                old(self).root@,
                lowercase(old(self).filter_query@),
                old(self).sorted_order@,
            ),
            old(self).filter_query@.len() == 0 ==> final(self).order@ == old(self).sorted_order@,
            clamped_pos(old(self).cursor, old(self).visual_anchor, *final(self)),
            final(self).mode == clamp_mode(old(self).mode, final(self).order.len() as int),
    {
        let q = lowercase_chars(self.filter_query.as_str());
        let root = chars_of(self.root.as_str());
        let mut order: Vec<usize> = Vec::new();
        let mut k: usize = 0;
        while k < self.sorted_order.len()
            invariant
                *self == *old(self),
                self.lists_ok(),
                k <= self.sorted_order.len(),
                root@ == self.root@,
                q@ == lowercase(self.filter_query@),
                self.filter_query@.len() == 0 ==> q@.len() == 0,
                order@ == shown_rows(self.targets@, self.root@, q@, self.sorted_order@.take(k as int)),
                q@.len() == 0 ==> order@ == self.sorted_order@.take(k as int),
                forall|j: int| 0 <= j < order.len() ==> #[trigger] order@[j] < self.targets.len(),
            decreases self.sorted_order.len() - k,
        {
            let i = self.sorted_order[k];
            let keep = if q.len() == 0 {
                true
            } else {
                target_matches_of(&self.targets[i], root.as_slice(), q.as_slice())
            };
            proof {
                assert(self.sorted_order@.take(k as int + 1) =~= self.sorted_order@.take(k as int).push(i));
                lemma_shown_push(self.targets@, self.root@, q@, self.sorted_order@.take(k as int), i);
                if q@.len() == 0 {
                    lemma_contains_empty(lowercase(self.targets@[i as int].adapter@), q@);
                }
            }
            if keep {
                order.push(i);
            }
            k += 1;
        }
        proof {
            assert(self.sorted_order@.take(self.sorted_order.len() as int) =~= self.sorted_order@);
        }
        self.order = order;
        self.clamp_cursor();
    }

    /// Sorts the list by the current column and direction (stably, from the
    /// current order), leaves the visual mode, and filters anew.
    pub fn apply_sort(&mut self)
        requires
            old(self).lists_ok(),
        ensures
            final(self).wf(),
            resort_done(*old(self), *final(self), old(self).sort_col, old(self).sort_dir),
    {
        if self.mode == Mode::Visual {
            self.mode = Mode::Normal;
        }
        let root = chars_of(self.root.as_str());
        let col = self.sort_col;
        let n = self.sorted_order.len();
        let mut keys: Vec<Vec<u64>> = Vec::new();
        let mut k: usize = 0;
        while k < n
            invariant
                self.lists_ok(),
                n == self.sorted_order.len(),
                root@ == self.root@,
                k <= n,
                keys.len() == k,
                forall|j: int|
                    0 <= j < k ==> (#[trigger] keys@[j])@ == sort_key(
                        self.targets@[self.sorted_order@[j] as int],
                        self.root@,
                        col,
                    ),
            decreases n - k,
        {
            let i = self.sorted_order[k];
            let key = key_of(&self.targets[i], root.as_slice(), col);
            keys.push(key);
            k += 1;
        }
        let desc = self.sort_dir == SortDir::Desc;
        let perm = sorted_positions(&keys, desc);
        let ghost ks = order_keys(self.targets@, self.root@, col, self.sorted_order@);
        assert(keys@.map_values(|v: Vec<u64>| v@) =~= ks);
        let mut next: Vec<usize> = Vec::new();
        let mut j: usize = 0;
        while j < n
            invariant
                self.lists_ok(),
                n == self.sorted_order.len(),
                perm.len() == n,
                forall|x: int| 0 <= x < perm.len() ==> #[trigger] perm@[x] < n,
                j <= n,
                next.len() == j,
                forall|x: int|
                    0 <= x < j ==> #[trigger] next@[x] == self.sorted_order@[perm@[x] as int],
            decreases n - j,
        {
            let p = perm[j];
            next.push(self.sorted_order[p]);
            j += 1;
        }
        proof {
            let prev = self.sorted_order@;
            assert(next@ =~= perm@.map_values(|x: usize| prev[x as int]));
            assert(ranked(ks, desc, perm@));
            assert forall|x: usize| x < n implies next@.contains(x) by {
                assert(prev.contains(x));
                let a = choose|a: int| 0 <= a < prev.len() && prev[a] == x;
                assert(perm@.contains(a as usize));
                let b = choose|b: int| 0 <= b < perm.len() && perm@[b] == a as usize;
                assert(next@[b] == x);
            }
            assert forall|x: int| 0 <= x < next.len() implies #[trigger] next@[x] < n by {
                assert(perm@[x] < n);
            }
        }
        self.sorted_order = next;
        self.apply_filter();
    }

    /// Sorts by column `col`: the other direction on the sorted column,
    /// ascending on another.
    pub fn sort_by(&mut self, col: SortColumn)
        requires
            old(self).lists_ok(),
        ensures
            final(self).wf(),
            resort_done(*old(self), *final(self), col, next_dir(*old(self), col)),
    {
        if self.sort_col == col {
            self.sort_dir = self.sort_dir.toggle();
        } else {
            self.sort_col = col;
            self.sort_dir = SortDir::Asc;
        }
        self.apply_sort();
    }


    /// Shows the key bindings that pass the help filter, and brings the help
    /// cursor within them.
    pub fn apply_help_filter(&mut self)
        requires
            old(self).wf(),
        ensures
            final(self).wf(),
            help_refiltered(*old(self), *final(self), old(self).help_filter@),
    {
        let q = lowercase_chars(self.help_filter.as_str());
        let kbs = keybindings();
        let ghost pq = q@;
        let mut rows: Vec<usize> = Vec::new();
        let mut i: usize = 0;
        while i < kbs.len()
            invariant
                kbs.len() == binding_table().len(),
                forall|x: int|
                    0 <= x < kbs.len() ==> (#[trigger] kbs@[x]).key@ == binding_table()[x].0
                        && kbs@[x].desc@ == binding_table()[x].1,
                i <= kbs.len(),
                pq == q@,
                rows@ == all_bindings().take(i as int).filter(
                    |j: usize| binding_matches(j as int, pq),
                ),
                pq.len() == 0 ==> rows@ == all_bindings().take(i as int),
                forall|x: int| 0 <= x < rows.len() ==> #[trigger] rows@[x] < binding_table().len(),
            decreases kbs.len() - i,
        {
            let keep = if q.len() == 0 {
                true
            } else {
                let k = lowercase_chars(kbs[i].key);
                let d = lowercase_chars(kbs[i].desc);
                contains_chars(k.as_slice(), q.as_slice()) || contains_chars(
                    d.as_slice(),
                    q.as_slice(),
                )
            };
            proof {
                assert(all_bindings().take(i as int + 1) =~= all_bindings().take(i as int).push(
                    i,
                ));
                lemma_help_push(pq, all_bindings().take(i as int), i);
                if pq.len() == 0 {
                    lemma_contains_empty(lowercase(binding_table()[i as int].0), pq);
                }
            }
            if keep {
                rows.push(i);
            }
            i += 1;
        }
        proof {
            assert(all_bindings().take(binding_table().len() as int) =~= all_bindings());
        }
        self.help_order = rows;
        let len = self.help_order.len();
        if len == 0 {
            self.help_cursor = None;
        } else {
            let c = match self.help_cursor {
                Some(c) => c,
                None => 0,
            };
            self.help_cursor = Some(if c <= len - 1 { c } else { len - 1 });
        }
    }

    /// Moves the help cursor up one row, wrapping to the bottom.
    pub fn help_move_up(&mut self)
        requires
            old(self).wf(),
        ensures
            final(self).wf(),
            help_cursor_moved(*old(self), *final(self), help_up(*old(self))),
    {
        let len = self.help_order.len();
        if len == 0 {
            return;
        }
        let c = match self.help_cursor {
            Some(c) => c,
            None => 0,
        };
        self.help_cursor = Some(if c == 0 { len - 1 } else { c - 1 });
    }

    /// Moves the help cursor down one row, wrapping to the top.
    pub fn help_move_down(&mut self)
        requires
            old(self).wf(),
        ensures
            final(self).wf(),
            help_cursor_moved(*old(self), *final(self), help_down(*old(self))),
    {
        let len = self.help_order.len();
        if len == 0 {
            return;
        }
        let c = match self.help_cursor {
            Some(c) => c,
            None => 0,
        };
        self.help_cursor = Some(if c + 1 >= len { 0 } else { c + 1 });
    }


    /// A list over `targets`, found under `root`: every target selected,
    /// sorted by path ascending, no filter, the cursor on the first row.
    pub fn new(targets: Vec<CleanTarget>, root: String) -> (r: App)
        ensures
            r.wf(),
            fresh_app(r, targets@, root@),
    {
        let n = targets.len();
        let mut sorted_order: Vec<usize> = Vec::new();
        let mut order: Vec<usize> = Vec::new();
        let mut selected: Vec<bool> = Vec::new();
        let mut i: usize = 0;
        while i < n
            invariant
                i <= n,
                sorted_order@ == Seq::new(i as nat, |k: int| k as usize),
                order@ == sorted_order@,
                selected@ == Seq::new(i as nat, |k: int| true),
            decreases n - i,
        {
            sorted_order.push(i);
            order.push(i);
            selected.push(true);
            i += 1;
        }
        let kbs = keybindings();
        let mut help_order: Vec<usize> = Vec::new();
        let mut j: usize = 0;
        while j < kbs.len()
            invariant
                kbs.len() == binding_table().len(),
                j <= kbs.len(),
                help_order@ == Seq::new(j as nat, |k: int| k as usize),
            decreases kbs.len() - j,
        {
            help_order.push(j);
            j += 1;
        }
        assert(help_order@ =~= all_bindings());
        let mut app = App {
            targets,
            root,
            selected,
            sorted_order,
            order,
            cursor: if n > 0 {
                Some(0)
            } else {
                None
            },
            visual_anchor: 0,
            sort_col: SortColumn::Path,
            sort_dir: SortDir::Asc,
            page_size: 10,
            table_area: Area { x: 0, y: 0, width: 0, height: 0 },
            mode: Mode::Normal,
            filter_query: String::new(),
            help_cursor: Some(0),
            help_filter: String::new(),
            help_order,
            help_searching: false,
        };
        assert(covers(app.sorted_order@, n as int)) by {
            assert forall|x: usize| x < n implies app.sorted_order@.contains(x) by {
                assert(app.sorted_order@[x as int] == x);
            }
        }
        app.apply_sort();
        app
    }

    /// Performs `act` and says what the event loop does next.
    pub fn execute_action(&mut self, act: Action) -> (r: ActionResult)
        requires
            old(self).wf(),
        ensures
            final(self).wf(),
            action_effect(*old(self), *final(self), act),
            r == action_result(act),
    {
        match act {
            Action::MoveUp => self.move_up(),
            Action::MoveDown => self.move_down(),
            Action::MoveTop => self.move_top(),
            Action::MoveBottom => self.move_bottom(),
            Action::MovePageUp => self.move_page_up(),
            Action::MovePageDown => self.move_page_down(),
            Action::MoveHalfPageUp => self.move_half_page_up(),
            Action::MoveHalfPageDown => self.move_half_page_down(),
            Action::Toggle => self.toggle(),
            Action::SelectAll => self.select_all(),
            Action::SelectNone => self.select_none(),
            Action::EnterVisual => self.enter_visual(),
            Action::OpenDetail => {
                if self.order.len() > 0 {
                    self.mode = Mode::Detail;
                }
            },
            Action::SortByAdapter => self.sort_by(SortColumn::Adapter),
            Action::SortByPath => self.sort_by(SortColumn::Path),
            Action::SortBySize => self.sort_by(SortColumn::Size),
            Action::SortByDescription => self.sort_by(SortColumn::Description),
            Action::OpenSearch => self.mode = Mode::Search,
            Action::OpenHelp => {
                self.mode = if self.mode == Mode::Help {
                    Mode::Normal
                } else {
                    Mode::Help
                };
            },
            Action::Confirm => return ActionResult::Confirm,
            Action::Quit => return ActionResult::Quit,
        }
        ActionResult::Continue
    }

    /// The sum of the sizes of all targets.
    pub fn total_size(&self) -> (r: u64)
        requires
            sum_sizes(self.targets@, self.targets.len() as int) <= u64::MAX,
        ensures
            r == sum_sizes(self.targets@, self.targets.len() as int),
    {
        let mut total: u64 = 0;
        let mut i: usize = 0;
        while i < self.targets.len()
            invariant
                i <= self.targets.len(),
                sum_sizes(self.targets@, self.targets.len() as int) <= u64::MAX,
                total == sum_sizes(self.targets@, i as int),
            decreases self.targets.len() - i,
        {
            proof {
                lemma_sum_mono(self.targets@, i as int + 1, self.targets.len() as int);
            }
            total = total + self.targets[i].size;
            i += 1;
        }
        total
    }

    /// The sum of the sizes of the selected targets.
    pub fn selected_size(&self) -> (r: u64)
        requires
            self.wf(),
            sum_selected(self.targets@, self.selected@, self.targets.len() as int) <= u64::MAX,
        ensures
            r == sum_selected(self.targets@, self.selected@, self.targets.len() as int),
    {
        let mut total: u64 = 0;
        let mut i: usize = 0;
        while i < self.targets.len()
            invariant
                self.wf(),
                i <= self.targets.len(),
                sum_selected(self.targets@, self.selected@, self.targets.len() as int) <= u64::MAX,
                total == sum_selected(self.targets@, self.selected@, i as int),
            decreases self.targets.len() - i,
        {
            proof {
                lemma_sum_selected_mono(self.targets@, self.selected@, i as int + 1, self.targets.len() as int);
            }
            if self.selected[i] {
                total = total + self.targets[i].size;
            }
            i += 1;
        }
        total
    }

    /// The number of selected targets.
    pub fn selected_count(&self) -> (r: usize)
        ensures
            r == count_true(self.selected@, self.selected.len() as int),
    {
        let mut n: usize = 0;
        let mut i: usize = 0;
        while i < self.selected.len()
            invariant
                i <= self.selected.len(),
                n == count_true(self.selected@, i as int),
            decreases self.selected.len() - i,
        {
            proof {
                lemma_count_le(self.selected@, i as int);
            }
            if self.selected[i] {
                n = n + 1;
            }
            i += 1;
        }
        n
    }

    /// Copies of the selected targets, in scan order.
    pub fn chosen_targets(&self) -> (r: Vec<CleanTarget>)
        requires
            self.wf(),
        ensures
            views(r@) == chosen(self.targets@, self.selected@, self.targets.len() as int),
    {
        let mut r: Vec<CleanTarget> = Vec::new();
        let mut i: usize = 0;
        while i < self.targets.len()
            invariant
                self.wf(),
                i <= self.targets.len(),
                views(r@) == chosen(self.targets@, self.selected@, i as int),
            decreases self.targets.len() - i,
        {
            if self.selected[i] {
                let t = self.targets[i].duplicate();
                let ghost before = r@;
                r.push(t);
                assert(views(r@) =~= views(before).push(t@));
            }
            i += 1;
        }
        r
    }
}


/// The action of key `k` in the normal mode (see [`normal_key_action`]).
fn normal_action_of(k: KeyInput) -> (r: Option<Action>)
    ensures
        r == normal_key_action(k),
{
    let m = move_action_of(k);
    if m.is_some() {
        return m;
    }
    match k.code {
        KeyCode::Esc => Some(Action::Quit),
        KeyCode::Enter => Some(Action::Confirm),
        KeyCode::Char(c) => {
            if c == 'q' {
                Some(Action::Quit)
            } else if c == ' ' {
                Some(Action::Toggle)
            } else if c == 'a' {
                Some(Action::SelectAll)
            } else if c == 'n' {
                Some(Action::SelectNone)
            } else if c == '1' {
                Some(Action::SortByAdapter)
            } else if c == '2' {
                Some(Action::SortByPath)
            } else if c == '3' {
                Some(Action::SortBySize)
            } else if c == '4' {
                Some(Action::SortByDescription)
            } else if c == 'v' {
                Some(Action::EnterVisual)
            } else if c == 'e' {
                Some(Action::OpenDetail)
            } else if c == '/' {
                Some(Action::OpenSearch)
            } else if c == '?' {
                Some(Action::OpenHelp)
            } else {
                None
            }
        },
        _ => None,
    }
}

/// The movement that key `k` asks for (see [`move_key_action`]).
fn move_action_of(k: KeyInput) -> (r: Option<Action>)
    ensures
        r == move_key_action(k),
{
    match k.code {
        KeyCode::Up => Some(Action::MoveUp),
        KeyCode::Down => Some(Action::MoveDown),
        KeyCode::PageUp => Some(Action::MovePageUp),
        KeyCode::PageDown => Some(Action::MovePageDown),
        KeyCode::Home => Some(Action::MoveTop),
        KeyCode::End => Some(Action::MoveBottom),
        KeyCode::Char(c) => {
            if c == 'k' {
                Some(Action::MoveUp)
            } else if c == 'j' {
                Some(Action::MoveDown)
            } else if c == 'g' {
                Some(Action::MoveTop)
            } else if c == 'G' {
                Some(Action::MoveBottom)
            } else if c == 'u' && k.ctrl {
                Some(Action::MoveHalfPageUp)
            } else if c == 'd' && k.ctrl {
                Some(Action::MoveHalfPageDown)
            } else {
                None
            }
        },
        _ => None,
    }
}

/// Handles key `k` in the normal mode: performs its action (`?` opens the
/// help overlay); other keys do nothing.
pub fn handle_normal_key(app: &mut App, key: KeyInput) -> (r: ActionResult)
    requires
        old(app).wf(),
    ensures
        final(app).wf(),
        normal_key_effect(*old(app), *final(app), key, r),
{
    match normal_action_of(key) {
        Some(Action::OpenHelp) => {
            app.mode = Mode::Help;
            ActionResult::Continue
        },
        Some(act) => app.execute_action(act),
        None => ActionResult::Continue,
    }
}

/// Handles key `k` in the visual mode: moves the end of the range, sets or
/// toggles the range, or leaves the mode.
pub fn handle_visual_key(app: &mut App, key: KeyInput) -> (r: ActionResult)
    requires
        old(app).wf(),
    ensures
        final(app).wf(),
        visual_key_effect(*old(app), *final(app), key),
        r == ActionResult::Continue,
{
    if key.code == KeyCode::Esc || key.code == KeyCode::Char('v') {
        app.mode = Mode::Normal;
        return ActionResult::Continue;
    }
    match move_action_of(key) {
        Some(act) => {
            app.execute_action(act);
        },
        None => {
            if key.code == KeyCode::Char(' ') || key.code == KeyCode::Enter {
                app.apply_visual_toggle();
            } else if key.code == KeyCode::Char('a') {
                app.apply_visual_op(true);
            } else if key.code == KeyCode::Char('n') {
                app.apply_visual_op(false);
            }
        },
    }
    ActionResult::Continue
}

/// Handles key `k` while the filter is typed: edits the filter and filters
/// anew, keeps it (Enter) or clears it (Esc).
pub fn handle_search_key(app: &mut App, key: KeyInput)
    requires
        old(app).wf(),
    ensures
        final(app).wf(),
        search_key_effect(*old(app), *final(app), key),
{
    match key.code {
        KeyCode::Esc => {
            app.filter_query = String::new();
            app.apply_filter();
            app.mode = Mode::Normal;
        },
        KeyCode::Enter => {
            app.mode = Mode::Normal;
        },
        KeyCode::Backspace => {
            pop_char(&mut app.filter_query);
            app.apply_filter();
        },
        KeyCode::Char(c) => {
            push_char(&mut app.filter_query, c);
            app.apply_filter();
        },
        _ => {},
    }
}

/// Handles key `k` in the help overlay: edits its filter, moves its cursor,
/// closes it, or performs the action of the binding under its cursor.
pub fn handle_help_key(app: &mut App, key: KeyInput) -> (r: ActionResult)
    requires
        old(app).wf(),
    ensures
        final(app).wf(),
        help_key_effect(*old(app), *final(app), key, r),
{
    if app.help_searching {
        match key.code {
            KeyCode::Esc => {
                app.help_filter = String::new();
                app.apply_help_filter();
                app.help_searching = false;
            },
            KeyCode::Enter => {
                app.help_searching = false;
            },
            KeyCode::Backspace => {
                pop_char(&mut app.help_filter);
                app.apply_help_filter();
            },
            KeyCode::Char(c) => {
                push_char(&mut app.help_filter, c);
                app.apply_help_filter();
            },
            _ => {},
        }
        return ActionResult::Continue;
    }
    if key.code == KeyCode::Char('q') || key.code == KeyCode::Esc || key.code == KeyCode::Char('?') {
        app.help_filter = String::new();
        app.apply_help_filter();
        app.help_searching = false;
        app.mode = Mode::Normal;
        ActionResult::Continue
    } else if key.code == KeyCode::Char('/') {
        app.help_searching = true;
        ActionResult::Continue
    } else if key.code == KeyCode::Up || key.code == KeyCode::Char('k') {
        app.help_move_up();
        ActionResult::Continue
    } else if key.code == KeyCode::Down || key.code == KeyCode::Char('j') {
        app.help_move_down();
        ActionResult::Continue
    } else if key.code == KeyCode::Enter {
        let display_idx = match app.help_cursor {
            Some(c) => c,
            None => 0,
        };
        let kb_idx = if display_idx < app.help_order.len() {
            app.help_order[display_idx]
        } else {
            0
        };
        let kbs = keybindings();
        let act = kbs[kb_idx].action;
        app.help_filter = String::new();
        app.apply_help_filter();
        app.help_searching = false;
        app.mode = Mode::Normal;
        let ghost mid = *app;
        assert(act == help_choice(*old(app)));
        assert(help_query_set(*old(app), mid, Seq::empty(), false));
        if act == Action::OpenHelp {
            ActionResult::Continue
        } else {
            app.execute_action(act)
        }
    } else {
        ActionResult::Continue
    }
}

/// Handles key `k` on the detail popup: any key closes it.
pub fn handle_detail_key(app: &mut App, key: KeyInput) -> (r: ActionResult)
    requires
        old(app).wf(),
    ensures
        final(app).wf(),
        mode_set(*old(app), *final(app), Mode::Normal),
        r == ActionResult::Continue,
{
    app.mode = Mode::Normal;
    ActionResult::Continue
}

/// The sort column under cell `inner_x` of a table row `inner_w` cells wide
/// whose columns start at `starts` (see [`column_at`]).
pub fn column_for(inner_x: u16, inner_w: u16, starts: &[u16]) -> (r: Option<SortColumn>)
    requires
        starts.len() == 5,
    ensures
        r == column_at(inner_x, inner_w, starts@),
{
    if inner_x < starts[1] {
        None
    } else if inner_x < starts[2] {
        Some(SortColumn::Adapter)
    } else if inner_x < starts[3] {
        Some(SortColumn::Path)
    } else if inner_x < starts[4] {
        Some(SortColumn::Size)
    } else if inner_x < inner_w {
        Some(SortColumn::Description)
    } else {
        None
    }
}

/// The sort column whose title lies under terminal column `col`, for a
/// table drawn in `table_area` (see [`click_column`]).
fn sort_column_at(col: u16, table_area: Area) -> (r: Option<SortColumn>)
    requires
        table_area.x < u16::MAX,
    ensures
        r == click_column(col, table_area),
{
    let left = table_area.x + 1;
    let inner_x = if col >= left {
        col - left
    } else {
        0
    };
    let inner_w = if table_area.width >= 2 {
        table_area.width - 2
    } else {
        0
    };
    let widths = table_widths();
    let row = Area { x: 0, y: 0, width: inner_w, height: 1 };
    let cols = split_area(row, Axis::Horizontal, widths.as_slice());
    let xs = starts(&cols);
    column_for(inner_x, inner_w, xs.as_slice())
}

/// Handles a mouse event: a left click on a column title of the table sorts
/// by that column (outside the search and the help search).
pub fn handle_mouse(app: &mut App, col: u16, row: u16, kind: MouseKind)
    requires
        old(app).wf(),
        old(app).table_area.y < u16::MAX,
        sorting_click(*old(app), row, kind) ==> old(app).table_area.x < u16::MAX,
    ensures
        final(app).wf(),
        sorting_click(*old(app), row, kind) && click_column(col, old(app).table_area) is Some
            ==> resort_done(
            *old(app),
            *final(app),
            click_column(col, old(app).table_area)->0,
            next_dir(*old(app), click_column(col, old(app).table_area)->0),
        ),
        !(sorting_click(*old(app), row, kind) && click_column(col, old(app).table_area) is Some)
            ==> *final(app) == *old(app),
{
    if kind == MouseKind::LeftDown && row == app.table_area.y + 1 && app.mode != Mode::Search
        && !app.help_searching {
        match sort_column_at(col, app.table_area) {
            Some(sc) => app.sort_by(sc),
            None => {},
        }
    }
}

/// Handles key `k` as the mode of the list wants.
pub fn handle_key(app: &mut App, key: KeyInput) -> (r: ActionResult)
    requires
        old(app).wf(),
    ensures
        final(app).wf(),
        target_key_effect(*old(app), *final(app), key, r),
{
    match app.mode {
        Mode::Normal => handle_normal_key(app, key),
        Mode::Visual => handle_visual_key(app, key),
        Mode::Search => {
            handle_search_key(app, key);
            ActionResult::Continue
        },
        Mode::Help => handle_help_key(app, key),
        Mode::Detail => handle_detail_key(app, key),
    }
}

} // verus!
