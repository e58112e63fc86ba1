//! Removes Python build artifacts, virtual environments and bytecode.

use vstd::prelude::*;

use vstd::hash_map::StringHashMap;

use crate::adapter::{compute_dir_size, dir_size_of, nested_free, Adapter, CleanTarget, ScanError};
use crate::adapters::dirs::{has_file, step_path, under_any};
use crate::path::{ends_with, ends_with_chars, file_name, file_name_of, is_within, parent, parent_of, within};
use crate::scanner::{
    asked_up, context_up, files_cache_said, has_python_context_cached, lemma_up_kept,
    pycache_context_cached, source_cache_said, under_some,
};
use crate::walk::{
    any_file_said, cached_true, drained, file_said, fresh_child_walk, remembers, walk_run, walked_on, Step, Walk,
};
use crate::text::{append_chars, chars_are, chars_of, string_from, string_of};

verus! {

/// The Python adapter.
pub struct PythonAdapter;

/// Whether a directory named `name` is one the Python adapter cleans.
pub open spec fn python_dir_name(name: Seq<char>) -> bool {
    ||| name == "__pycache__"@
    ||| name == ".venv"@
    ||| name == "venv"@
    ||| name == "dist"@
    ||| name == "build"@
    ||| name == ".eggs"@
}

/// A directory target of the Python adapter.
pub open spec fn python_dir_target(t: CleanTarget) -> bool {
    &&& t.adapter@ == "python"@
    &&& python_dir_name(file_name(t.path@))
    &&& t.description@ == "Python build artifact ("@ + file_name(t.path@) + "/)"@
}

/// A bytecode file target of the Python adapter.
pub open spec fn python_file_target(t: CleanTarget) -> bool {
    &&& t.adapter@ == "python"@
    &&& ends_with(file_name(t.path@), ".pyc"@)
    &&& t.description@ == "Python bytecode (.pyc)"@
}

/// Whether a file named `name` has the extension `py`.
pub open spec fn has_py_extension(name: Seq<char>) -> bool {
    ends_with(name, ".py"@) && name.len() > 3
}

/// Whether a directory named `name` is one the Python adapter cleans.
pub fn is_python_dir_name(name: &[char]) -> (r: bool)
    ensures
        r == python_dir_name(name@),
{
    chars_are(name, "__pycache__") || chars_are(name, ".venv") || chars_are(name, "venv")
        || chars_are(name, "dist") || chars_are(name, "build") || chars_are(name, ".eggs")
}

/// The description of a Python artifact directory named `name`.
pub fn python_dir_description(name: &[char]) -> (r: String)
    ensures
        r@ == "Python build artifact ("@ + name@ + "/)"@,
{
    let mut v = chars_of("Python build artifact (");
    append_chars(&mut v, name);
    let tail = chars_of("/)");
    append_chars(&mut v, tail.as_slice());
    string_of(v.as_slice())
}

/// Whether `dir` holds a Python project file (`pyproject.toml`, `setup.py`,
/// `setup.cfg` or `requirements.txt`).
pub fn has_python_context(dir: &[char]) -> (r: bool)
    ensures
        any_file_said(dir@, python_project_files(), r),
{
    let a = has_file(dir, "pyproject.toml");
    if a {
        proof {
            assert(python_project_files()[0] == "pyproject.toml"@);
            assert(file_said(dir@, python_project_files()[0], true));
        }
        return true;
    }
    let b = has_file(dir, "setup.py");
    if b {
        proof {
            assert(python_project_files()[1] == "setup.py"@);
            assert(file_said(dir@, python_project_files()[1], true));
        }
        return true;
    }
    let c = has_file(dir, "setup.cfg");
    if c {
        proof {
            assert(python_project_files()[2] == "setup.cfg"@);
            assert(file_said(dir@, python_project_files()[2], true));
        }
        return true;
    }
    let d = has_file(dir, "requirements.txt");
    proof {
        assert(python_project_files()[0] == "pyproject.toml"@);
        assert(python_project_files()[1] == "setup.py"@);
        assert(python_project_files()[2] == "setup.cfg"@);
        assert(python_project_files()[3] == "requirements.txt"@);
        if d {
            assert(file_said(dir@, python_project_files()[3], true));
        } else {
            assert forall|i: int| 0 <= i < python_project_files().len() implies #[trigger] file_said(dir@, python_project_files()[i], false) by {
                if i == 0 {
                } else if i == 1 {
                } else if i == 2 {
                } else {
                    assert(i == 3);
                }
            }
        }
    }
    d
}

/// The Python project files: any one of them in a directory gives it Python
/// context.
pub open spec fn python_project_files() -> Seq<Seq<char>> {
    seq!["pyproject.toml"@, "setup.py"@, "setup.cfg"@, "requirements.txt"@]
}

/// Whether a file named `name` has the extension `py`.
pub fn is_py_file_name(name: &[char]) -> (r: bool)
    ensures
        r == has_py_extension(name@),
{
    let suffix = chars_of(".py");
    ends_with_chars(name, suffix.as_slice()) && name.len() > 3
}

/// Whether a walk step is an entry whose name has the extension `py`.
pub open spec fn py_source_step(s: Step) -> bool {
    match s {
        Some((p, _, _)) => has_py_extension(file_name(p)),
        None => false,
    }
}

/// Takes the walk `w` until it gives an entry whose name has the extension
/// `py` (then true) or ends (then false). Entries that cannot be read are
/// skipped.
pub fn has_py_entry_in(w: &mut Walk) -> (r: bool)
    ensures
        walked_on(*old(w), *final(w)),
        final(w).lens() == old(w).lens(),
        r == exists|i: int|
            old(w).steps().len() <= i < final(w).steps().len() && py_source_step(#[trigger] final(w).steps()[i]),
        !r ==> drained(*old(w), *final(w)),
{
    let mut budget: u64 = u64::MAX;
    while budget > 0
        invariant
            walked_on(*old(w), *w),
            w.lens() == old(w).lens(),
            w.count() == old(w).count() + (u64::MAX - budget),
            forall|i: int| old(w).steps().len() <= i < w.steps().len() ==> !py_source_step(#[trigger] w.steps()[i]),
        ensures
            w.ended() || budget == 0,
            walked_on(*old(w), *w),
            w.lens() == old(w).lens(),
            w.count() == old(w).count() + (u64::MAX - budget),
            forall|i: int| old(w).steps().len() <= i < w.steps().len() ==> !py_source_step(#[trigger] w.steps()[i]),
        decreases budget,
    {
        let ghost steps0 = w.steps();
        match w.next_visit() {
            None => break,
            Some(None) => {
                proof {
                    assert forall|i: int| old(w).steps().len() <= i < w.steps().len() implies !py_source_step(#[trigger] w.steps()[i]) by {
                        if i < steps0.len() {
                            assert(w.steps()[i] == steps0[i]);
                        }
                    }
                }
            },
            Some(Some(v)) => {
                let p = chars_of(v.path.as_str());
                let name = file_name_of(p.as_slice());
                if is_py_file_name(name.as_slice()) {
                    proof {
                        assert(py_source_step(w.steps()[steps0.len() as int]));
                        assert(old(w).steps().is_prefix_of(steps0));
                    }
                    return true;
                }
                proof {
                    assert forall|i: int| old(w).steps().len() <= i < w.steps().len() implies !py_source_step(#[trigger] w.steps()[i]) by {
                        if i < steps0.len() {
                            assert(w.steps()[i] == steps0[i]);
                        }
                    }
                }
            },
        }
        budget -= 1;
    }
    false
}

/// Whether the directory `dir` directly holds an entry with the extension
/// `py` (see [`has_py_entry_in`] for what is made of the walk of its
/// entries).
pub fn has_python_source_file(dir: &[char]) -> (r: bool)
    ensures
        exists|w0: Walk, w1: Walk| #[trigger]
            child_walk_taken(w0, w1, dir@) && (r == exists|i: int| 0 <= i < w1.steps().len() && py_source_step(#[trigger] w1.steps()[i]))
                && (!r ==> drained(w0, w1)),
        py_source_walked(dir@, r),
{
    let d = string_of(dir);
    let mut w = Walk::open_children(d.as_str());
    let ghost w0 = w;
    let r = has_py_entry_in(&mut w);
    proof {
        assert(child_walk_taken(w0, w, dir@));
    }
    r
}

/// Whether `v` is what a walk of the entries directly in `dir` said: true
/// where it gave an entry with the extension `py`, false where it was taken
/// to its end without one.
pub open spec fn py_source_walked(dir: Seq<char>, v: bool) -> bool {
    exists|w0: Walk, w1: Walk| #[trigger]
        child_walk_taken(w0, w1, dir) && (v == exists|i: int| 0 <= i < w1.steps().len() && py_source_step(#[trigger] w1.steps()[i]))
            && (!v ==> drained(w0, w1))
}

/// Whether `w1` is `w0`, a walk of the entries directly in `dir` just
/// opened, taken further.
pub open spec fn child_walk_taken(w0: Walk, w1: Walk, dir: Seq<char>) -> bool {
    fresh_child_walk(w0, dir) && walked_on(w0, w1)
}

/// Whether a `__pycache__` directory in `parent` belongs to Python code: a
/// Python project file in `parent` or in one of its three nearest ancestors,
/// or a `.py` file beside it.
pub fn pycache_has_context(parent: &[char]) -> bool {
    let mut p: Vec<char> = parent_copy(parent);
    let mut level: usize = 0;
    while level < 4
        decreases 4 - level,
    {
        if has_python_context(p.as_slice()) {
            return true;
        }
        match parent_of(p.as_slice()) {
            Some(pp) => p = pp,
            None => break,
        }
        level += 1;
    }
    has_python_source_file(parent)
}

proof fn lemma_python_targets_disjoint(t: CleanTarget)
    ensures
        !(python_dir_target(t) && python_file_target(t)),
{
    if python_dir_target(t) && python_file_target(t) {
        reveal_strlit("Python bytecode (.pyc)");
        reveal_strlit("Python build artifact (");
        assert(t.description@[8] == 'u');
        assert(t.description@[8] == 'y');
    }
}

fn parent_copy(v: &[char]) -> (r: Vec<char>)
    ensures
        r@ == v@,
{
    let mut r: Vec<char> = Vec::new();
    append_chars(&mut r, v);
    r
}

impl Adapter for PythonAdapter {
    fn name(&self) -> (r: &'static str)
        ensures
            r@ == "python"@,
    {
        "python"
    }

    fn description(&self) -> (r: &'static str)
        ensures
            r@ == "Python build artifacts and virtual environments (__pycache__/, .venv/, dist/, etc.)"@,
    {
        "Python build artifacts and virtual environments (__pycache__/, .venv/, dist/, etc.)"
    }

    fn is_safe(&self) -> (r: bool)
        ensures
            r,
    {
        true
    }

    /// Reports the artifact directories that have Python context (without
    /// descending into them) and the `.pyc` files outside them (see
    /// [`python_scan_in`], which states exactly what is reported of the
    /// walk).
    open spec fn gives(&self, root: Seq<char>, r: Result<Vec<CleanTarget>, ScanError>) -> bool {
        r matches Ok(ts) && python_scan_of(root, ts@)
    }

    fn scan(&self, root: &str) -> (r: Result<Vec<CleanTarget>, ScanError>)
        ensures
            r matches Ok(ts) && python_scan_of(root@, ts@),
    {
        let mut w = Walk::open(root);
        let ghost w0 = w;
        let mut py: StringHashMap<bool> = StringHashMap::new();
        let mut src: StringHashMap<bool> = StringHashMap::new();
        let ts = python_scan_in(&mut w, &mut py, &mut src);
        proof {
            assert(w.steps().skip(0) == w.steps());
            assert(walk_run(w0, w, root@));
            assert(python_found_by(root@, w.steps(), py@, src@, ts@));
        }
        Ok(ts)
    }
}

/// `ts` are, in order, the paths that the Python adapter reports for the
/// walk steps `steps` by the answers `py` and `src`, which hold all that was
/// needed.
pub open spec fn python_found_by(root: Seq<char>, steps: Seq<Step>, py: Map<Seq<char>, bool>, src: Map<Seq<char>, bool>, ts: Seq<CleanTarget>) -> bool {
    &&& ts.len() == py_found(root, steps, py, src).len()
    &&& forall|i: int| 0 <= i < ts.len() ==> (#[trigger] ts[i]).path@ == py_found(root, steps, py, src)[i]
    &&& py_asked(root, steps, py, src)
    &&& files_cache_said(py, python_project_files())
    &&& source_cache_said(src)
}

/// `ts` is what the Python adapter reports of a walk of `root` taken to its
/// end (see [`py_found`]): artifact directories and `.pyc` files, none at or
/// below another.
pub open spec fn python_scan_of(root: Seq<char>, ts: Seq<CleanTarget>) -> bool {
    &&& exists|w0: Walk, w1: Walk| #[trigger]
        walk_run(w0, w1, root) && exists|py: Map<Seq<char>, bool>, src: Map<Seq<char>, bool>| #[trigger]
            python_found_by(root, w1.steps(), py, src, ts)
    &&& forall|i: int| 0 <= i < ts.len() ==> python_dir_target(#[trigger] ts[i]) || python_file_target(ts[i])
    &&& forall|i: int| 0 <= i < ts.len() && python_dir_target(#[trigger] ts[i]) ==> dir_size_of(ts[i].path@, ts[i].size)
    &&& nested_free(ts)
}

proof fn lemma_dir_name_not_pyc(name: Seq<char>)
    requires
        python_dir_name(name),
    ensures
        !ends_with(name, ".pyc"@),
{
    reveal_strlit(".pyc");
    reveal_strlit("__pycache__");
    reveal_strlit(".venv");
    reveal_strlit("venv");
    reveal_strlit("dist");
    reveal_strlit("build");
    reveal_strlit(".eggs");
    if ends_with(name, ".pyc"@) {
        assert(name.skip(name.len() - 4)[3] == ".pyc"@[3]);
        assert(name[name.len() - 1] == 'c');
    }
}

/// Each path that the Python adapter finds with the name of an artifact
/// directory other than `__pycache__` has a parent that the answers `py` say
/// holds a Python project file.
proof fn lemma_py_found_dirs(root: Seq<char>, steps: Seq<Step>, py: Map<Seq<char>, bool>, src: Map<Seq<char>, bool>)
    ensures
        forall|k: int|
            0 <= k < py_found(root, steps, py, src).len() && python_dir_name(file_name(#[trigger] py_found(root, steps, py, src)[k]))
                && file_name(py_found(root, steps, py, src)[k]) != "__pycache__"@ ==> (parent(py_found(root, steps, py, src)[k]) matches Some(d)
                && cached_true(py, d)),
    decreases steps.len(),
{
    if steps.len() > 0 {
        let init = steps.drop_last();
        lemma_py_found_dirs(root, init, py, src);
        let prev = py_found(root, init, py, src);
        let all = py_found(root, steps, py, src);
        if py_pick(root, steps.last(), prev, py, src) {
            let p = step_path(steps.last());
            assert(all == prev.push(p));
            if let Some((q, is_dir, is_file)) = steps.last() {
                if !is_dir && python_dir_name(file_name(q)) {
                    lemma_dir_name_not_pyc(file_name(q));
                }
            }
            assert forall|k: int|
                0 <= k < all.len() && python_dir_name(file_name(#[trigger] all[k])) && file_name(all[k]) != "__pycache__"@
                implies (parent(all[k]) matches Some(d) && cached_true(py, d)) by {
                if k < prev.len() {
                    assert(all[k] == prev[k]);
                }
            }
        }
    }
}

/// Every artifact directory other than `__pycache__` that the Python adapter
/// reports lies in a directory where the disk said one of `pyproject.toml`,
/// `setup.py`, `setup.cfg` and `requirements.txt` exists; no other file
/// gives it Python context.
pub proof fn law_python_dir_has_project_file(root: Seq<char>, ts: Seq<CleanTarget>, i: int)
    requires
        python_scan_of(root, ts),
        0 <= i < ts.len(),
        python_dir_target(ts[i]),
        file_name(ts[i].path@) != "__pycache__"@,
    ensures
        parent(ts[i].path@) matches Some(d) && (file_said(d, "pyproject.toml"@, true) || file_said(d, "setup.py"@, true)
            || file_said(d, "setup.cfg"@, true) || file_said(d, "requirements.txt"@, true)),
{
    let (w0, w1) = choose|w0: Walk, w1: Walk| #[trigger]
        walk_run(w0, w1, root) && exists|py: Map<Seq<char>, bool>, src: Map<Seq<char>, bool>| #[trigger]
            python_found_by(root, w1.steps(), py, src, ts);
    let (py, src) = choose|py: Map<Seq<char>, bool>, src: Map<Seq<char>, bool>| #[trigger]
        python_found_by(root, w1.steps(), py, src, ts);
    lemma_py_found_dirs(root, w1.steps(), py, src);
    let f = py_found(root, w1.steps(), py, src);
    assert(ts[i].path@ == f[i]);
    let d = parent(f[i])->0;
    assert(cached_true(py, d));
    assert(py.contains_key(d));
    let names = python_project_files();
    assert(any_file_said(d, names, py[d]));
    let j = choose|j: int| 0 <= j < names.len() && #[trigger] file_said(d, names[j], true);
    assert(names[0] == "pyproject.toml"@ && names[1] == "setup.py"@ && names[2] == "setup.cfg"@
        && names[3] == "requirements.txt"@);
    assert(0 <= j < 4);
}

/// Whether the answers `py` (Python project file per directory) and `src`
/// (`.py` file per directory) say that an artifact directory named `name` in
/// `dir` has Python context: for `__pycache__`, a project file in `dir` or
/// one of the three directories above it, or a `.py` file in `dir`; else a
/// project file in `dir`.
pub open spec fn pydir_context(py: Map<Seq<char>, bool>, src: Map<Seq<char>, bool>, name: Seq<char>, dir: Seq<char>) -> bool {
    if name == "__pycache__"@ {
        context_up(py, dir, 4) || cached_true(src, dir)
    } else {
        cached_true(py, dir)
    }
}

/// Whether the answers hold what [`pydir_context`] asks.
pub open spec fn pydir_asked(py: Map<Seq<char>, bool>, src: Map<Seq<char>, bool>, name: Seq<char>, dir: Seq<char>) -> bool {
    if name == "__pycache__"@ {
        asked_up(py, dir, 4) && (context_up(py, dir, 4) || src.contains_key(dir))
    } else {
        py.contains_key(dir)
    }
}

/// Whether the Python adapter reports the walk step `s`, the paths `found`
/// having been reported before: nothing at or below one of those; an
/// artifact directory with Python context; a `.pyc` file.
pub open spec fn py_pick(root: Seq<char>, s: Step, found: Seq<Seq<char>>, py: Map<Seq<char>, bool>, src: Map<Seq<char>, bool>) -> bool {
    match s {
        Some((p, is_dir, is_file)) => !under_some(p, found) && within(p, root) && if is_dir {
            python_dir_name(file_name(p)) && match parent(p) {
                Some(d) => pydir_context(py, src, file_name(p), d),
                None => false,
            }
        } else {
            is_file && ends_with(file_name(p), ".pyc"@)
        },
        None => false,
    }
}

/// The paths that the Python adapter reports for the walk steps `steps`, in
/// order, given the answers `py` and `src`.
pub open spec fn py_found(root: Seq<char>, steps: Seq<Step>, py: Map<Seq<char>, bool>, src: Map<Seq<char>, bool>) -> Seq<Seq<char>>
    decreases steps.len(),
{
    if steps.len() == 0 {
        Seq::empty()
    } else {
        let prev = py_found(root, steps.drop_last(), py, src);
        if py_pick(root, steps.last(), prev, py, src) {
            prev.push(step_path(steps.last()))
        } else {
            prev
        }
    }
}

/// Whether the answers hold what the context of the walk step `s` asks.
pub open spec fn py_asked_at(root: Seq<char>, s: Step, found: Seq<Seq<char>>, py: Map<Seq<char>, bool>, src: Map<Seq<char>, bool>) -> bool {
    match s {
        Some((p, true, _)) => !under_some(p, found) && within(p, root) && python_dir_name(file_name(p)) ==> match parent(p) {
            Some(d) => pydir_asked(py, src, file_name(p), d),
            None => true,
        },
        _ => true,
    }
}

/// Whether the answers hold what the context of each step among `steps` asks.
pub open spec fn py_asked(root: Seq<char>, steps: Seq<Step>, py: Map<Seq<char>, bool>, src: Map<Seq<char>, bool>) -> bool {
    forall|i: int|
        0 <= i < steps.len() ==> py_asked_at(root, #[trigger] steps[i], py_found(root, steps.take(i), py, src), py, src)
}

proof fn lemma_py_at_kept(
    root: Seq<char>,
    s: Step,
    found: Seq<Seq<char>>,
    py: Map<Seq<char>, bool>,
    src: Map<Seq<char>, bool>,
    py2: Map<Seq<char>, bool>,
    src2: Map<Seq<char>, bool>,
)
    requires
        py_asked_at(root, s, found, py, src),
        remembers(py, py2),
        remembers(src, src2),
    ensures
        py_asked_at(root, s, found, py2, src2),
        py_pick(root, s, found, py2, src2) == py_pick(root, s, found, py, src),
{
    if let Some((p, is_dir, _)) = s {
        if is_dir && !under_some(p, found) && within(p, root) && python_dir_name(file_name(p)) {
            if let Some(d) = parent(p) {
                if file_name(p) == "__pycache__"@ {
                    lemma_up_kept(py, py2, d, 4);
                    if src.contains_key(d) {
                        assert(src2.contains_key(d));
                    }
                } else {
                    assert(py.contains_key(d));
                }
            }
        }
    }
}

#[verifier::spinoff_prover]
#[verifier::rlimit(30)]
proof fn lemma_py_kept(
    root: Seq<char>,
    steps: Seq<Step>,
    py: Map<Seq<char>, bool>,
    src: Map<Seq<char>, bool>,
    py2: Map<Seq<char>, bool>,
    src2: Map<Seq<char>, bool>,
)
    requires
        py_asked(root, steps, py, src),
        remembers(py, py2),
        remembers(src, src2),
    ensures
        py_found(root, steps, py2, src2) == py_found(root, steps, py, src),
        py_asked(root, steps, py2, src2),
    decreases steps.len(),
{
    if steps.len() > 0 {
        let init = steps.drop_last();
        assert forall|i: int| 0 <= i < init.len() implies py_asked_at(root, #[trigger] init[i], py_found(root, init.take(i), py, src), py, src) by {
            assert(init.take(i) == steps.take(i));
            assert(init[i] == steps[i]);
        }
        lemma_py_kept(root, init, py, src, py2, src2);
        let last = steps.len() - 1;
        assert(steps.take(last) == init);
        assert(steps[last] == steps.last());
        lemma_py_at_kept(root, steps.last(), py_found(root, init, py, src), py, src, py2, src2);
        assert forall|i: int| 0 <= i < steps.len() implies py_asked_at(root, #[trigger] steps[i], py_found(root, steps.take(i), py2, src2), py2, src2) by {
            if i < last {
                assert(init.take(i) == steps.take(i));
                assert(init[i] == steps[i]);
            }
        }
    }
}

proof fn lemma_py_push(root: Seq<char>, steps: Seq<Step>, s: Step, py: Map<Seq<char>, bool>, src: Map<Seq<char>, bool>)
    requires
        py_asked(root, steps, py, src),
        py_asked_at(root, s, py_found(root, steps, py, src), py, src),
    ensures
        py_asked(root, steps.push(s), py, src),
        py_found(root, steps.push(s), py, src) == if py_pick(root, s, py_found(root, steps, py, src), py, src) {
            py_found(root, steps, py, src).push(step_path(s))
        } else {
            py_found(root, steps, py, src)
        },
{
    let all = steps.push(s);
    assert(all.drop_last() == steps);
    assert forall|i: int| 0 <= i < all.len() implies py_asked_at(root, #[trigger] all[i], py_found(root, all.take(i), py, src), py, src) by {
        if i < steps.len() {
            assert(all.take(i) == steps.take(i));
            assert(all[i] == steps[i]);
        } else {
            assert(all.take(i) == steps);
        }
    }
}

/// Takes the rest of the walk `w` and reports, in the order walked, each
/// artifact directory with Python context (without descending into it) and
/// each `.pyc` file, none at or below a path reported before. Whether a
/// directory holds a Python project file is remembered in `py`, whether it
/// holds a `.py` file in `src`. Entries that cannot be read are skipped and
/// the walk goes on.
pub fn python_scan_in(w: &mut Walk, py: &mut StringHashMap<bool>, src: &mut StringHashMap<bool>) -> (r: Vec<CleanTarget>)
    ensures
        walked_on(*old(w), *final(w)),
        drained(*old(w), *final(w)),
        final(w).lens() == old(w).lens(),
        remembers(old(py)@, final(py)@),
        remembers(old(src)@, final(src)@),
        files_cache_said(old(py)@, python_project_files()) ==> files_cache_said(final(py)@, python_project_files()),
        source_cache_said(old(src)@) ==> source_cache_said(final(src)@),
        ({
            let found = py_found(old(w).root(), final(w).steps().skip(old(w).steps().len() as int), final(py)@, final(src)@);
            r.len() == found.len() && forall|i: int| 0 <= i < r.len() ==> (#[trigger] r@[i]).path@ == found[i]
        }),
        py_asked(old(w).root(), final(w).steps().skip(old(w).steps().len() as int), final(py)@, final(src)@),
        forall|i: int| 0 <= i < r.len() ==> python_dir_target(#[trigger] r@[i]) || python_file_target(r@[i]),
        forall|i: int| 0 <= i < r.len() && python_dir_target(#[trigger] r@[i]) ==> dir_size_of(r@[i].path@, r@[i].size),
        nested_free(r@),
{
    let ghost start = old(w).steps().len() as int;
    let ghost root = old(w).root();
    let root_str = w.root_text();
    let root_chars = chars_of(root_str.as_str());
    let mut targets: Vec<CleanTarget> = Vec::new();
    let mut dirs: Vec<Vec<char>> = Vec::new();
    // A walk cannot yield more entries than a u64 counts; the counter gives
    // the loop its measure.
    let mut budget: u64 = u64::MAX;
    while budget > 0
        invariant
            root_chars@ == root,
            w.root() == root,
            walked_on(*old(w), *w),
            w.lens() == old(w).lens(),
            w.steps().len() == start + (u64::MAX - budget),
            w.count() == old(w).count() + (u64::MAX - budget),
            remembers(old(py)@, py@),
            remembers(old(src)@, src@),
            files_cache_said(old(py)@, python_project_files()) ==> files_cache_said(py@, python_project_files()),
            source_cache_said(old(src)@) ==> source_cache_said(src@),
            py_asked(root, w.steps().skip(start), py@, src@),
            targets.len() == py_found(root, w.steps().skip(start), py@, src@).len(),
            forall|k: int|
                0 <= k < targets.len() ==> (#[trigger] targets@[k]).path@ == py_found(root, w.steps().skip(start), py@, src@)[k],
            dirs.len() == targets.len(),
            forall|k: int| 0 <= k < dirs.len() ==> (#[trigger] dirs@[k])@ == targets@[k].path@,
            forall|k: int| 0 <= k < targets.len() ==> python_dir_target(#[trigger] targets@[k]) || python_file_target(targets@[k]),
            forall|k: int| 0 <= k < targets.len() && python_dir_target(#[trigger] targets@[k]) ==> dir_size_of(targets@[k].path@, targets@[k].size),
            nested_free(targets@),
        ensures
            w.ended() || budget == 0,
            walked_on(*old(w), *w),
            w.lens() == old(w).lens(),
            w.count() == old(w).count() + (u64::MAX - budget),
            remembers(old(py)@, py@),
            remembers(old(src)@, src@),
            files_cache_said(old(py)@, python_project_files()) ==> files_cache_said(py@, python_project_files()),
            source_cache_said(old(src)@) ==> source_cache_said(src@),
            py_asked(root, w.steps().skip(start), py@, src@),
            targets.len() == py_found(root, w.steps().skip(start), py@, src@).len(),
            forall|k: int|
                0 <= k < targets.len() ==> (#[trigger] targets@[k]).path@ == py_found(root, w.steps().skip(start), py@, src@)[k],
            forall|k: int| 0 <= k < targets.len() ==> python_dir_target(#[trigger] targets@[k]) || python_file_target(targets@[k]),
            forall|k: int| 0 <= k < targets.len() && python_dir_target(#[trigger] targets@[k]) ==> dir_size_of(targets@[k].path@, targets@[k].size),
            nested_free(targets@),
        decreases budget,
    {
        let ghost steps0 = w.steps().skip(start);
        let ghost py0 = py@;
        let ghost src0 = src@;
        let ghost found0 = py_found(root, steps0, py0, src0);
        let item = w.next_visit();
        let v = match item {
            None => break,
            Some(None) => {
                proof {
                    assert(w.steps().skip(start) == steps0.push(None));
                    lemma_py_push(root, steps0, None, py0, src0);
                }
                budget -= 1;
                continue;
            },
            Some(Some(v)) => v,
        };
        budget -= 1;
        let ghost st: Step = Some((v.path@, v.is_dir, v.is_file));
        proof {
            assert(w.steps().skip(start) == steps0.push(st));
        }
        let path = chars_of(v.path.as_str());
        let under = under_any(path.as_slice(), &dirs);
        proof {
            if under {
                let k = choose|k: int| 0 <= k < dirs.len() && within(path@, #[trigger] dirs@[k]@);
                assert(found0[k] == targets@[k].path@);
            } else if under_some(path@, found0) {
                let k = choose|k: int| 0 <= k < found0.len() && within(path@, #[trigger] found0[k]);
                assert(found0[k] == targets@[k].path@);
                assert(dirs@[k]@ == targets@[k].path@);
            }
            assert(under == under_some(path@, found0));
        }
        if under || !is_within(path.as_slice(), root_chars.as_slice()) {
            proof {
                lemma_py_push(root, steps0, st, py0, src0);
            }
            continue;
        }
        let name = file_name_of(path.as_slice());
        if v.is_dir {
            if !is_python_dir_name(name.as_slice()) {
                proof {
                    lemma_py_push(root, steps0, st, py0, src0);
                }
                continue;
            }
            let parent = match parent_of(path.as_slice()) {
                Some(p) => p,
                None => {
                    proof {
                        lemma_py_push(root, steps0, st, py0, src0);
                    }
                    continue;
                },
            };
            let pd = string_of(parent.as_slice());
            let has_context = if chars_are(name.as_slice(), "__pycache__") {
                pycache_context_cached(py, src, pd.as_str())
            } else {
                has_python_context_cached(py, pd.as_str())
            };
            proof {
                lemma_py_kept(root, steps0, py0, src0, py@, src@);
                lemma_py_push(root, steps0, st, py@, src@);
            }
            if !has_context {
                continue;
            }
            let size = compute_dir_size(v.path.as_str());
            let t = CleanTarget {
                path: v.path,
                adapter: "python",
                description: python_dir_description(name.as_slice()),
                size,
            };
            let ghost old_targets = targets@;
            targets.push(t);
            dirs.push(path);
            proof {
                assert forall|i: int, j: int| 0 <= i < j < targets@.len() implies !within(
                    #[trigger] targets@[j].path@,
                    #[trigger] targets@[i].path@,
                ) by {
                    if j == old_targets.len() {
                        assert(dirs@[i]@ == targets@[i].path@);
                    } else {
                        assert(targets@[i] == old_targets[i] && targets@[j] == old_targets[j]);
                    }
                }
            }
            w.skip_current_dir();
        } else {
            proof {
                lemma_py_push(root, steps0, st, py0, src0);
            }
            if v.is_file {
                let suffix = chars_of(".pyc");
                if ends_with_chars(name.as_slice(), suffix.as_slice()) {
                    let size = match v.metadata() {
                        Some((_, len)) => len,
                        None => 0,
                    };
                    let t = CleanTarget {
                        path: v.path,
                        adapter: "python",
                        description: string_from("Python bytecode (.pyc)"),
                        size,
                    };
                    let ghost old_targets = targets@;
                    targets.push(t);
                    dirs.push(path);
                    proof {
                        lemma_python_targets_disjoint(targets@[old_targets.len() as int]);
                        assert forall|i: int, j: int| 0 <= i < j < targets@.len() implies !within(
                            #[trigger] targets@[j].path@,
                            #[trigger] targets@[i].path@,
                        ) by {
                            if j == old_targets.len() {
                                assert(dirs@[i]@ == targets@[i].path@);
                            } else {
                                assert(targets@[i] == old_targets[i] && targets@[j] == old_targets[j]);
                            }
                        }
                    }
                }
            }
        }
    }
    targets
}

} // verus!
