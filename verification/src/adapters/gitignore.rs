//! Removes every file and directory that the root `.gitignore` matches
//! (dangerous: off by default).

use vstd::prelude::*;

use crate::adapter::{compute_dir_size, nested_free, Adapter, CleanTarget, ScanError};
use crate::adapters::dirs::{step_path, under_any};
use crate::path::{has_component, has_component_of, is_within, join, join_of, relative_of, relative_to, within};
use crate::scanner::under_some;
use crate::walk::{cached_true, drained, fresh_walk, remembers, walked_on, IgnoreRules, Step, Walk};
use crate::text::{append_chars, chars_eq, chars_of, string_of};

verus! {

/// The gitignore adapter.
pub struct GitignoreAdapter;

/// A target that the gitignore adapter can report for the root `root`: a path
/// below the root, outside any `.git` directory, described by its path
/// relative to the root.
pub open spec fn gitignore_target(root: Seq<char>, t: CleanTarget) -> bool {
    &&& t.adapter@ == "gitignore"@
    &&& within(t.path@, root)
    &&& t.path@ != root
    &&& !has_component(t.path@, ".git"@)
    &&& t.description@ == "gitignore match: "@ + relative_to(t.path@, root)
}

impl Adapter for GitignoreAdapter {
    fn name(&self) -> (r: &'static str)
        ensures
            r@ == "gitignore"@,
    {
        "gitignore"
    }

    fn description(&self) -> (r: &'static str)
        ensures
            r@ == "Files and directories matched by .gitignore (dangerous)"@,
    {
        "Files and directories matched by .gitignore (dangerous)"
    }

    fn is_safe(&self) -> (r: bool)
        ensures
            !r,
    {
        false
    }

    /// Reports the paths that the `.gitignore` file at the root ignores,
    /// without descending into an ignored directory; nothing where the root
    /// has no `.gitignore` file (see [`gitignore_scan_from`], which states
    /// exactly what is reported of the walk).
    open spec fn gives(&self, root: Seq<char>, r: Result<Vec<CleanTarget>, ScanError>) -> bool {
        &&& r matches Ok(ts) ==> (forall|i: int| 0 <= i < ts.len() ==> gitignore_target(root, #[trigger] ts@[i]))
            && nested_free(ts@)
        &&& gitignore_scan_of(root, r)
    }

    fn scan(&self, root: &str) -> (r: Result<Vec<CleanTarget>, ScanError>)
        ensures
            r matches Ok(ts) ==> (forall|i: int|
                0 <= i < ts.len() ==> gitignore_target(root@, #[trigger] ts@[i])) && nested_free(ts@),
            gitignore_scan_of(root@, r),
    {
        let mut w = Walk::open(root);
        let ghost w0 = w;
        let r = gitignore_scan_from(&mut w);
        proof {
            assert(w.steps().skip(0) == w.steps());
            assert(gitignore_run(w0, w, root@, r));
        }
        r
    }
}

/// Whether a walk step is a directory.
pub open spec fn step_is_dir(s: Step) -> bool {
    match s {
        Some((_, d, _)) => d,
        None => false,
    }
}

/// The answer that `dm` (directories) or `fm` (other entries) gives for `rel`.
pub open spec fn ignore_answer(dm: Map<Seq<char>, bool>, fm: Map<Seq<char>, bool>, rel: Seq<char>, is_dir: bool) -> bool {
    if is_dir {
        cached_true(dm, rel)
    } else {
        cached_true(fm, rel)
    }
}

/// Whether the walk step `s` is one the matcher is asked about: an entry
/// below `root`, outside any `.git` directory, at or below none of the paths
/// `found` reported before.
pub open spec fn ignore_candidate(root: Seq<char>, s: Step, found: Seq<Seq<char>>) -> bool {
    match s {
        Some((p, _, _)) => p != root && !has_component(p, ".git"@) && within(p, root) && !under_some(p, found),
        None => false,
    }
}

/// The paths that the gitignore adapter reports for the walk steps `steps`
/// of a walk of `root`, in order, given the matcher's answers.
pub open spec fn ignore_found(root: Seq<char>, steps: Seq<Step>, dm: Map<Seq<char>, bool>, fm: Map<Seq<char>, bool>) -> Seq<Seq<char>>
    decreases steps.len(),
{
    if steps.len() == 0 {
        Seq::empty()
    } else {
        let prev = ignore_found(root, steps.drop_last(), dm, fm);
        let s = steps.last();
        if ignore_candidate(root, s, prev) && ignore_answer(dm, fm, relative_to(step_path(s), root), step_is_dir(s)) {
            prev.push(step_path(s))
        } else {
            prev
        }
    }
}

/// Whether `dm` (directories) or `fm` (other entries) holds an answer for
/// `rel`.
pub open spec fn ignore_answered(dm: Map<Seq<char>, bool>, fm: Map<Seq<char>, bool>, rel: Seq<char>, is_dir: bool) -> bool {
    if is_dir {
        dm.contains_key(rel)
    } else {
        fm.contains_key(rel)
    }
}

/// Whether the matcher was asked about the walk step `s` where it is a
/// candidate.
pub open spec fn ignore_asked_at(root: Seq<char>, s: Step, found: Seq<Seq<char>>, dm: Map<Seq<char>, bool>, fm: Map<Seq<char>, bool>) -> bool {
    ignore_candidate(root, s, found) ==> ignore_answered(dm, fm, relative_to(step_path(s), root), step_is_dir(s))
}

/// Whether the matcher was asked about each candidate among `steps`.
pub open spec fn ignore_asked(root: Seq<char>, steps: Seq<Step>, dm: Map<Seq<char>, bool>, fm: Map<Seq<char>, bool>) -> bool {
    forall|i: int|
        0 <= i < steps.len() ==> ignore_asked_at(root, #[trigger] steps[i], ignore_found(root, steps.take(i), dm, fm), dm, fm)
}

proof fn lemma_ignore_at_kept(
    root: Seq<char>,
    s: Step,
    found: Seq<Seq<char>>,
    dm: Map<Seq<char>, bool>,
    fm: Map<Seq<char>, bool>,
    dm2: Map<Seq<char>, bool>,
    fm2: Map<Seq<char>, bool>,
)
    requires
        ignore_asked_at(root, s, found, dm, fm),
        remembers(dm, dm2),
        remembers(fm, fm2),
    ensures
        ignore_asked_at(root, s, found, dm2, fm2),
        ignore_answer(dm2, fm2, relative_to(step_path(s), root), step_is_dir(s)) == ignore_answer(
            dm,
            fm,
            relative_to(step_path(s), root),
            step_is_dir(s),
        ) || !ignore_candidate(root, s, found),
{
    let rel = relative_to(step_path(s), root);
    if ignore_candidate(root, s, found) {
        if step_is_dir(s) {
            assert(dm.contains_key(rel));
        } else {
            assert(fm.contains_key(rel));
        }
    }
}

#[verifier::spinoff_prover]
#[verifier::rlimit(30)]
proof fn lemma_ignore_kept(
    root: Seq<char>,
    steps: Seq<Step>,
    dm: Map<Seq<char>, bool>,
    fm: Map<Seq<char>, bool>,
    dm2: Map<Seq<char>, bool>,
    fm2: Map<Seq<char>, bool>,
)
    requires
        ignore_asked(root, steps, dm, fm),
        remembers(dm, dm2),
        remembers(fm, fm2),
    ensures
        ignore_found(root, steps, dm2, fm2) == ignore_found(root, steps, dm, fm),
        ignore_asked(root, steps, dm2, fm2),
    decreases steps.len(),
{
    if steps.len() > 0 {
        let init = steps.drop_last();
        assert forall|i: int| 0 <= i < init.len() implies ignore_asked_at(root, #[trigger] init[i], ignore_found(root, init.take(i), dm, fm), dm, fm) by {
            assert(init.take(i) == steps.take(i));
            assert(init[i] == steps[i]);
        }
        lemma_ignore_kept(root, init, dm, fm, dm2, fm2);
        let last = steps.len() - 1;
        assert(steps.take(last) == init);
        assert(steps[last] == steps.last());
        lemma_ignore_at_kept(root, steps.last(), ignore_found(root, init, dm, fm), dm, fm, dm2, fm2);
        assert forall|i: int| 0 <= i < steps.len() implies ignore_asked_at(root, #[trigger] steps[i], ignore_found(root, steps.take(i), dm2, fm2), dm2, fm2) by {
            if i < last {
                assert(init.take(i) == steps.take(i));
                assert(init[i] == steps[i]);
            }
        }
    }
}

proof fn lemma_ignore_push(root: Seq<char>, steps: Seq<Step>, s: Step, dm: Map<Seq<char>, bool>, fm: Map<Seq<char>, bool>)
    requires
        ignore_asked(root, steps, dm, fm),
        ignore_asked_at(root, s, ignore_found(root, steps, dm, fm), dm, fm),
    ensures
        ignore_asked(root, steps.push(s), dm, fm),
        ignore_found(root, steps.push(s), dm, fm) == if ignore_candidate(root, s, ignore_found(root, steps, dm, fm))
            && ignore_answer(dm, fm, relative_to(step_path(s), root), step_is_dir(s)) {
            ignore_found(root, steps, dm, fm).push(step_path(s))
        } else {
            ignore_found(root, steps, dm, fm)
        },
{
    let all = steps.push(s);
    assert(all.drop_last() == steps);
    assert forall|i: int| 0 <= i < all.len() implies ignore_asked_at(root, #[trigger] all[i], ignore_found(root, all.take(i), dm, fm), dm, fm) by {
        if i < steps.len() {
            assert(all.take(i) == steps.take(i));
            assert(all[i] == steps[i]);
        } else {
            assert(all.take(i) == steps);
        }
    }
}

/// Takes the rest of the walk `w` of the root and reports, in the order
/// walked, each entry below the root, outside any `.git` directory and at
/// or below no path reported before, that `rules` ignores, without
/// descending into it. Entries that cannot be read are skipped and the walk
/// goes on.
pub fn gitignore_scan_in(w: &mut Walk, rules: &mut IgnoreRules) -> (r: Vec<CleanTarget>)
    ensures
        walked_on(*old(w), *final(w)),
        drained(*old(w), *final(w)),
        final(w).lens() == old(w).lens(),
        remembers(old(rules).dir_answers(), final(rules).dir_answers()),
        remembers(old(rules).other_answers(), final(rules).other_answers()),
        ({
            let found = ignore_found(
                old(w).root(),
                final(w).steps().skip(old(w).steps().len() as int),
                final(rules).dir_answers(),
                final(rules).other_answers(),
            );
            r.len() == found.len() && forall|i: int| 0 <= i < r.len() ==> (#[trigger] r@[i]).path@ == found[i]
        }),
        ignore_asked(
            old(w).root(),
            final(w).steps().skip(old(w).steps().len() as int),
            final(rules).dir_answers(),
            final(rules).other_answers(),
        ),
        forall|i: int| 0 <= i < r.len() ==> gitignore_target(old(w).root(), #[trigger] r@[i]),
        nested_free(r@),
{
    let ghost start = old(w).steps().len() as int;
    let ghost root = old(w).root();
    let root_str = w.root_text();
    let root_chars = chars_of(root_str.as_str());
    let git = chars_of(".git");
    let mut targets: Vec<CleanTarget> = Vec::new();
    let mut dirs: Vec<Vec<char>> = Vec::new();
    let mut budget: u64 = u64::MAX;
    while budget > 0
        invariant
            root_chars@ == root,
            git@ == ".git"@,
            w.root() == root,
            walked_on(*old(w), *w),
            w.lens() == old(w).lens(),
            w.steps().len() == start + (u64::MAX - budget),
            w.count() == old(w).count() + (u64::MAX - budget),
            remembers(old(rules).dir_answers(), rules.dir_answers()),
            remembers(old(rules).other_answers(), rules.other_answers()),
            ignore_asked(root, w.steps().skip(start), rules.dir_answers(), rules.other_answers()),
            targets.len() == ignore_found(root, w.steps().skip(start), rules.dir_answers(), rules.other_answers()).len(),
            forall|k: int|
                0 <= k < targets.len() ==> (#[trigger] targets@[k]).path@ == ignore_found(
                    root,
                    w.steps().skip(start),
                    rules.dir_answers(),
                    rules.other_answers(),
                )[k],
            dirs.len() == targets.len(),
            forall|k: int| 0 <= k < dirs.len() ==> (#[trigger] dirs@[k])@ == targets@[k].path@,
            forall|k: int| 0 <= k < targets.len() ==> gitignore_target(root, #[trigger] targets@[k]),
            nested_free(targets@),
        ensures
            w.ended() || budget == 0,
            walked_on(*old(w), *w),
            w.lens() == old(w).lens(),
            w.count() == old(w).count() + (u64::MAX - budget),
            remembers(old(rules).dir_answers(), rules.dir_answers()),
            remembers(old(rules).other_answers(), rules.other_answers()),
            ignore_asked(root, w.steps().skip(start), rules.dir_answers(), rules.other_answers()),
            targets.len() == ignore_found(root, w.steps().skip(start), rules.dir_answers(), rules.other_answers()).len(),
            forall|k: int|
                0 <= k < targets.len() ==> (#[trigger] targets@[k]).path@ == ignore_found(
                    root,
                    w.steps().skip(start),
                    rules.dir_answers(),
                    rules.other_answers(),
                )[k],
            forall|k: int| 0 <= k < targets.len() ==> gitignore_target(root, #[trigger] targets@[k]),
            nested_free(targets@),
        decreases budget,
    {
        let ghost steps0 = w.steps().skip(start);
        let ghost dm0 = rules.dir_answers();
        let ghost fm0 = rules.other_answers();
        let ghost found0 = ignore_found(root, steps0, dm0, fm0);
        let item = w.next_visit();
        let v = match item {
            None => break,
            Some(None) => {
                proof {
                    assert(w.steps().skip(start) == steps0.push(None));
                    lemma_ignore_push(root, steps0, None, dm0, fm0);
                }
                budget -= 1;
                continue;
            },
            Some(Some(v)) => v,
        };
        budget -= 1;
        let ghost st: Step = Some((v.path@, v.is_dir, v.is_file));
        proof {
            assert(w.steps().skip(start) == steps0.push(st));
            assert(step_path(st) == v.path@);
        }
        let path = chars_of(v.path.as_str());
        assert(git@.len() > 0) by {
            reveal_strlit(".git");
        }
        let skip = chars_eq(path.as_slice(), root_chars.as_slice()) || has_component_of(path.as_slice(), git.as_slice())
            || !is_within(path.as_slice(), root_chars.as_slice()) || under_any(path.as_slice(), &dirs);
        proof {
            if under_any_spec(path@, dirs@) {
                let k = choose|k: int| 0 <= k < dirs.len() && within(path@, #[trigger] dirs@[k]@);
                assert(found0[k] == targets@[k].path@);
            }
            if under_some(path@, found0) {
                let k = choose|k: int| 0 <= k < found0.len() && within(path@, #[trigger] found0[k]);
                assert(found0[k] == targets@[k].path@);
                assert(dirs@[k]@ == targets@[k].path@);
            }
            assert(skip == !ignore_candidate(root, st, found0));
        }
        if skip {
            proof {
                lemma_ignore_push(root, steps0, st, dm0, fm0);
            }
            continue;
        }
        let rel = relative_of(path.as_slice(), root_chars.as_slice());
        let rel_str = string_of(rel.as_slice());
        let is_dir = v.is_dir;
        let ignored = rules.ignores(rel_str.as_str(), is_dir);
        proof {
            lemma_ignore_kept(root, steps0, dm0, fm0, rules.dir_answers(), rules.other_answers());
            lemma_ignore_push(root, steps0, st, rules.dir_answers(), rules.other_answers());
        }
        if ignored {
            let size = if is_dir {
                compute_dir_size(v.path.as_str())
            } else {
                match v.metadata() {
                    Some((_, len)) => len,
                    None => 0,
                }
            };
            let mut desc = chars_of("gitignore match: ");
            append_chars(&mut desc, rel.as_slice());
            let t = CleanTarget {
                path: v.path,
                adapter: "gitignore",
                description: string_of(desc.as_slice()),
                size,
            };
            let ghost old_targets = targets@;
            targets.push(t);
            dirs.push(path);
            proof {
                assert forall|i: int, j: int| 0 <= i < j < targets@.len() implies !within(
                    #[trigger] targets@[j].path@,
                    #[trigger] targets@[i].path@,
                ) by {
                    if j == old_targets.len() {
                        assert(dirs@[i]@ == targets@[i].path@);
                    } else {
                        assert(targets@[i] == old_targets[i] && targets@[j] == old_targets[j]);
                    }
                }
            }
            if is_dir {
                w.skip_current_dir();
            }
        }
    }
    targets
}

/// Whether `p` lies at or below one of `dirs`.
pub open spec fn under_any_spec(p: Seq<char>, dirs: Seq<Vec<char>>) -> bool {
    exists|k: int| 0 <= k < dirs.len() && within(p, #[trigger] dirs[k]@)
}

/// Reports what the `.gitignore` file at the root of the walk `w` ignores
/// (see [`gitignore_scan_in`]); nothing, without walking, where the disk
/// answers that there is no such file; the error of the matcher where it
/// cannot be built.
pub fn gitignore_scan_from(w: &mut Walk) -> (r: Result<Vec<CleanTarget>, ScanError>)
    ensures
        walked_on(*old(w), *final(w)),
        final(w).answers().contains_key(join(old(w).root(), ".gitignore"@)),
        !final(w).answers()[join(old(w).root(), ".gitignore"@)] ==> (r matches Ok(ts) && ts.len() == 0
            && final(w).steps() == old(w).steps()),
        r is Err ==> final(w).answers()[join(old(w).root(), ".gitignore"@)] && final(w).steps() == old(w).steps(),
        r matches Ok(ts) ==> (forall|i: int|
            0 <= i < ts.len() ==> gitignore_target(old(w).root(), #[trigger] ts@[i])) && nested_free(ts@),
        r matches Ok(ts) ==> ignore_walked(*old(w), *final(w), ts@),
{
    let root = w.root_text();
    let root_chars = chars_of(root.as_str());
    let present = w.has_file(root_chars.as_slice(), ".gitignore");
    if !present {
        return Ok(Vec::new());
    }
    let file_name = chars_of(".gitignore");
    let gi_path = string_of(join_of(root_chars.as_slice(), file_name.as_slice()).as_slice());
    let mut rules = match IgnoreRules::build(root.as_str(), gi_path.as_str()) {
        Ok(g) => g,
        Err(e) => return Err(ScanError::InvalidGitignore(e)),
    };
    let ts = gitignore_scan_in(w, &mut rules);
    proof {
        assert(ignore_found_by(
            root@,
            w.steps().skip(old(w).steps().len() as int),
            rules.dir_answers(),
            rules.other_answers(),
            ts@,
        ));
        assert(exists|dm: Map<Seq<char>, bool>, fm: Map<Seq<char>, bool>| #[trigger]
            ignore_found_by(old(w).root(), w.steps().skip(old(w).steps().len() as int), dm, fm, ts@));
        assert(drained(*old(w), *w));
        assert(ignore_walked(*old(w), *w, ts@));
    }
    Ok(ts)
}

/// Where the disk answered that `root/.gitignore` exists (`root` the root of
/// `w0`), `w1` is `w0` taken to its end and `ts` are, in order, the paths
/// that the gitignore adapter reports for the steps taken in between.
pub open spec fn ignore_walked(w0: Walk, w1: Walk, ts: Seq<CleanTarget>) -> bool {
    w1.answers()[join(w0.root(), ".gitignore"@)] ==> drained(w0, w1) && exists|
        dm: Map<Seq<char>, bool>,
        fm: Map<Seq<char>, bool>,
    | #[trigger] ignore_found_by(w0.root(), w1.steps().skip(w0.steps().len() as int), dm, fm, ts)
}

/// `ts` are, in order, the paths that the gitignore adapter reports for the
/// walk steps `steps` of a walk of `root`, by the matcher's answers `dm` and
/// `fm`, which hold all that was needed.
pub open spec fn ignore_found_by(root: Seq<char>, steps: Seq<Step>, dm: Map<Seq<char>, bool>, fm: Map<Seq<char>, bool>, ts: Seq<CleanTarget>) -> bool {
    &&& ts.len() == ignore_found(root, steps, dm, fm).len()
    &&& forall|i: int| 0 <= i < ts.len() ==> (#[trigger] ts[i]).path@ == ignore_found(root, steps, dm, fm)[i]
    &&& ignore_asked(root, steps, dm, fm)
}

/// What the gitignore adapter gives for `root`, by a walk of `root` (`w0`
/// just opened, `w1` the same walk afterwards): the disk is asked whether
/// `root/.gitignore` exists; where it does not, nothing, without walking;
/// the matcher's error where it cannot be built; else the paths that
/// [`ignore_found`] gives for the walk taken to its end.
pub open spec fn gitignore_scan_of(root: Seq<char>, r: Result<Vec<CleanTarget>, ScanError>) -> bool {
    exists|w0: Walk, w1: Walk| #[trigger] gitignore_run(w0, w1, root, r)
}

/// See [`gitignore_scan_of`].
pub open spec fn gitignore_run(w0: Walk, w1: Walk, root: Seq<char>, r: Result<Vec<CleanTarget>, ScanError>) -> bool {
    let gi = join(root, ".gitignore"@);
    &&& fresh_walk(w0, root)
    &&& walked_on(w0, w1)
    &&& w1.answers().contains_key(gi)
    &&& !w1.answers()[gi] ==> (r matches Ok(ts) && ts.len() == 0)
    &&& r is Err ==> w1.answers()[gi]
    &&& r matches Ok(ts) ==> ignore_walked(w0, w1, ts@)
}

} // verus!
