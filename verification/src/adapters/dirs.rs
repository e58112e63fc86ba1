//! The adapters that clean one kind of directory beside a context file.

use vstd::prelude::*;

use crate::adapter::{compute_dir_size, dir_size_of, nested_free, CleanTarget};
use crate::path::{file_name, file_name_of, is_within, join, join_of, parent, parent_of, within};
use crate::walk::{
    any_file_said, cached_true, drained, file_said, probe_said, remembers, walk_run, walked_on, Probe, Step,
    Walk,
};
use crate::text::{append_chars, chars_are, chars_of, string_from, string_of};

verus! {

/// Which kind of directory an adapter cleans, and beside which file.
#[derive(Clone, Copy, Debug, PartialEq, Eq)]
pub enum DirRule {
    /// `node_modules/` beside `package.json`.
    Node,
    /// `target/` beside `Cargo.toml`.
    Cargo,
    /// `vendor/` beside `go.mod`.
    Go,
    /// `.gradle/` and `build/` beside `build.gradle` or `build.gradle.kts`.
    Gradle,
    /// `target/` beside `pom.xml`.
    Maven,
    /// `_build/` beside `dune-project`.
    Ocaml,
}

/// The adapter name of a rule.
pub open spec fn rule_adapter(rule: DirRule) -> Seq<char> {
    match rule {
        DirRule::Node => "node"@,
        DirRule::Cargo => "cargo"@,
        DirRule::Go => "go"@,
        DirRule::Gradle => "gradle"@,
        DirRule::Maven => "maven"@,
        DirRule::Ocaml => "ocaml"@,
    }
}

/// Whether a directory named `name` is of the kind the rule cleans.
pub open spec fn rule_matches(rule: DirRule, name: Seq<char>) -> bool {
    match rule {
        DirRule::Node => name == "node_modules"@,
        DirRule::Cargo => name == "target"@,
        DirRule::Go => name == "vendor"@,
        DirRule::Gradle => name == ".gradle"@ || name == "build"@,
        DirRule::Maven => name == "target"@,
        DirRule::Ocaml => name == "_build"@,
    }
}

/// The description of a directory named `name` that the rule cleans.
pub open spec fn rule_description(rule: DirRule, name: Seq<char>) -> Seq<char> {
    match rule {
        DirRule::Node => "Node.js dependencies (node_modules/)"@,
        DirRule::Cargo => "Cargo build artifacts (target/)"@,
        DirRule::Go => "Go vendor directory (vendor/)"@,
        DirRule::Gradle => "Gradle build artifact ("@ + name + "/)"@,
        DirRule::Maven => "Maven build artifacts (target/)"@,
        DirRule::Ocaml => "OCaml/dune build artifacts (_build/)"@,
    }
}

/// Whether `t` is a target that the rule can report: its adapter, the name of
/// its directory and its description agree with the rule.
pub open spec fn rule_target(rule: DirRule, t: CleanTarget) -> bool {
    &&& t.adapter@ == rule_adapter(rule)
    &&& rule_matches(rule, file_name(t.path@))
    &&& t.description@ == rule_description(rule, file_name(t.path@))
}

/// The adapter name of a rule.
pub fn rule_adapter_name(rule: DirRule) -> (r: &'static str)
    ensures
        r@ == rule_adapter(rule),
{
    match rule {
        DirRule::Node => "node",
        DirRule::Cargo => "cargo",
        DirRule::Go => "go",
        DirRule::Gradle => "gradle",
        DirRule::Maven => "maven",
        DirRule::Ocaml => "ocaml",
    }
}

/// Whether a directory named `name` is of the kind the rule cleans.
pub fn rule_name_matches(rule: DirRule, name: &[char]) -> (r: bool)
    ensures
        r == rule_matches(rule, name@),
{
    match rule {
        DirRule::Node => chars_are(name, "node_modules"),
        DirRule::Cargo => chars_are(name, "target"),
        DirRule::Go => chars_are(name, "vendor"),
        DirRule::Gradle => chars_are(name, ".gradle") || chars_are(name, "build"),
        DirRule::Maven => chars_are(name, "target"),
        DirRule::Ocaml => chars_are(name, "_build"),
    }
}

/// The description of a directory named `name` that the rule cleans.
pub fn rule_describe(rule: DirRule, name: &[char]) -> (r: String)
    ensures
        r@ == rule_description(rule, name@),
{
    match rule {
        DirRule::Node => string_from("Node.js dependencies (node_modules/)"),
        DirRule::Cargo => string_from("Cargo build artifacts (target/)"),
        DirRule::Go => string_from("Go vendor directory (vendor/)"),
        DirRule::Gradle => {
            let mut v = chars_of("Gradle build artifact (");
            append_chars(&mut v, name);
            let tail = chars_of("/)");
            append_chars(&mut v, tail.as_slice());
            string_of(v.as_slice())
        },
        DirRule::Maven => string_from("Maven build artifacts (target/)"),
        DirRule::Ocaml => string_from("OCaml/dune build artifacts (_build/)"),
    }
}

/// Whether the file `name` exists in the directory `dir`.
pub fn has_file(dir: &[char], name: &str) -> (r: bool)
    ensures
        file_said(dir@, name@, r),
{
    let mut p = Probe::new();
    let r = p.has_file(dir, name);
    proof {
        assert(probe_said(p, join(dir@, name@), r));
    }
    r
}

/// The files beside a directory that give the gradle adapter its context.
pub open spec fn gradle_files() -> Seq<Seq<char>> {
    seq!["build.gradle"@, "build.gradle.kts"@]
}

/// Whether `v` is what the disk said of the rule's context files in `dir`:
/// for gradle, one of `build.gradle` and `build.gradle.kts` exists (or
/// neither does); for the others, their single file exists (or not).
pub open spec fn rule_said(rule: DirRule, dir: Seq<char>, v: bool) -> bool {
    match rule {
        DirRule::Gradle => any_file_said(dir, gradle_files(), v),
        _ => file_said(dir, rule_marker(rule), v),
    }
}

/// Whether the directory `dir` holds the file that the rule needs beside a
/// directory it cleans.
pub fn rule_has_context(rule: DirRule, dir: &[char]) -> (r: bool)
    ensures
        rule_said(rule, dir@, r),
{
    match rule {
        DirRule::Node => has_file(dir, "package.json"),
        DirRule::Cargo => has_file(dir, "Cargo.toml"),
        DirRule::Go => has_file(dir, "go.mod"),
        DirRule::Gradle => crate::adapters::gradle::has_gradle_context(dir),
        DirRule::Maven => has_file(dir, "pom.xml"),
        DirRule::Ocaml => crate::adapters::ocaml::has_ocaml_context(dir),
    }
}

/// Whether `p` lies at or below one of `dirs`.
pub fn under_any(p: &[char], dirs: &Vec<Vec<char>>) -> (r: bool)
    ensures
        r == exists|k: int| 0 <= k < dirs.len() && within(p@, #[trigger] dirs@[k]@),
{
    let mut k: usize = 0;
    while k < dirs.len()
        invariant
            k <= dirs.len(),
            forall|m: int| 0 <= m < k ==> !within(p@, #[trigger] dirs@[m]@),
        decreases dirs.len() - k,
    {
        if is_within(p, dirs[k].as_slice()) {
            return true;
        }
        k += 1;
    }
    false
}

/// The file whose presence beside a directory the rule asks for first
/// (`build.gradle` for gradle, which then asks for `build.gradle.kts`).
pub open spec fn rule_marker(rule: DirRule) -> Seq<char> {
    match rule {
        DirRule::Node => "package.json"@,
        DirRule::Cargo => "Cargo.toml"@,
        DirRule::Go => "go.mod"@,
        DirRule::Gradle => "build.gradle"@,
        DirRule::Maven => "pom.xml"@,
        DirRule::Ocaml => "dune-project"@,
    }
}

/// The path of an entry that a walk gave back.
pub open spec fn step_path(s: Step) -> Seq<char> {
    match s {
        Some((p, _, _)) => p,
        None => Seq::empty(),
    }
}

/// Whether the answers `m` say that `dir` holds the rule's context file.
pub open spec fn rule_context(rule: DirRule, dir: Seq<char>, m: Map<Seq<char>, bool>) -> bool {
    match rule {
        DirRule::Gradle => cached_true(m, join(dir, "build.gradle"@)) || cached_true(
            m,
            join(dir, "build.gradle.kts"@),
        ),
        _ => cached_true(m, join(dir, rule_marker(rule))),
    }
}

/// Whether the answers `m` hold what the rule asks of `dir`.
pub open spec fn rule_asked(rule: DirRule, dir: Seq<char>, m: Map<Seq<char>, bool>) -> bool {
    match rule {
        DirRule::Gradle => m.contains_key(join(dir, "build.gradle"@)) && (m[join(dir, "build.gradle"@)]
            || m.contains_key(join(dir, "build.gradle.kts"@))),
        _ => m.contains_key(join(dir, rule_marker(rule))),
    }
}

/// The directory in which the rule looks for its context file for the walk
/// step `step` of a walk of `root`, the paths `found` having been reported
/// before: the step must be a directory of the rule's name within `root`, at
/// or below none of them, with a parent.
pub open spec fn rule_candidate(rule: DirRule, root: Seq<char>, step: Step, found: Seq<Seq<char>>) -> Option<Seq<char>> {
    match step {
        Some((p, true, _)) => if !(exists|k: int| 0 <= k < found.len() && within(p, #[trigger] found[k]))
            && within(p, root) && rule_matches(rule, file_name(p)) {
            parent(p)
        } else {
            None
        },
        _ => None,
    }
}

/// The paths that the rule reports for the walk steps `steps`, in order,
/// given the answers `m`: each candidate whose parent holds the context file.
pub open spec fn rule_found(rule: DirRule, root: Seq<char>, steps: Seq<Step>, m: Map<Seq<char>, bool>) -> Seq<Seq<char>>
    decreases steps.len(),
{
    if steps.len() == 0 {
        Seq::empty()
    } else {
        let prev = rule_found(rule, root, steps.drop_last(), m);
        match rule_candidate(rule, root, steps.last(), prev) {
            Some(d) => if rule_context(rule, d, m) {
                prev.push(step_path(steps.last()))
            } else {
                prev
            },
            None => prev,
        }
    }
}

/// Whether the answers `m` hold what the rule asks for each candidate among
/// `steps`.
pub open spec fn rule_all_asked(rule: DirRule, root: Seq<char>, steps: Seq<Step>, m: Map<Seq<char>, bool>) -> bool {
    forall|i: int|
        0 <= i < steps.len() ==> match rule_candidate(rule, root, #[trigger] steps[i], rule_found(rule, root, steps.take(i), m)) {
            Some(d) => rule_asked(rule, d, m),
            None => true,
        }
}

proof fn lemma_rule_context_kept(rule: DirRule, dir: Seq<char>, m: Map<Seq<char>, bool>, m2: Map<Seq<char>, bool>)
    requires
        rule_asked(rule, dir, m),
        remembers(m, m2),
    ensures
        rule_asked(rule, dir, m2),
        rule_context(rule, dir, m2) == rule_context(rule, dir, m),
{
    assert(m.contains_key(join(dir, rule_marker(rule))));
    if rule == DirRule::Gradle {
        assert(m.contains_key(join(dir, "build.gradle"@)));
        if !m[join(dir, "build.gradle"@)] {
            assert(m.contains_key(join(dir, "build.gradle.kts"@)));
        }
    }
}

/// More answers change nothing that the rule found where it asked all it
/// needed.
#[verifier::spinoff_prover]
#[verifier::rlimit(30)]
proof fn lemma_rule_found_kept(rule: DirRule, root: Seq<char>, steps: Seq<Step>, m: Map<Seq<char>, bool>, m2: Map<Seq<char>, bool>)
    requires
        rule_all_asked(rule, root, steps, m),
        remembers(m, m2),
    ensures
        rule_found(rule, root, steps, m2) == rule_found(rule, root, steps, m),
        rule_all_asked(rule, root, steps, m2),
    decreases steps.len(),
{
    if steps.len() > 0 {
        let init = steps.drop_last();
        assert forall|i: int| 0 <= i < init.len() implies match rule_candidate(rule, root, #[trigger] init[i], rule_found(rule, root, init.take(i), m)) {
            Some(d) => rule_asked(rule, d, m),
            None => true,
        } by {
            assert(init.take(i) == steps.take(i));
            assert(init[i] == steps[i]);
        }
        lemma_rule_found_kept(rule, root, init, m, m2);
        let last = steps.len() - 1;
        assert(steps.take(last) == init);
        assert(steps[last] == steps.last());
        if let Some(d) = rule_candidate(rule, root, steps.last(), rule_found(rule, root, init, m)) {
            lemma_rule_context_kept(rule, d, m, m2);
        }
        assert forall|i: int| 0 <= i < steps.len() implies match rule_candidate(rule, root, #[trigger] steps[i], rule_found(rule, root, steps.take(i), m2)) {
            Some(d) => rule_asked(rule, d, m2),
            None => true,
        } by {
            if i < last {
                assert(init.take(i) == steps.take(i));
                assert(init[i] == steps[i]);
            }
        }
    }
}

/// One more step: what the rule found grows by what it makes of the step.
proof fn lemma_rule_found_push(rule: DirRule, root: Seq<char>, steps: Seq<Step>, s: Step, m: Map<Seq<char>, bool>)
    requires
        rule_all_asked(rule, root, steps, m),
        rule_candidate(rule, root, s, rule_found(rule, root, steps, m)) matches Some(d) ==> rule_asked(rule, d, m),
    ensures
        rule_all_asked(rule, root, steps.push(s), m),
        rule_found(rule, root, steps.push(s), m) == match rule_candidate(rule, root, s, rule_found(rule, root, steps, m)) {
            Some(d) => if rule_context(rule, d, m) {
                rule_found(rule, root, steps, m).push(step_path(s))
            } else {
                rule_found(rule, root, steps, m)
            },
            None => rule_found(rule, root, steps, m),
        },
{
    let all = steps.push(s);
    assert(all.drop_last() == steps);
    assert forall|i: int| 0 <= i < all.len() implies match rule_candidate(rule, root, #[trigger] all[i], rule_found(rule, root, all.take(i), m)) {
        Some(d) => rule_asked(rule, d, m),
        None => true,
    } by {
        if i < steps.len() {
            assert(all.take(i) == steps.take(i));
            assert(all[i] == steps[i]);
        } else {
            assert(all.take(i) == steps);
        }
    }
}

/// Whether the walk's answers say that `dir` holds the file that the rule
/// needs beside a directory it cleans; asked of the disk once per path.
pub fn rule_context_in(w: &mut Walk, rule: DirRule, dir: &[char]) -> (r: bool)
    ensures
        walked_on(*old(w), *final(w)),
        final(w).steps() == old(w).steps(),
        final(w).lens() == old(w).lens(),
        final(w).ended() == old(w).ended(),
        r == rule_context(rule, dir@, final(w).answers()),
        rule_asked(rule, dir@, final(w).answers()),
{
    match rule {
        DirRule::Node => w.has_file(dir, "package.json"),
        DirRule::Cargo => w.has_file(dir, "Cargo.toml"),
        DirRule::Go => w.has_file(dir, "go.mod"),
        DirRule::Gradle => {
            if w.has_file(dir, "build.gradle") {
                true
            } else {
                let ghost mid = w.answers();
                let r = w.has_file(dir, "build.gradle.kts");
                assert(mid.contains_key(join(dir@, "build.gradle"@)));
                r
            }
        },
        DirRule::Maven => w.has_file(dir, "pom.xml"),
        DirRule::Ocaml => w.has_file(dir, "dune-project"),
    }
}

/// Takes the rest of the walk `w` and reports, in the order walked, each
/// directory of the kind the rule cleans that lies at or below no directory
/// reported before and whose parent holds the rule's context file, without
/// descending into it. Entries that cannot be read are skipped and the walk
/// goes on. The size of each directory is computed.
pub fn scan_dirs_in(w: &mut Walk, rule: DirRule) -> (r: Vec<CleanTarget>)
    ensures
        walked_on(*old(w), *final(w)),
        drained(*old(w), *final(w)),
        final(w).lens() == old(w).lens(),
        ({
            let found = rule_found(rule, old(w).root(), final(w).steps().skip(old(w).steps().len() as int), final(w).answers());
            r.len() == found.len() && forall|i: int| 0 <= i < r.len() ==> (#[trigger] r@[i]).path@ == found[i]
        }),
        rule_all_asked(rule, old(w).root(), final(w).steps().skip(old(w).steps().len() as int), final(w).answers()),
        forall|i: int| 0 <= i < r.len() ==> rule_target(rule, #[trigger] r@[i]),
        forall|i: int| 0 <= i < r.len() ==> dir_size_of(#[trigger] r@[i].path@, r@[i].size),
        nested_free(r@),
{
    let ghost start = old(w).steps().len() as int;
    let ghost root = old(w).root();
    let root_str = w.root_text();
    let root_chars = chars_of(root_str.as_str());
    let mut targets: Vec<CleanTarget> = Vec::new();
    let mut dirs: Vec<Vec<char>> = Vec::new();
    // A walk cannot yield more entries than a u64 counts; the counter gives
    // the loop its measure.
    let mut budget: u64 = u64::MAX;
    while budget > 0
        invariant
            root_chars@ == root,
            w.root() == root,
            walked_on(*old(w), *w),
            w.lens() == old(w).lens(),
            w.steps().len() == start + (u64::MAX - budget),
            w.count() == old(w).count() + (u64::MAX - budget),
            rule_all_asked(rule, root, w.steps().skip(start), w.answers()),
            targets.len() == rule_found(rule, root, w.steps().skip(start), w.answers()).len(),
            forall|k: int|
                0 <= k < targets.len() ==> (#[trigger] targets@[k]).path@ == rule_found(
                    rule,
                    root,
                    w.steps().skip(start),
                    w.answers(),
                )[k],
            dirs.len() == targets.len(),
            forall|k: int| 0 <= k < dirs.len() ==> (#[trigger] dirs@[k])@ == targets@[k].path@,
            forall|k: int| 0 <= k < targets.len() ==> rule_target(rule, #[trigger] targets@[k]),
            forall|k: int| 0 <= k < targets.len() ==> dir_size_of(#[trigger] targets@[k].path@, targets@[k].size),
            nested_free(targets@),
        ensures
            w.ended() || budget == 0,
            walked_on(*old(w), *w),
            w.lens() == old(w).lens(),
            w.count() == old(w).count() + (u64::MAX - budget),
            rule_all_asked(rule, root, w.steps().skip(start), w.answers()),
            targets.len() == rule_found(rule, root, w.steps().skip(start), w.answers()).len(),
            forall|k: int|
                0 <= k < targets.len() ==> (#[trigger] targets@[k]).path@ == rule_found(
                    rule,
                    root,
                    w.steps().skip(start),
                    w.answers(),
                )[k],
            forall|k: int| 0 <= k < targets.len() ==> rule_target(rule, #[trigger] targets@[k]),
            forall|k: int| 0 <= k < targets.len() ==> dir_size_of(#[trigger] targets@[k].path@, targets@[k].size),
            nested_free(targets@),
        decreases budget,
    {
        let ghost steps0 = w.steps().skip(start);
        let ghost found0 = rule_found(rule, root, steps0, w.answers());
        let ghost m0 = w.answers();
        let item = w.next_visit();
        let v = match item {
            None => break,
            Some(None) => {
                proof {
                    assert(w.steps().skip(start) == steps0.push(None));
                    lemma_rule_found_push(rule, root, steps0, None, m0);
                }
                budget -= 1;
                continue;
            },
            Some(Some(v)) => v,
        };
        budget -= 1;
        let ghost s: Step = Some((v.path@, v.is_dir, v.is_file));
        proof {
            assert(w.steps().skip(start) == steps0.push(s));
        }
        let path = chars_of(v.path.as_str());
        let mut cand: Option<Vec<char>> = None;
        if v.is_dir && !under_any(path.as_slice(), &dirs) && is_within(path.as_slice(), root_chars.as_slice()) {
            let name = file_name_of(path.as_slice());
            if rule_name_matches(rule, name.as_slice()) {
                cand = parent_of(path.as_slice());
            }
        }
        proof {
            if exists|k: int| 0 <= k < dirs.len() && within(path@, #[trigger] dirs@[k]@) {
                let k = choose|k: int| 0 <= k < dirs.len() && within(path@, #[trigger] dirs@[k]@);
                assert(found0[k] == targets@[k].path@);
            }
            if exists|k: int| 0 <= k < found0.len() && within(path@, #[trigger] found0[k]) {
                let k = choose|k: int| 0 <= k < found0.len() && within(path@, #[trigger] found0[k]);
                assert(found0[k] == targets@[k].path@);
                assert(dirs@[k]@ == targets@[k].path@);
            }
            assert(match cand {
                Some(d) => rule_candidate(rule, root, s, found0) == Some(d@),
                None => rule_candidate(rule, root, s, found0) is None,
            });
        }
        let d = match cand {
            None => {
                proof {
                    lemma_rule_found_push(rule, root, steps0, s, m0);
                }
                continue;
            },
            Some(d) => d,
        };
        let ok = rule_context_in(w, rule, d.as_slice());
        proof {
            lemma_rule_found_kept(rule, root, steps0, m0, w.answers());
            lemma_rule_found_push(rule, root, steps0, s, w.answers());
        }
        if !ok {
            continue;
        }
        let name = file_name_of(path.as_slice());
        let size = compute_dir_size(v.path.as_str());
        let t = CleanTarget {
            path: v.path,
            adapter: rule_adapter_name(rule),
            description: rule_describe(rule, name.as_slice()),
            size,
        };
        let ghost old_targets = targets@;
        targets.push(t);
        dirs.push(path);
        proof {
            assert forall|i: int, j: int| 0 <= i < j < targets@.len() implies !within(
                #[trigger] targets@[j].path@,
                #[trigger] targets@[i].path@,
            ) by {
                if j == old_targets.len() {
                    assert(dirs@[i]@ == targets@[i].path@);
                } else {
                    assert(targets@[i] == old_targets[i] && targets@[j] == old_targets[j]);
                }
            }
        }
        w.skip_current_dir();
    }
    targets
}

/// Walks `root` and reports each directory of the kind the rule cleans that
/// has the rule's context file beside it, without descending into it (see
/// [`scan_dirs_in`], which states exactly what is reported of the walk). The
/// size of each directory is computed.
pub fn scan_dirs(root: &str, rule: DirRule) -> (r: Vec<CleanTarget>)
    ensures
        rule_scan_of(rule, root@, r@),
{
    let mut w = Walk::open(root);
    let ghost w0 = w;
    let r = scan_dirs_in(&mut w, rule);
    proof {
        assert(w.steps().skip(0) == w.steps());
        assert(walk_run(w0, w, root@));
    }
    r
}

/// `ts` is what the rule reports of a walk of `root` taken to its end: the
/// paths [`rule_found`] gives for its steps and answers (all that was needed
/// asked), in order, each a target of the rule with the size of its tree,
/// none at or below another.
pub open spec fn rule_scan_of(rule: DirRule, root: Seq<char>, ts: Seq<CleanTarget>) -> bool {
    &&& exists|w0: Walk, w1: Walk| #[trigger]
        walk_run(w0, w1, root) && ts.len() == rule_found(rule, root, w1.steps(), w1.answers()).len()
            && (forall|i: int| 0 <= i < ts.len() ==> (#[trigger] ts[i]).path@ == rule_found(rule, root, w1.steps(), w1.answers())[i])
            && rule_all_asked(rule, root, w1.steps(), w1.answers())
    &&& forall|i: int| 0 <= i < ts.len() ==> rule_target(rule, #[trigger] ts[i])
    &&& forall|i: int| 0 <= i < ts.len() ==> dir_size_of(#[trigger] ts[i].path@, ts[i].size)
    &&& nested_free(ts)
}

} // verus!
