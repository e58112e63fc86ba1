//! Running the adapters: the scan settings, the list of enabled adapters, the
//! merge of their results, and the single-walk streaming scan.

use vstd::hash_map::StringHashMap;
use vstd::hash_set::StringHashSet;
use vstd::prelude::*;

use crate::adapter::{compute_dir_size, dir_size_of, Adapter, CleanTarget, ScanError};
use crate::adapters::dirs::{gradle_files, has_file, rule_describe, rule_description, rule_matches, rule_target, step_path, under_any, DirRule};
use crate::adapters::gitignore::{gitignore_run, gitignore_scan_from, gitignore_target, step_is_dir};
use crate::adapters::python::{
    has_python_context, has_python_source_file, is_python_dir_name, py_source_walked, python_dir_description,
    python_dir_name, python_project_files,
    python_dir_target, python_file_target,
};
use crate::adapters::{
    CargoAdapter, GitignoreAdapter, GoAdapter, GradleAdapter, MavenAdapter, NodeAdapter,
    OcamlAdapter, PythonAdapter,
};
use crate::order::{key_lt, lemma_rank_order, rank_lt, ranked, sorted_positions};
use crate::path::{
    ends_with, ends_with_chars, file_name, file_name_of, is_within, parent, parent_of, path_char_key, path_key,
    path_key_of, within,
};
use crate::text::{chars_are, chars_of, string_from, string_of};
use crate::walk::{any_file_said, cache_said, cached_lookup, cached_true, file_said, fresh_walk, remembers, Step, Walk};

verus! {

/// Scanner settings: which adapters run, and whether sizes are computed.
#[derive(Clone, Copy, Debug, PartialEq, Eq)]
pub struct ScanConfig {
    /// Skip the size computation (every size is 0).
    pub no_size: bool,
    pub node: bool,
    pub cargo: bool,
    pub python: bool,
    pub go: bool,
    pub gradle: bool,
    pub maven: bool,
    pub ocaml: bool,
    /// The dangerous adapter: everything the root `.gitignore` matches.
    pub gitignore: bool,
}

/// One adapter, as a value.
#[derive(Clone, Copy, Debug, PartialEq, Eq)]
pub enum AdapterKind {
    Node,
    Cargo,
    Python,
    Go,
    Gradle,
    Maven,
    Ocaml,
    Gitignore,
}

/// The adapter name of a kind.
pub open spec fn kind_name(k: AdapterKind) -> Seq<char> {
    match k {
        AdapterKind::Node => "node"@,
        AdapterKind::Cargo => "cargo"@,
        AdapterKind::Python => "python"@,
        AdapterKind::Go => "go"@,
        AdapterKind::Gradle => "gradle"@,
        AdapterKind::Maven => "maven"@,
        AdapterKind::Ocaml => "ocaml"@,
        AdapterKind::Gitignore => "gitignore"@,
    }
}

/// The description of an adapter kind.
pub open spec fn kind_description(k: AdapterKind) -> Seq<char> {
    match k {
        AdapterKind::Node => "Node.js dependencies (node_modules/)"@,
        AdapterKind::Cargo => "Rust/Cargo build artifacts (target/)"@,
        AdapterKind::Python => "Python build artifacts and virtual environments (__pycache__/, .venv/, dist/, etc.)"@,
        AdapterKind::Go => "Go vendor directory (vendor/)"@,
        AdapterKind::Gradle => "Gradle build artifacts (.gradle/, build/)"@,
        AdapterKind::Maven => "Maven build artifacts (target/)"@,
        AdapterKind::Ocaml => "OCaml/dune build artifacts (_build/)"@,
        AdapterKind::Gitignore => "Files and directories matched by .gitignore (dangerous)"@,
    }
}

/// A target that the adapter of kind `k` can report for the root `root`.
pub open spec fn kind_target(k: AdapterKind, root: Seq<char>, t: CleanTarget) -> bool {
    match k {
        AdapterKind::Node => rule_target(DirRule::Node, t),
        AdapterKind::Cargo => rule_target(DirRule::Cargo, t),
        AdapterKind::Python => python_dir_target(t) || python_file_target(t),
        AdapterKind::Go => rule_target(DirRule::Go, t),
        AdapterKind::Gradle => rule_target(DirRule::Gradle, t),
        AdapterKind::Maven => rule_target(DirRule::Maven, t),
        AdapterKind::Ocaml => rule_target(DirRule::Ocaml, t),
        AdapterKind::Gitignore => gitignore_target(root, t),
    }
}

impl Adapter for AdapterKind {
    fn name(&self) -> (r: &'static str)
        ensures
            r@ == kind_name(*self),
    {
        match self {
            AdapterKind::Node => NodeAdapter.name(),
            AdapterKind::Cargo => CargoAdapter.name(),
            AdapterKind::Python => PythonAdapter.name(),
            AdapterKind::Go => GoAdapter.name(),
            AdapterKind::Gradle => GradleAdapter.name(),
            AdapterKind::Maven => MavenAdapter.name(),
            AdapterKind::Ocaml => OcamlAdapter.name(),
            AdapterKind::Gitignore => GitignoreAdapter.name(),
        }
    }

    fn description(&self) -> (r: &'static str)
        ensures
            r@ == kind_description(*self),
    {
        match self {
            AdapterKind::Node => NodeAdapter.description(),
            AdapterKind::Cargo => CargoAdapter.description(),
            AdapterKind::Python => PythonAdapter.description(),
            AdapterKind::Go => GoAdapter.description(),
            AdapterKind::Gradle => GradleAdapter.description(),
            AdapterKind::Maven => MavenAdapter.description(),
            AdapterKind::Ocaml => OcamlAdapter.description(),
            AdapterKind::Gitignore => GitignoreAdapter.description(),
        }
    }

    fn is_safe(&self) -> (r: bool)
        ensures
            r == (*self != AdapterKind::Gitignore),
    {
        match self {
            AdapterKind::Node => NodeAdapter.is_safe(),
            AdapterKind::Cargo => CargoAdapter.is_safe(),
            AdapterKind::Python => PythonAdapter.is_safe(),
            AdapterKind::Go => GoAdapter.is_safe(),
            AdapterKind::Gradle => GradleAdapter.is_safe(),
            AdapterKind::Maven => MavenAdapter.is_safe(),
            AdapterKind::Ocaml => OcamlAdapter.is_safe(),
            AdapterKind::Gitignore => GitignoreAdapter.is_safe(),
        }
    }

    open spec fn gives(&self, root: Seq<char>, r: Result<Vec<CleanTarget>, ScanError>) -> bool {
        match *self {
            AdapterKind::Node => NodeAdapter.gives(root, r),
            AdapterKind::Cargo => CargoAdapter.gives(root, r),
            AdapterKind::Python => PythonAdapter.gives(root, r),
            AdapterKind::Go => GoAdapter.gives(root, r),
            AdapterKind::Gradle => GradleAdapter.gives(root, r),
            AdapterKind::Maven => MavenAdapter.gives(root, r),
            AdapterKind::Ocaml => OcamlAdapter.gives(root, r),
            AdapterKind::Gitignore => GitignoreAdapter.gives(root, r),
        }
    }

    fn scan(&self, root: &str) -> (r: Result<Vec<CleanTarget>, ScanError>)
        ensures
            *self != AdapterKind::Gitignore ==> r is Ok,
            r matches Ok(ts) ==> forall|i: int|
                0 <= i < ts.len() ==> kind_target(*self, root@, #[trigger] ts@[i]),
    {
        match self {
            AdapterKind::Node => NodeAdapter.scan(root),
            AdapterKind::Cargo => CargoAdapter.scan(root),
            AdapterKind::Python => PythonAdapter.scan(root),
            AdapterKind::Go => GoAdapter.scan(root),
            AdapterKind::Gradle => GradleAdapter.scan(root),
            AdapterKind::Maven => MavenAdapter.scan(root),
            AdapterKind::Ocaml => OcamlAdapter.scan(root),
            AdapterKind::Gitignore => GitignoreAdapter.scan(root),
        }
    }
}

/// The enabled adapters, in the order node, cargo, python, go, gradle, maven,
/// ocaml, gitignore.
pub open spec fn enabled_kinds(cfg: ScanConfig) -> Seq<AdapterKind> {
    let s0 = Seq::<AdapterKind>::empty();
    let s1 = if cfg.node { s0.push(AdapterKind::Node) } else { s0 };
    let s2 = if cfg.cargo { s1.push(AdapterKind::Cargo) } else { s1 };
    let s3 = if cfg.python { s2.push(AdapterKind::Python) } else { s2 };
    let s4 = if cfg.go { s3.push(AdapterKind::Go) } else { s3 };
    let s5 = if cfg.gradle { s4.push(AdapterKind::Gradle) } else { s4 };
    let s6 = if cfg.maven { s5.push(AdapterKind::Maven) } else { s5 };
    let s7 = if cfg.ocaml { s6.push(AdapterKind::Ocaml) } else { s6 };
    if cfg.gitignore { s7.push(AdapterKind::Gitignore) } else { s7 }
}

/// The list of enabled adapters.
pub fn build_adapters(cfg: &ScanConfig) -> (r: Vec<AdapterKind>)
    ensures
        r@ == enabled_kinds(*cfg),
{
    let mut r: Vec<AdapterKind> = Vec::new();
    if cfg.node {
        r.push(AdapterKind::Node);
    }
    if cfg.cargo {
        r.push(AdapterKind::Cargo);
    }
    if cfg.python {
        r.push(AdapterKind::Python);
    }
    if cfg.go {
        r.push(AdapterKind::Go);
    }
    if cfg.gradle {
        r.push(AdapterKind::Gradle);
    }
    if cfg.maven {
        r.push(AdapterKind::Maven);
    }
    if cfg.ocaml {
        r.push(AdapterKind::Ocaml);
    }
    if cfg.gitignore {
        r.push(AdapterKind::Gitignore);
    }
    r
}

/// The ordering keys of the paths of `ts`.
pub open spec fn path_keys(ts: Seq<CleanTarget>) -> Seq<Seq<u64>> {
    ts.map_values(|t: CleanTarget| path_key(t.path@))
}

/// `perm` arranges the positions `0..keys.len()` in the strict order of a
/// stable sort by key (ascending, or descending when `desc`).
pub open spec fn sort_perm(keys: Seq<Seq<u64>>, desc: bool, perm: Seq<usize>) -> bool {
    &&& perm.len() == keys.len()
    &&& forall|i: int| 0 <= i < perm.len() ==> #[trigger] perm[i] < keys.len()
    &&& forall|x: usize| x < keys.len() ==> perm.contains(x)
    &&& ranked(keys, desc, perm)
}

/// `r` holds the targets `ts` in the order of a stable sort by path.
pub open spec fn sorted_by_path(ts: Seq<CleanTarget>, r: Seq<CleanTarget>) -> bool {
    exists|perm: Seq<usize>|
        sort_perm(path_keys(ts), false, perm) && perm.len() == r.len() && (forall|i: int|
            0 <= i < r.len() ==> #[trigger] r[i] == ts[perm[i] as int])
}

proof fn lemma_ranked_distinct(keys: Seq<Seq<u64>>, desc: bool, perm: Seq<usize>, i: int, j: int)
    requires
        ranked(keys, desc, perm),
        0 <= i < perm.len(),
        0 <= j < perm.len(),
        i != j,
    ensures
        perm[i] != perm[j],
{
    lemma_rank_order(keys, desc, perm[i] as int, perm[i] as int, perm[i] as int);
    if i < j {
        assert(rank_lt(keys, desc, perm[i] as int, perm[j] as int));
    } else {
        assert(rank_lt(keys, desc, perm[j] as int, perm[i] as int));
    }
}

/// Rearranges `items` by the positions of `perm`, which name each position of
/// `items` once.
fn take_in_order(items: Vec<CleanTarget>, perm: &Vec<usize>, Ghost(keys): Ghost<Seq<Seq<u64>>>, desc: bool) -> (r: Vec<CleanTarget>)
    requires
        keys.len() == items.len(),
        sort_perm(keys, desc, perm@),
    ensures
        r.len() == perm.len(),
        forall|i: int| 0 <= i < r.len() ==> #[trigger] r@[i] == items@[perm@[i] as int],
{
    let ghost orig = items@;
    let mut slots: Vec<Option<CleanTarget>> = Vec::new();
    for t in it: items
        invariant
            slots.len() == it.index(),
            it.seq() == orig,
            forall|m: int| 0 <= m < slots.len() ==> #[trigger] slots@[m] == Some(orig[m]),
    {
        slots.push(Some(t));
    }
    let mut r: Vec<CleanTarget> = Vec::new();
    let mut i: usize = 0;
    while i < perm.len()
        invariant
            i <= perm.len(),
            slots.len() == orig.len(),
            keys.len() == orig.len(),
            sort_perm(keys, desc, perm@),
            r.len() == i,
            forall|k: int| 0 <= k < i ==> #[trigger] r@[k] == orig[perm@[k] as int],
            forall|m: int|
                0 <= m < slots.len() && !perm@.take(i as int).contains(m as usize)
                    ==> #[trigger] slots@[m] == Some(orig[m]),
        decreases perm.len() - i,
    {
        let k = perm[i];
        assert(!perm@.take(i as int).contains(k)) by {
            if perm@.take(i as int).contains(k) {
                let j = choose|j: int| 0 <= j < i && perm@.take(i as int)[j] == k;
                lemma_ranked_distinct(keys, desc, perm@, j, i as int);
            }
        }
        let mut tmp: Option<CleanTarget> = None;
        slots.set_and_swap(k, &mut tmp);
        let t = tmp.unwrap();
        r.push(t);
        proof {
            assert(perm@.take(i as int + 1) == perm@.take(i as int).push(k));
            assert forall|m: int|
                0 <= m < slots.len() && !perm@.take(i as int + 1).contains(
                    m as usize,
                ) implies #[trigger] slots@[m] == Some(orig[m]) by {
                assert(perm@.take(i as int + 1)[i as int] == k);
                if m != k {
                    assert(!perm@.take(i as int).contains(m as usize)) by {
                        if perm@.take(i as int).contains(m as usize) {
                            let j = choose|j: int|
                                0 <= j < i && perm@.take(i as int)[j] == m as usize;
                            assert(perm@.take(i as int + 1)[j] == m as usize);
                        }
                    }
                }
            }
        }
        i += 1;
    }
    r
}

/// The targets sorted by path (a stable sort; paths compare component by
/// component).
pub fn sort_by_path(targets: Vec<CleanTarget>) -> (r: Vec<CleanTarget>)
    ensures
        r.len() == targets.len(),
        sorted_by_path(targets@, r@),
        forall|i: int, j: int|
            0 <= i < j < r.len() ==> !key_lt(path_key(r@[j].path@), path_key(r@[i].path@)),
{
    let mut keys: Vec<Vec<u64>> = Vec::new();
    let mut i: usize = 0;
    while i < targets.len()
        invariant
            i <= targets.len(),
            keys.len() == i,
            forall|k: int| 0 <= k < i ==> (#[trigger] keys@[k])@ == path_key(targets@[k].path@),
        decreases targets.len() - i,
    {
        let p = chars_of(targets[i].path.as_str());
        keys.push(path_key_of(p.as_slice()));
        i += 1;
    }
    let ghost ks = keys@.map_values(|k: Vec<u64>| k@);
    assert(ks =~= path_keys(targets@));
    let perm = sorted_positions(&keys, false);
    let ghost orig = targets@;
    let r = take_in_order(targets, &perm, Ghost(ks), false);
    proof {
        assert forall|a: int, b: int| 0 <= a < b < r.len() implies !key_lt(
            path_key(r@[b].path@),
            path_key(r@[a].path@),
        ) by {
            assert(rank_lt(ks, false, perm@[a] as int, perm@[b] as int));
            crate::order::lemma_key_order(ks[perm@[a] as int], ks[perm@[b] as int], ks[perm@[b] as int]);
        }
    }
    r
}

/// The targets of the results that succeeded, in order (a failed adapter
/// contributes nothing).
pub open spec fn found_in_results(rs: Seq<Result<Vec<CleanTarget>, ScanError>>) -> Seq<CleanTarget>
    decreases rs.len(),
{
    if rs.len() == 0 {
        Seq::empty()
    } else {
        found_in_results(rs.drop_last()) + match rs.last() {
            Ok(ts) => ts@,
            Err(_) => Seq::empty(),
        }
    }
}

/// Whether a target among the first `n` of `ts` has the path `p`.
pub open spec fn path_among(ts: Seq<CleanTarget>, n: int, p: Seq<char>) -> bool {
    exists|j: int| 0 <= j < n && #[trigger] ts[j].path@ == p
}

/// `ts` without each target whose path an earlier target already has: the
/// first target with a path wins.
pub open spec fn first_wins(ts: Seq<CleanTarget>) -> Seq<CleanTarget>
    decreases ts.len(),
{
    if ts.len() == 0 {
        Seq::empty()
    } else if path_among(ts, ts.len() - 1, ts.last().path@) {
        first_wins(ts.drop_last())
    } else {
        first_wins(ts.drop_last()).push(ts.last())
    }
}

proof fn lemma_first_wins_push(ts: Seq<CleanTarget>, t: CleanTarget)
    ensures
        first_wins(ts.push(t)) == (if path_among(ts, ts.len() as int, t.path@) {
            first_wins(ts)
        } else {
            first_wins(ts).push(t)
        }),
{
    let s = ts.push(t);
    assert(s.drop_last() =~= ts);
    assert(path_among(s, s.len() - 1, t.path@) == path_among(ts, ts.len() as int, t.path@)) by {
        if path_among(s, s.len() - 1, t.path@) {
            let j = choose|j: int| 0 <= j < s.len() - 1 && #[trigger] s[j].path@ == t.path@;
            assert(ts[j].path@ == t.path@);
        }
        if path_among(ts, ts.len() as int, t.path@) {
            let j = choose|j: int| 0 <= j < ts.len() && #[trigger] ts[j].path@ == t.path@;
            assert(s[j].path@ == t.path@);
        }
    }
}

proof fn lemma_found_push(rs: Seq<Result<Vec<CleanTarget>, ScanError>>, i: int)
    requires
        0 <= i < rs.len(),
    ensures
        found_in_results(rs.take(i + 1)) == found_in_results(rs.take(i)) + match rs[i] {
            Ok(ts) => ts@,
            Err(_) => Seq::empty(),
        },
{
    assert(rs.take(i + 1).drop_last() =~= rs.take(i));
}

/// The targets of `results` merged: the targets of each result that
/// succeeded, in order, each path kept once (the first target with it
/// wins), then sorted by path.
pub fn merge_results(results: Vec<Result<Vec<CleanTarget>, ScanError>>) -> (r: Vec<CleanTarget>)
    ensures
        sorted_by_path(first_wins(found_in_results(results@)), r@),
{
    let ghost rs = results@;
    let mut all: Vec<CleanTarget> = Vec::new();
    let mut seen = StringHashSet::new();
    let ghost mut found: Seq<CleanTarget> = Seq::empty();
    for res in it: results
        invariant
            it.seq() == rs,
            found == found_in_results(rs.take(it.index() as int)),
            all@ == first_wins(found),
            forall|p: Seq<char>| seen@.contains(p) <==> path_among(found, found.len() as int, p),
    {
        proof {
            lemma_found_push(rs, it.index() as int);
        }
        match res {
            Ok(ts) => {
                let ghost base = found;
                let ghost tsv = ts@;
                for t in jt: ts
                    invariant
                        jt.seq() == tsv,
                        found == base + tsv.take(jt.index() as int),
                        all@ == first_wins(found),
                        forall|p: Seq<char>| seen@.contains(p) <==> path_among(found, found.len() as int, p),
                {
                    let ghost before = found;
                    proof {
                        lemma_first_wins_push(before, t);
                        found = found.push(t);
                        assert(found =~= base + tsv.take(jt.index() as int + 1));
                        assert forall|p: Seq<char>| path_among(found, found.len() as int, p) <==> (
                        path_among(before, before.len() as int, p) || p == t.path@) by {
                            if path_among(found, found.len() as int, p) {
                                let j = choose|j: int| 0 <= j < found.len() && #[trigger] found[j].path@ == p;
                                if j < before.len() {
                                    assert(before[j].path@ == p);
                                }
                            }
                            if path_among(before, before.len() as int, p) {
                                let j = choose|j: int| 0 <= j < before.len() && #[trigger] before[j].path@ == p;
                                assert(found[j].path@ == p);
                            }
                            if p == t.path@ {
                                assert(found[before.len() as int].path@ == p);
                            }
                        }
                    }
                    if seen.insert(t.path.clone()) {
                        all.push(t);
                    }
                }
                proof {
                    assert(tsv.take(tsv.len() as int) =~= tsv);
                }
            },
            Err(_) => {
                proof {
                    assert(found + Seq::<CleanTarget>::empty() =~= found);
                }
            },
        }
    }
    proof {
        assert(rs.take(rs.len() as int) =~= rs);
    }
    sort_by_path(all)
}

proof fn lemma_first_wins_unique(ts: Seq<CleanTarget>)
    ensures
        forall|i: int, j: int|
            0 <= i < j < first_wins(ts).len() ==> first_wins(ts)[i].path@ != first_wins(ts)[j].path@,
        forall|i: int|
            0 <= i < first_wins(ts).len() ==> path_among(ts, ts.len() as int, #[trigger] first_wins(ts)[i].path@),
    decreases ts.len(),
{
    if ts.len() > 0 {
        let prev = ts.drop_last();
        lemma_first_wins_unique(prev);
        assert forall|i: int| 0 <= i < first_wins(prev).len() implies path_among(
            ts,
            ts.len() - 1,
            #[trigger] first_wins(prev)[i].path@,
        ) by {
            let p = first_wins(prev)[i].path@;
            let j = choose|j: int| 0 <= j < prev.len() && #[trigger] prev[j].path@ == p;
            assert(ts[j].path@ == p);
        }
    }
}

proof fn lemma_path_key_injective(p: Seq<char>, q: Seq<char>)
    requires
        path_key(p) == path_key(q),
    ensures
        p == q,
{
    assert(p.len() == path_key(p).len());
    assert(q.len() == path_key(q).len());
    assert forall|i: int| 0 <= i < p.len() implies p[i] == q[i] by {
        assert(path_key(p)[i] == path_key(q)[i]);
        assert(path_key(p)[i] == path_char_key(p[i]));
        assert(path_key(q)[i] == path_char_key(q[i]));
        lemma_char_key_injective(p[i], q[i]);
    }
    assert(p =~= q);
}

proof fn lemma_char_key_injective(a: char, b: char)
    requires
        path_char_key(a) == path_char_key(b),
    ensures
        a == b,
{
    let x = a as u32;
    let y = b as u32;
    assert(x <= 0x10FFFF && y <= 0x10FFFF);
    if a != '/' && b != '/' {
        assert((x as u64 + 1) as u64 == x + 1);
        assert((y as u64 + 1) as u64 == y + 1);
        assert(x == y);
    }
}

/// The merged targets have distinct paths, in strictly ascending path order
/// (component by component).
pub proof fn law_merged_unique_sorted(found: Seq<CleanTarget>, r: Seq<CleanTarget>)
    requires
        sorted_by_path(first_wins(found), r),
    ensures
        forall|i: int, j: int| 0 <= i < j < r.len() ==> r[i].path@ != r[j].path@,
        forall|i: int, j: int|
            0 <= i < j < r.len() ==> key_lt(path_key(r[i].path@), path_key(r[j].path@)),
{
    let fw = first_wins(found);
    lemma_first_wins_unique(found);
    let perm = choose|perm: Seq<usize>|
        sort_perm(path_keys(fw), false, perm) && perm.len() == r.len() && (forall|i: int|
            0 <= i < r.len() ==> #[trigger] r[i] == fw[perm[i] as int]);
    assert forall|i: int, j: int| 0 <= i < j < r.len() implies #[trigger] r[i].path@ != #[trigger] r[j].path@ && key_lt(
        path_key(r[i].path@),
        path_key(r[j].path@),
    ) by {
        lemma_ranked_distinct(path_keys(fw), false, perm, i, j);
        let pi = perm[i] as int;
        let pj = perm[j] as int;
        assert(r[i] == fw[pi]);
        assert(r[j] == fw[pj]);
        assert(rank_lt(path_keys(fw), false, pi, pj));
        if pi < pj {
            assert(fw[pi].path@ != fw[pj].path@);
        } else {
            assert(fw[pj].path@ != fw[pi].path@);
        }
        if path_key(fw[pi].path@) == path_key(fw[pj].path@) {
            lemma_path_key_injective(fw[pi].path@, fw[pj].path@);
        }
    }
}

/// `ts` is what [`merge_results`] gives for some results of `n` adapters.
pub open spec fn merged_from(n: nat, ts: Seq<CleanTarget>) -> bool {
    exists|results: Seq<Result<Vec<CleanTarget>, ScanError>>|
        results.len() == n && #[trigger] sorted_by_path(first_wins(found_in_results(results)), ts)
}

proof fn lemma_first_wins_has_path(s: Seq<CleanTarget>, m: int)
    requires
        0 <= m < s.len(),
    ensures
        exists|j: int| 0 <= j < first_wins(s).len() && #[trigger] first_wins(s)[j].path@ == s[m].path@,
    decreases s.len(),
{
    let init = s.drop_last();
    let last = s.len() - 1;
    if m == last {
        if path_among(s, last, s.last().path@) {
            let m2 = choose|j: int| 0 <= j < last && #[trigger] s[j].path@ == s.last().path@;
            assert(init[m2] == s[m2]);
            lemma_first_wins_has_path(init, m2);
            let j = choose|j: int| 0 <= j < first_wins(init).len() && #[trigger] first_wins(init)[j].path@ == init[m2].path@;
            assert(first_wins(s)[j].path@ == s[m].path@);
        } else {
            assert(first_wins(s) == first_wins(init).push(s.last()));
            assert(first_wins(s)[first_wins(init).len() as int].path@ == s[m].path@);
        }
    } else {
        assert(init[m] == s[m]);
        lemma_first_wins_has_path(init, m);
        let j = choose|j: int| 0 <= j < first_wins(init).len() && #[trigger] first_wins(init)[j].path@ == init[m].path@;
        if path_among(s, last, s.last().path@) {
            assert(first_wins(s) == first_wins(init));
        } else {
            assert(first_wins(s) == first_wins(init).push(s.last()));
            assert(first_wins(s)[j] == first_wins(init)[j]);
        }
        assert(first_wins(s)[j].path@ == s[m].path@);
    }
}

proof fn lemma_found_in_results_has(rs: Seq<Result<Vec<CleanTarget>, ScanError>>, k: int, i: int)
    requires
        0 <= k < rs.len(),
        rs[k] matches Ok(v) && 0 <= i < v.len(),
    ensures
        exists|m: int| 0 <= m < found_in_results(rs).len() && #[trigger] found_in_results(rs)[m] == rs[k]->Ok_0@[i],
    decreases rs.len(),
{
    let init = rs.drop_last();
    let prev = found_in_results(init);
    if k == rs.len() - 1 {
        let v = rs[k]->Ok_0;
        assert(rs.last() == rs[k]);
        assert(found_in_results(rs) == prev + v@);
        assert(found_in_results(rs)[prev.len() + i] == v@[i]);
    } else {
        assert(init[k] == rs[k]);
        lemma_found_in_results_has(init, k, i);
        let m = choose|m: int| 0 <= m < prev.len() && #[trigger] prev[m] == init[k]->Ok_0@[i];
        let extra = match rs.last() {
            Ok(ts) => ts@,
            Err(_) => Seq::<CleanTarget>::empty(),
        };
        assert(found_in_results(rs) == prev + extra);
        assert(found_in_results(rs)[m] == prev[m]);
    }
}

/// Running a list of adapters: each target that an adapter's result holds
/// has its path in the merged list (the first adapter to find a path wins
/// it, but no path found is lost).
pub proof fn law_scan_keeps_every_found_path<A: Adapter>(
    adapters: Seq<A>,
    root: Seq<char>,
    results: Seq<Result<Vec<CleanTarget>, ScanError>>,
    ts: Seq<CleanTarget>,
    k: int,
    i: int,
)
    requires
        sorted_by_path(first_wins(found_in_results(results)), ts),
        results.len() == adapters.len(),
        forall|j: int| 0 <= j < adapters.len() ==> adapters[j].gives(root, #[trigger] results[j]),
        0 <= k < results.len(),
        results[k] matches Ok(v) && 0 <= i < v.len(),
        ts.len() <= usize::MAX,
    ensures
        exists|x: int| 0 <= x < ts.len() && #[trigger] ts[x].path@ == results[k]->Ok_0@[i].path@,
{
    let found = found_in_results(results);
    lemma_found_in_results_has(results, k, i);
    let m = choose|m: int| 0 <= m < found.len() && #[trigger] found[m] == results[k]->Ok_0@[i];
    lemma_first_wins_has_path(found, m);
    let fw = first_wins(found);
    let j = choose|j: int| 0 <= j < fw.len() && #[trigger] fw[j].path@ == found[m].path@;
    let perm = choose|perm: Seq<usize>|
        sort_perm(path_keys(fw), false, perm) && perm.len() == ts.len() && (forall|x: int|
            0 <= x < ts.len() ==> #[trigger] ts[x] == fw[perm[x] as int]);
    assert(path_keys(fw).len() == fw.len());
    assert(j < ts.len());
    assert((j as usize) as int == j);
    assert(perm.contains(j as usize));
    let x = choose|x: int| 0 <= x < perm.len() && perm[x] == j as usize;
    assert(0 <= x < ts.len());
    assert(ts[x] == fw[perm[x] as int]);
    assert(ts[x].path@ == fw[j].path@);
    assert(ts[x].path@ == results[k]->Ok_0@[i].path@);
}

/// `ts` merges the results of running each of `adapters` on `root`: result
/// `k` is what a scan of `root` by `adapters[k]` gives, and `ts` holds, sorted
/// by path, the first target found for each path (see [`merge_results`]).
pub open spec fn merged_runs<A: Adapter>(adapters: Seq<A>, root: Seq<char>, ts: Seq<CleanTarget>) -> bool {
    exists|results: Seq<Result<Vec<CleanTarget>, ScanError>>|
        #[trigger] sorted_by_path(first_wins(found_in_results(results)), ts) && results.len() == adapters.len()
            && forall|k: int| 0 <= k < adapters.len() ==> adapters[k].gives(root, #[trigger] results[k])
}

/// Runs each of `adapters` on `root` and merges what they find (see
/// [`merge_results`]); an adapter that fails contributes nothing.
pub fn scan<A: Adapter>(root: &str, adapters: &[A]) -> (r: Result<Vec<CleanTarget>, ScanError>)
    ensures
        r matches Ok(ts) && merged_from(adapters@.len(), ts@),
        r matches Ok(ts) && merged_runs(adapters@, root@, ts@),
        r matches Ok(ts) ==> forall|i: int, j: int|
            0 <= i < j < ts.len() ==> ts@[i].path@ != ts@[j].path@ && key_lt(
                path_key(ts@[i].path@),
                path_key(ts@[j].path@),
            ),
{
    let mut results: Vec<Result<Vec<CleanTarget>, ScanError>> = Vec::new();
    let mut k: usize = 0;
    while k < adapters.len()
        invariant
            k <= adapters.len(),
            results.len() == k,
            forall|j: int| 0 <= j < k ==> adapters@[j].gives(root@, #[trigger] results@[j]),
        decreases adapters.len() - k,
    {
        results.push(adapters[k].scan(root));
        k += 1;
    }
    let ghost rs = results@;
    let merged = merge_results(results);
    assert(rs.len() == adapters.len());
    assert(sorted_by_path(first_wins(found_in_results(rs)), merged@));
    assert(merged_from(adapters@.len(), merged@));
    assert(merged_runs(adapters@, root@, merged@)) by {
        assert(forall|k: int| 0 <= k < adapters@.len() ==> adapters@[k].gives(root@, #[trigger] rs[k]));
    }
    proof {
        law_merged_unique_sorted(found_in_results(rs), merged@);
    }
    Ok(merged)
}

/// A directory target that one of the core adapters enabled in `cfg` can
/// report.
pub open spec fn core_dir_target(cfg: ScanConfig, t: CleanTarget) -> bool {
    ||| cfg.node && rule_target(DirRule::Node, t)
    ||| cfg.cargo && rule_target(DirRule::Cargo, t)
    ||| cfg.python && python_dir_target(t)
    ||| cfg.go && rule_target(DirRule::Go, t)
    ||| cfg.gradle && rule_target(DirRule::Gradle, t)
    ||| cfg.maven && rule_target(DirRule::Maven, t)
    ||| cfg.ocaml && rule_target(DirRule::Ocaml, t)
}

/// A target that the streaming scan of `root` with `cfg` can report.
pub open spec fn streaming_target(cfg: ScanConfig, root: Seq<char>, t: CleanTarget) -> bool {
    ||| core_dir_target(cfg, t)
    ||| cfg.python && python_file_target(t)
    ||| cfg.gitignore && gitignore_target(root, t)
}

/// Whether the core adapters enabled in `cfg` may claim a directory named
/// `name` with the adapter `a` and the description `d`.
pub open spec fn dir_claim(cfg: ScanConfig, name: Seq<char>, a: Seq<char>, d: Seq<char>) -> bool {
    ||| cfg.node && a == "node"@ && rule_matches(DirRule::Node, name) && d == rule_description(
        DirRule::Node,
        name,
    )
    ||| cfg.cargo && a == "cargo"@ && rule_matches(DirRule::Cargo, name) && d
        == rule_description(DirRule::Cargo, name)
    ||| cfg.python && a == "python"@ && python_dir_name(name) && d == "Python build artifact ("@
        + name + "/)"@
    ||| cfg.go && a == "go"@ && rule_matches(DirRule::Go, name) && d == rule_description(
        DirRule::Go,
        name,
    )
    ||| cfg.gradle && a == "gradle"@ && rule_matches(DirRule::Gradle, name) && d
        == rule_description(DirRule::Gradle, name)
    ||| cfg.maven && a == "maven"@ && rule_matches(DirRule::Maven, name) && d
        == rule_description(DirRule::Maven, name)
    ||| cfg.ocaml && a == "ocaml"@ && rule_matches(DirRule::Ocaml, name) && d
        == rule_description(DirRule::Ocaml, name)
}

/// Whether `cache` remembers a Python project file in `dir` or in one of the
/// `n - 1` directories above it.
pub open spec fn context_up(cache: Map<Seq<char>, bool>, dir: Seq<char>, n: nat) -> bool
    decreases n,
{
    if n == 0 {
        false
    } else if cached_true(cache, dir) {
        true
    } else {
        match parent(dir) {
            Some(up) => context_up(cache, up, (n - 1) as nat),
            None => false,
        }
    }
}

/// Whether `cache` remembers no Python project file in `dir` and in the
/// `k - 1` directories above it, `p` being the directory above those.
pub open spec fn checked_none(cache: Map<Seq<char>, bool>, dir: Seq<char>, k: nat, p: Seq<char>) -> bool
    decreases k,
{
    if k == 0 {
        p == dir
    } else {
        &&& cache.contains_key(dir)
        &&& !cache[dir]
        &&& match parent(dir) {
            Some(up) => checked_none(cache, up, (k - 1) as nat, p),
            None => false,
        }
    }
}

proof fn lemma_checked_none_kept(
    c: Map<Seq<char>, bool>,
    c2: Map<Seq<char>, bool>,
    dir: Seq<char>,
    k: nat,
    p: Seq<char>,
)
    requires
        remembers(c, c2),
        checked_none(c, dir, k, p),
    ensures
        checked_none(c2, dir, k, p),
    decreases k,
{
    if k > 0 {
        assert(c.contains_key(dir));
        if let Some(up) = parent(dir) {
            lemma_checked_none_kept(c, c2, up, (k - 1) as nat, p);
        }
    }
}

proof fn lemma_checked_none_step(c: Map<Seq<char>, bool>, dir: Seq<char>, k: nat, p: Seq<char>, up: Seq<char>)
    requires
        checked_none(c, dir, k, p),
        c.contains_key(p),
        !c[p],
        parent(p) == Some(up),
    ensures
        checked_none(c, dir, k + 1, up),
    decreases k,
{
    reveal_with_fuel(checked_none, 2);
    if k > 0 {
        if let Some(d) = parent(dir) {
            lemma_checked_none_step(c, d, (k - 1) as nat, p, up);
        }
    }
}

proof fn lemma_checked_none_context(c: Map<Seq<char>, bool>, dir: Seq<char>, k: nat, p: Seq<char>, n: nat)
    requires
        checked_none(c, dir, k, p),
        k <= n,
    ensures
        context_up(c, dir, n) == context_up(c, p, (n - k) as nat),
    decreases k,
{
    if k > 0 {
        if let Some(up) = parent(dir) {
            lemma_checked_none_context(c, up, (k - 1) as nat, p, (n - 1) as nat);
        }
    }
}

/// Whether `cache` holds what a search for a Python project file in `dir` and
/// the `n - 1` directories above it asks, nearest first, up to the first one
/// found.
pub open spec fn asked_up(cache: Map<Seq<char>, bool>, dir: Seq<char>, n: nat) -> bool
    decreases n,
{
    if n == 0 {
        true
    } else {
        &&& cache.contains_key(dir)
        &&& (cache[dir] || match parent(dir) {
            Some(up) => asked_up(cache, up, (n - 1) as nat),
            None => true,
        })
    }
}

proof fn lemma_checked_none_asked(c: Map<Seq<char>, bool>, dir: Seq<char>, k: nat, p: Seq<char>, n: nat)
    requires
        checked_none(c, dir, k, p),
        k <= n,
        asked_up(c, p, (n - k) as nat),
    ensures
        asked_up(c, dir, n),
    decreases k,
{
    if k > 0 {
        if let Some(up) = parent(dir) {
            lemma_checked_none_asked(c, up, (k - 1) as nat, p, (n - 1) as nat);
        }
    }
}

pub(crate) proof fn lemma_up_kept(c: Map<Seq<char>, bool>, c2: Map<Seq<char>, bool>, dir: Seq<char>, n: nat)
    requires
        asked_up(c, dir, n),
        remembers(c, c2),
    ensures
        asked_up(c2, dir, n),
        context_up(c2, dir, n) == context_up(c, dir, n),
    decreases n,
{
    if n > 0 {
        assert(c.contains_key(dir));
        if !c[dir] {
            if let Some(up) = parent(dir) {
                lemma_up_kept(c, c2, up, (n - 1) as nat);
            }
        }
    }
}

/// What the streaming scan remembers per directory: whether it holds the
/// context file of each core adapter (`python`: a Python project file), and
/// whether it directly holds a `.py` file (`python_source`).
pub struct MarkerAnswers {
    pub node: Map<Seq<char>, bool>,
    pub cargo: Map<Seq<char>, bool>,
    pub go: Map<Seq<char>, bool>,
    pub maven: Map<Seq<char>, bool>,
    pub gradle: Map<Seq<char>, bool>,
    pub ocaml: Map<Seq<char>, bool>,
    pub python: Map<Seq<char>, bool>,
    pub python_source: Map<Seq<char>, bool>,
}

/// Whether `b` remembers every answer that `a` remembers.
pub open spec fn answers_kept(a: MarkerAnswers, b: MarkerAnswers) -> bool {
    &&& remembers(a.node, b.node)
    &&& remembers(a.cargo, b.cargo)
    &&& remembers(a.go, b.go)
    &&& remembers(a.maven, b.maven)
    &&& remembers(a.gradle, b.gradle)
    &&& remembers(a.ocaml, b.ocaml)
    &&& remembers(a.python, b.python)
    &&& remembers(a.python_source, b.python_source)
}

/// Whether the answers `a` say that a Python artifact directory named `name`
/// in `dir` has Python context: for `__pycache__`, a project file in `dir` or
/// one of the three directories above it, or a `.py` file in `dir`; else a
/// project file in `dir`.
pub open spec fn python_context_in(a: MarkerAnswers, name: Seq<char>, dir: Seq<char>) -> bool {
    if name == "__pycache__"@ {
        context_up(a.python, dir, 4) || cached_true(a.python_source, dir)
    } else {
        cached_true(a.python, dir)
    }
}

/// Whether the answers `a` hold what [`python_context_in`] asks.
pub open spec fn python_asked_in(a: MarkerAnswers, name: Seq<char>, dir: Seq<char>) -> bool {
    if name == "__pycache__"@ {
        asked_up(a.python, dir, 4) && (context_up(a.python, dir, 4) || a.python_source.contains_key(dir))
    } else {
        a.python.contains_key(dir)
    }
}

/// The enabled core adapter that claims the directory `name` in `dir`, in
/// the order node, cargo, python, go, gradle, maven, ocaml, with the
/// description of the target, by the answers `a`.
pub open spec fn claim_in(cfg: ScanConfig, a: MarkerAnswers, name: Seq<char>, dir: Seq<char>) -> Option<(Seq<char>, Seq<char>)> {
    if cfg.node && rule_matches(DirRule::Node, name) && cached_true(a.node, dir) {
        Some(("node"@, rule_description(DirRule::Node, name)))
    } else if cfg.cargo && rule_matches(DirRule::Cargo, name) && cached_true(a.cargo, dir) {
        Some(("cargo"@, rule_description(DirRule::Cargo, name)))
    } else if cfg.python && python_dir_name(name) && python_context_in(a, name, dir) {
        Some(("python"@, "Python build artifact ("@ + name + "/)"@))
    } else if cfg.go && rule_matches(DirRule::Go, name) && cached_true(a.go, dir) {
        Some(("go"@, rule_description(DirRule::Go, name)))
    } else if cfg.gradle && rule_matches(DirRule::Gradle, name) && cached_true(a.gradle, dir) {
        Some(("gradle"@, rule_description(DirRule::Gradle, name)))
    } else if cfg.maven && rule_matches(DirRule::Maven, name) && cached_true(a.maven, dir) {
        Some(("maven"@, rule_description(DirRule::Maven, name)))
    } else if cfg.ocaml && rule_matches(DirRule::Ocaml, name) && cached_true(a.ocaml, dir) {
        Some(("ocaml"@, rule_description(DirRule::Ocaml, name)))
    } else {
        None
    }
}

/// Whether the answers `a` hold what [`claim_in`] asks, adapter by adapter in
/// its order, up to the first that claims.
pub open spec fn claim_asked_in(cfg: ScanConfig, a: MarkerAnswers, name: Seq<char>, dir: Seq<char>) -> bool {
    let node = cfg.node && rule_matches(DirRule::Node, name);
    let cargo = cfg.cargo && rule_matches(DirRule::Cargo, name);
    let python = cfg.python && python_dir_name(name);
    let go = cfg.go && rule_matches(DirRule::Go, name);
    let gradle = cfg.gradle && rule_matches(DirRule::Gradle, name);
    let maven = cfg.maven && rule_matches(DirRule::Maven, name);
    let ocaml = cfg.ocaml && rule_matches(DirRule::Ocaml, name);
    if node && !a.node.contains_key(dir) {
        false
    } else if node && a.node[dir] {
        true
    } else if cargo && !a.cargo.contains_key(dir) {
        false
    } else if cargo && a.cargo[dir] {
        true
    } else if python && !python_asked_in(a, name, dir) {
        false
    } else if python && python_context_in(a, name, dir) {
        true
    } else if go && !a.go.contains_key(dir) {
        false
    } else if go && a.go[dir] {
        true
    } else if gradle && !a.gradle.contains_key(dir) {
        false
    } else if gradle && a.gradle[dir] {
        true
    } else if maven && !a.maven.contains_key(dir) {
        false
    } else if maven && a.maven[dir] {
        true
    } else {
        !(ocaml && !a.ocaml.contains_key(dir))
    }
}

/// More answers change no claim whose answers were all there.
pub proof fn lemma_claim_kept(cfg: ScanConfig, a: MarkerAnswers, b: MarkerAnswers, name: Seq<char>, dir: Seq<char>)
    requires
        claim_asked_in(cfg, a, name, dir),
        answers_kept(a, b),
    ensures
        claim_asked_in(cfg, b, name, dir),
        claim_in(cfg, b, name, dir) == claim_in(cfg, a, name, dir),
{
    if name == "__pycache__"@ && a.python.contains_key(dir) {
        if asked_up(a.python, dir, 4) {
            lemma_up_kept(a.python, b.python, dir, 4);
        }
    }
    if a.node.contains_key(dir) {
        assert(b.node.contains_key(dir));
    }
    if a.cargo.contains_key(dir) {
        assert(b.cargo.contains_key(dir));
    }
    if a.python.contains_key(dir) {
        assert(b.python.contains_key(dir));
    }
    if a.python_source.contains_key(dir) {
        assert(b.python_source.contains_key(dir));
    }
    if a.go.contains_key(dir) {
        assert(b.go.contains_key(dir));
    }
    if a.gradle.contains_key(dir) {
        assert(b.gradle.contains_key(dir));
    }
    if a.maven.contains_key(dir) {
        assert(b.maven.contains_key(dir));
    }
    if a.ocaml.contains_key(dir) {
        assert(b.ocaml.contains_key(dir));
    }
}

/// Whether `p` lies at or below one of `found`.
pub open spec fn under_some(p: Seq<char>, found: Seq<Seq<char>>) -> bool {
    exists|k: int| 0 <= k < found.len() && within(p, #[trigger] found[k])
}

/// Whether one of the core adapters is enabled in `cfg`.
pub open spec fn core_enabled(cfg: ScanConfig) -> bool {
    cfg.node || cfg.cargo || cfg.python || cfg.go || cfg.gradle || cfg.maven || cfg.ocaml
}

/// The adapter and description that the streaming scan reports for the walk
/// step `s`, given the answers `a` and the paths `found` reported from the
/// walk before: nothing at or below one of those; a directory that a core
/// adapter claims (see [`claim_in`]); a `.pyc` file where Python is enabled.
pub open spec fn stream_pick(cfg: ScanConfig, root: Seq<char>, a: MarkerAnswers, s: Step, found: Seq<Seq<char>>) -> Option<(Seq<char>, Seq<char>)> {
    match s {
        Some((p, is_dir, is_file)) => if under_some(p, found) || !within(p, root) {
            None
        } else if is_dir {
            match parent(p) {
                Some(d) => claim_in(cfg, a, file_name(p), d),
                None => None,
            }
        } else if is_file && cfg.python && ends_with(file_name(p), ".pyc"@) {
            Some(("python"@, "Python bytecode (.pyc)"@))
        } else {
            None
        },
        None => None,
    }
}

/// The paths that the streaming scan reports for the walk steps `steps`, in
/// order, given the answers `a`.
pub open spec fn stream_found(cfg: ScanConfig, root: Seq<char>, a: MarkerAnswers, steps: Seq<Step>) -> Seq<Seq<char>>
    decreases steps.len(),
{
    if steps.len() == 0 {
        Seq::empty()
    } else {
        let prev = stream_found(cfg, root, a, steps.drop_last());
        if stream_pick(cfg, root, a, steps.last(), prev) is Some {
            prev.push(step_path(steps.last()))
        } else {
            prev
        }
    }
}

/// Whether the answers `a` hold what the claim of each directory among
/// `steps` asks.
pub open spec fn stream_asked_at(cfg: ScanConfig, root: Seq<char>, a: MarkerAnswers, s: Step, found: Seq<Seq<char>>) -> bool {
    match s {
        Some((p, true, _)) => !under_some(p, found) && within(p, root) ==> match parent(p) {
            Some(d) => claim_asked_in(cfg, a, file_name(p), d),
            None => true,
        },
        _ => true,
    }
}

/// Whether the answers `a` hold what the claim of each directory among
/// `steps` asks.
pub open spec fn stream_asked(cfg: ScanConfig, root: Seq<char>, a: MarkerAnswers, steps: Seq<Step>) -> bool {
    forall|i: int|
        0 <= i < steps.len() ==> stream_asked_at(cfg, root, a, #[trigger] steps[i], stream_found(cfg, root, a, steps.take(i)))
}

proof fn lemma_stream_at_kept(cfg: ScanConfig, root: Seq<char>, a: MarkerAnswers, b: MarkerAnswers, s: Step, found: Seq<Seq<char>>)
    requires
        stream_asked_at(cfg, root, a, s, found),
        answers_kept(a, b),
    ensures
        stream_asked_at(cfg, root, b, s, found),
        stream_pick(cfg, root, b, s, found) == stream_pick(cfg, root, a, s, found),
{
    if let Some((p, is_dir, _)) = s {
        if is_dir && !under_some(p, found) && within(p, root) {
            if let Some(d) = parent(p) {
                lemma_claim_kept(cfg, a, b, file_name(p), d);
            }
        }
    }
}

/// More answers change nothing that the streaming scan found where it asked
/// all it needed.
#[verifier::spinoff_prover]
proof fn lemma_stream_kept(cfg: ScanConfig, root: Seq<char>, steps: Seq<Step>, a: MarkerAnswers, b: MarkerAnswers)
    requires
        stream_asked(cfg, root, a, steps),
        answers_kept(a, b),
    ensures
        stream_found(cfg, root, b, steps) == stream_found(cfg, root, a, steps),
        stream_asked(cfg, root, b, steps),
    decreases steps.len(),
{
    if steps.len() > 0 {
        let init = steps.drop_last();
        assert forall|i: int| 0 <= i < init.len() implies stream_asked_at(cfg, root, a, #[trigger] init[i], stream_found(cfg, root, a, init.take(i))) by {
            assert(init.take(i) == steps.take(i));
            assert(init[i] == steps[i]);
        }
        lemma_stream_kept(cfg, root, init, a, b);
        let last = steps.len() - 1;
        assert(steps.take(last) == init);
        assert(steps[last] == steps.last());
        lemma_stream_at_kept(cfg, root, a, b, steps.last(), stream_found(cfg, root, a, init));
        assert forall|i: int| 0 <= i < steps.len() implies stream_asked_at(cfg, root, b, #[trigger] steps[i], stream_found(cfg, root, b, steps.take(i))) by {
            if i < last {
                assert(init.take(i) == steps.take(i));
                assert(init[i] == steps[i]);
            }
        }
    }
}

/// One more step: what the streaming scan found grows by what it makes of
/// the step.
proof fn lemma_stream_push(cfg: ScanConfig, root: Seq<char>, steps: Seq<Step>, s: Step, a: MarkerAnswers)
    requires
        stream_asked(cfg, root, a, steps),
        stream_asked_at(cfg, root, a, s, stream_found(cfg, root, a, steps)),
    ensures
        stream_asked(cfg, root, a, steps.push(s)),
        stream_found(cfg, root, a, steps.push(s)) == if stream_pick(cfg, root, a, s, stream_found(cfg, root, a, steps)) is Some {
            stream_found(cfg, root, a, steps).push(step_path(s))
        } else {
            stream_found(cfg, root, a, steps)
        },
{
    let all = steps.push(s);
    assert(all.drop_last() == steps);
    assert forall|i: int| 0 <= i < all.len() implies stream_asked_at(cfg, root, a, #[trigger] all[i], stream_found(cfg, root, a, all.take(i))) by {
        if i < steps.len() {
            assert(all.take(i) == steps.take(i));
            assert(all[i] == steps[i]);
        } else {
            assert(all.take(i) == steps);
        }
    }
}

/// Every path that the streaming scan finds in a walk of `root` lies within
/// `root`, and none lies at or below a path found before it.
pub proof fn law_stream_found_within_root(cfg: ScanConfig, root: Seq<char>, a: MarkerAnswers, steps: Seq<Step>)
    ensures
        forall|k: int| 0 <= k < stream_found(cfg, root, a, steps).len() ==> within(#[trigger] stream_found(cfg, root, a, steps)[k], root),
        forall|i: int, j: int|
            0 <= i < j < stream_found(cfg, root, a, steps).len() ==> !within(
                #[trigger] stream_found(cfg, root, a, steps)[j],
                #[trigger] stream_found(cfg, root, a, steps)[i],
            ),
    decreases steps.len(),
{
    if steps.len() > 0 {
        let init = steps.drop_last();
        law_stream_found_within_root(cfg, root, a, init);
        let prev = stream_found(cfg, root, a, init);
        let all = stream_found(cfg, root, a, steps);
        if stream_pick(cfg, root, a, steps.last(), prev) is Some {
            let p = step_path(steps.last());
            assert(all == prev.push(p));
            assert forall|i: int, j: int| 0 <= i < j < all.len() implies !within(#[trigger] all[j], #[trigger] all[i]) by {
                if j == prev.len() {
                    if within(p, prev[i]) {
                        assert(under_some(p, prev));
                    }
                } else {
                    assert(all[i] == prev[i] && all[j] == prev[j]);
                }
            }
            assert forall|k: int| 0 <= k < all.len() implies within(#[trigger] all[k], root) by {
                if k < prev.len() {
                    assert(all[k] == prev[k]);
                }
            }
        }
    }
}

/// Whether `t` is a result of the gitignore pass at or after position `lo`
/// of its list `ts` (with size 0 where sizes are skipped).
pub open spec fn gitignore_entry(ts: Seq<CleanTarget>, lo: int, t: CleanTarget, no_size: bool) -> bool {
    exists|k: int|
        lo <= k < ts.len() && #[trigger] ts[k].path@ == t.path@ && ts[k].adapter == t.adapter
            && ts[k].description@ == t.description@ && t.size == (if no_size { 0 } else { ts[k].size })
}

/// Whether the gitignore pass gave a list of which `t` is a result at or
/// after position `lo` (see [`gitignore_entry`]).
pub open spec fn gitignore_gave(outcome: Option<Result<Vec<CleanTarget>, ScanError>>, lo: int, t: CleanTarget, no_size: bool) -> bool {
    match outcome {
        Some(Ok(ts)) => gitignore_entry(ts@, lo, t, no_size),
        _ => false,
    }
}

/// The paths of the first `n` targets of `ts`.
pub open spec fn result_paths(ts: Seq<CleanTarget>, n: int) -> Set<Seq<char>> {
    Set::new(|p: Seq<char>| exists|k: int| 0 <= k < n && #[trigger] ts[k].path@ == p)
}

proof fn lemma_seen_push(found: Seq<Seq<char>>, g: Set<Seq<char>>, p: Seq<char>)
    ensures
        found.to_set().union(g).insert(p) == found.push(p).to_set().union(g),
{
    assert forall|q: Seq<char>| #[trigger] found.push(p).to_set().contains(q) == (found.to_set().contains(q) || q == p) by {
        if found.push(p).contains(q) && q != p {
            let i = choose|i: int| 0 <= i < found.push(p).len() && found.push(p)[i] == q;
            assert(found[i] == q);
        }
        if found.contains(q) {
            let i = choose|i: int| 0 <= i < found.len() && found[i] == q;
            assert(found.push(p)[i] == q);
        }
        if q == p {
            assert(found.push(p)[found.len() as int] == p);
        }
    }
    assert(found.to_set().union(g).insert(p) =~= found.push(p).to_set().union(g));
}

proof fn lemma_not_seen(found: Seq<Seq<char>>, p: Seq<char>)
    requires
        !under_some(p, found),
    ensures
        !found.to_set().contains(p),
{
    if found.contains(p) {
        let k = choose|k: int| 0 <= k < found.len() && found[k] == p;
        assert(p.take(p.len() as int) =~= p);
        assert(within(p, found[k]));
    }
}

proof fn lemma_result_paths_step(ts: Seq<CleanTarget>, k: int)
    requires
        0 <= k < ts.len(),
    ensures
        result_paths(ts, k + 1) == result_paths(ts, k).insert(ts[k].path@),
{
    assert(result_paths(ts, k + 1) =~= result_paths(ts, k).insert(ts[k].path@)) by {
        assert forall|p: Seq<char>| result_paths(ts, k + 1).contains(p) implies result_paths(ts, k).insert(ts[k].path@).contains(p) by {
            let j = choose|j: int| 0 <= j < k + 1 && #[trigger] ts[j].path@ == p;
            if j < k {
                assert(result_paths(ts, k).contains(p));
            }
        }
        assert forall|p: Seq<char>| result_paths(ts, k).insert(ts[k].path@).contains(p) implies result_paths(ts, k + 1).contains(p) by {
            if p == ts[k].path@ {
                assert(0 <= k < k + 1 && ts[k].path@ == p);
            } else {
                let j = choose|j: int| 0 <= j < k && #[trigger] ts[j].path@ == p;
                assert(0 <= j < k + 1 && ts[j].path@ == p);
            }
        }
    }
}

proof fn lemma_union_insert(a: Set<Seq<char>>, b: Set<Seq<char>>, p: Seq<char>)
    ensures
        a.union(b).insert(p) == a.union(b.insert(p)),
{
    assert(a.union(b).insert(p) =~= a.union(b.insert(p)));
}

/// In the streaming scan, the gradle answer remembered for a directory `d`
/// is true only where the disk said `build.gradle` or `build.gradle.kts`
/// exists in `d`, and false only where it said neither does.
pub proof fn law_stream_gradle_answer(s: StreamingScan, d: Seq<char>)
    requires
        s.walk_accounted(),
        s.answers().gradle.contains_key(d),
    ensures
        s.answers().gradle[d] ==> file_said(d, "build.gradle"@, true) || file_said(d, "build.gradle.kts"@, true),
        !s.answers().gradle[d] ==> file_said(d, "build.gradle"@, false) && file_said(d, "build.gradle.kts"@, false),
{
    let names = gradle_files();
    assert(any_file_said(d, names, s.answers().gradle[d]));
    assert(names[0] == "build.gradle"@ && names[1] == "build.gradle.kts"@);
    if s.answers().gradle[d] {
        let i = choose|i: int| 0 <= i < names.len() && #[trigger] file_said(d, names[i], true);
        assert(i == 0 || i == 1);
    } else {
        assert(file_said(d, names[0], false));
        assert(file_said(d, names[1], false));
    }
}

/// In the streaming scan, the Python context answer remembered for a
/// directory `d` is true only where the disk said one of `pyproject.toml`,
/// `setup.py`, `setup.cfg` and `requirements.txt` exists in `d`, and false
/// only where it said none of them does.
pub proof fn law_stream_python_answer(s: StreamingScan, d: Seq<char>)
    requires
        s.walk_accounted(),
        s.answers().python.contains_key(d),
    ensures
        s.answers().python[d] ==> file_said(d, "pyproject.toml"@, true) || file_said(d, "setup.py"@, true)
            || file_said(d, "setup.cfg"@, true) || file_said(d, "requirements.txt"@, true),
        !s.answers().python[d] ==> file_said(d, "pyproject.toml"@, false) && file_said(d, "setup.py"@, false)
            && file_said(d, "setup.cfg"@, false) && file_said(d, "requirements.txt"@, false),
{
    let names = python_project_files();
    assert(any_file_said(d, names, s.answers().python[d]));
    assert(names[0] == "pyproject.toml"@ && names[1] == "setup.py"@ && names[2] == "setup.cfg"@
        && names[3] == "requirements.txt"@);
    if s.answers().python[d] {
        let i = choose|i: int| 0 <= i < names.len() && #[trigger] file_said(d, names[i], true);
        assert(0 <= i < 4);
    } else {
        assert(file_said(d, names[0], false));
        assert(file_said(d, names[1], false));
        assert(file_said(d, names[2], false));
        assert(file_said(d, names[3], false));
    }
}

/// A `build/` or `.gradle/` directory in `d` is claimed by the gradle
/// adapter where it is enabled, the disk said `build.gradle` or
/// `build.gradle.kts` exists in `d`, and the Python adapter (the only one
/// before it that cleans `build/`) does not claim it.
pub proof fn law_stream_gradle_claim(cfg: ScanConfig, a: MarkerAnswers, name: Seq<char>, d: Seq<char>)
    requires
        cfg.gradle,
        name == "build"@ || name == ".gradle"@,
        a.gradle.contains_key(d) && a.gradle[d],
        !(cfg.python && python_dir_name(name) && python_context_in(a, name, d)),
    ensures
        claim_in(cfg, a, name, d) == Some(("gradle"@, rule_description(DirRule::Gradle, name))),
{
    reveal_strlit("build");
    reveal_strlit(".gradle");
    reveal_strlit("node_modules");
    reveal_strlit("target");
    reveal_strlit("vendor");
    assert(!rule_matches(DirRule::Node, name));
    assert(!rule_matches(DirRule::Cargo, name));
    assert(!rule_matches(DirRule::Go, name));
}

proof fn lemma_answers_kept_refl(a: MarkerAnswers)
    ensures
        answers_kept(a, a),
{
}

proof fn lemma_prefix_refl(s: Seq<Step>)
    ensures
        s.is_prefix_of(s),
{
    assert(s.subrange(0, s.len() as int) =~= s);
}

/// Whether each answer `c[d]` is what the disk said of the files `names` in
/// `d`: true where one of them exists, false where none does.
pub open spec fn files_cache_said(c: Map<Seq<char>, bool>, names: Seq<Seq<char>>) -> bool {
    forall|d: Seq<char>| #[trigger] c.contains_key(d) ==> any_file_said(d, names, c[d])
}

/// Whether each answer `c[d]` is what a walk of the entries directly in `d`
/// said of a `.py` entry there (see [`py_source_walked`]).
pub open spec fn source_cache_said(c: Map<Seq<char>, bool>) -> bool {
    forall|d: Seq<char>| #[trigger] c.contains_key(d) ==> py_source_walked(d, c[d])
}

/// Whether every answer the streaming scan remembers is what the disk said:
/// per directory, of `package.json`, `Cargo.toml`, `go.mod`, `pom.xml` and
/// `dune-project`; of `build.gradle` or `build.gradle.kts`; of the Python
/// project files; and of a `.py` entry directly in it.
pub open spec fn answers_said(a: MarkerAnswers) -> bool {
    &&& cache_said(a.node, "package.json"@)
    &&& cache_said(a.cargo, "Cargo.toml"@)
    &&& cache_said(a.go, "go.mod"@)
    &&& cache_said(a.maven, "pom.xml"@)
    &&& cache_said(a.ocaml, "dune-project"@)
    &&& files_cache_said(a.gradle, gradle_files())
    &&& files_cache_said(a.python, python_project_files())
    &&& source_cache_said(a.python_source)
}

/// Whether the file `name` exists in `dir`, remembered per directory in
/// `cache` (one cache per file name).
pub fn has_file_cached(cache: &mut StringHashMap<bool>, dir: &str, name: &str) -> (r: bool)
    ensures
        cached_lookup(old(cache)@, final(cache)@, dir@, r),
        cache_said(old(cache)@, name@) ==> cache_said(final(cache)@, name@),
        remembers(old(cache)@, final(cache)@),
        cached_true(final(cache)@, dir@) == r,
{
    if let Some(v) = cache.get(dir) {
        return *v;
    }
    let d = chars_of(dir);
    let r = has_file(d.as_slice(), name);
    cache.insert(string_from(dir), r);
    r
}

/// Whether `dir` holds a Python project file, remembered per directory.
pub fn has_python_context_cached(cache: &mut StringHashMap<bool>, dir: &str) -> (r: bool)
    ensures
        cached_lookup(old(cache)@, final(cache)@, dir@, r),
        files_cache_said(old(cache)@, python_project_files()) ==> files_cache_said(final(cache)@, python_project_files()),
        remembers(old(cache)@, final(cache)@),
        cached_true(final(cache)@, dir@) == r,
{
    if let Some(v) = cache.get(dir) {
        return *v;
    }
    let d = chars_of(dir);
    let r = has_python_context(d.as_slice());
    cache.insert(string_from(dir), r);
    r
}

/// Whether `dir` holds a Gradle build file, remembered per directory.
pub fn has_gradle_context_cached(cache: &mut StringHashMap<bool>, dir: &str) -> (r: bool)
    ensures
        cached_lookup(old(cache)@, final(cache)@, dir@, r),
        files_cache_said(old(cache)@, gradle_files()) ==> files_cache_said(final(cache)@, gradle_files()),
        remembers(old(cache)@, final(cache)@),
        cached_true(final(cache)@, dir@) == r,
{
    if let Some(v) = cache.get(dir) {
        return *v;
    }
    let d = chars_of(dir);
    let r = crate::adapters::gradle::has_gradle_context(d.as_slice());
    cache.insert(string_from(dir), r);
    r
}

/// Whether `dir` directly holds a `.py` file, remembered per directory.
pub fn has_python_source_file_cached(cache: &mut StringHashMap<bool>, dir: &str) -> (r: bool)
    ensures
        cached_lookup(old(cache)@, final(cache)@, dir@, r),
        source_cache_said(old(cache)@) ==> source_cache_said(final(cache)@),
        remembers(old(cache)@, final(cache)@),
        cached_true(final(cache)@, dir@) == r,
{
    if let Some(v) = cache.get(dir) {
        return *v;
    }
    let d = chars_of(dir);
    let r = has_python_source_file(d.as_slice());
    cache.insert(string_from(dir), r);
    r
}

/// Whether a `__pycache__` directory in `dir` has a Python context: a Python
/// project file in `dir` or in one of the three directories above it (looked
/// up nearest first, remembered in `py`), or else a `.py` file directly in
/// `dir` (remembered in `src`).
pub(crate) fn pycache_context_cached(py: &mut StringHashMap<bool>, src: &mut StringHashMap<bool>, dir: &str) -> (r: bool)
    ensures
        remembers(old(py)@, final(py)@),
        remembers(old(src)@, final(src)@),
        r == (context_up(final(py)@, dir@, 4) || cached_true(final(src)@, dir@)),
        files_cache_said(old(py)@, python_project_files()) ==> files_cache_said(final(py)@, python_project_files()),
        source_cache_said(old(src)@) ==> source_cache_said(final(src)@),
        asked_up(final(py)@, dir@, 4),
        context_up(final(py)@, dir@, 4) || final(src)@.contains_key(dir@),
{
    let mut p: Vec<char> = chars_of(dir);
    let mut found = false;
    let mut done = false;
    let mut level: usize = 0;
    while level < 4 && !done
        invariant
            remembers(old(py)@, py@),
            files_cache_said(old(py)@, python_project_files()) ==> files_cache_said(py@, python_project_files()),
            level <= 4,
            found ==> done,
            done ==> found == context_up(py@, dir@, 4),
            done ==> asked_up(py@, dir@, 4),
            !done ==> checked_none(py@, dir@, level as nat, p@),
        decreases 4 - level + (if done { 0int } else { 1int }),
    {
        let ps = string_of(p.as_slice());
        let ghost before = py@;
        let here = has_python_context_cached(py, ps.as_str());
        proof {
            lemma_checked_none_kept(before, py@, dir@, level as nat, p@);
            lemma_checked_none_context(py@, dir@, level as nat, p@, 4);
        }
        if here {
            proof {
                lemma_checked_none_asked(py@, dir@, level as nat, p@, 4);
            }
            found = true;
            done = true;
        } else {
            match parent_of(p.as_slice()) {
                Some(pp) => {
                    proof {
                        lemma_checked_none_step(py@, dir@, level as nat, p@, pp@);
                    }
                    p = pp;
                    level += 1;
                },
                None => {
                    proof {
                        lemma_checked_none_asked(py@, dir@, level as nat, p@, 4);
                    }
                    done = true;
                },
            }
        }
    }
    proof {
        if !done {
            lemma_checked_none_context(py@, dir@, 4, p@, 4);
            lemma_checked_none_asked(py@, dir@, 4, p@, 4);
        }
    }
    found || has_python_source_file_cached(src, dir)
}

/// What the streaming scan reports next.
pub enum ScanEvent {
    /// A target, reported once per path.
    Found(CleanTarget),
    /// The named adapter failed; the scan goes on without it.
    Failed(&'static str, ScanError),
    /// The scan is over.
    Finished,
}

/// A scan of a tree that runs all enabled core adapters in a single walk and
/// then, where enabled, the gitignore adapter, reporting one target at a time.
pub struct StreamingScan {
    root: String,
    cfg: ScanConfig,
    /// 3: walking; 2: the gitignore pass is due; 1: reporting its results; 0: over.
    stage: u8,
    walk: Walk,
    /// The paths reported from the walk, in order.
    claimed: Vec<Vec<char>>,
    budget: u64,
    seen: StringHashSet,
    pending: Vec<Option<CleanTarget>>,
    next_pending: usize,
    /// The walk of the gitignore pass.
    gi_walk: Walk,
    /// That walk as it was opened.
    gi_start: Ghost<Walk>,
    /// What the gitignore pass gave, once it ran.
    gi_result: Ghost<Option<Result<Vec<CleanTarget>, ScanError>>>,
    node_cache: StringHashMap<bool>,
    cargo_cache: StringHashMap<bool>,
    go_cache: StringHashMap<bool>,
    maven_cache: StringHashMap<bool>,
    gradle_cache: StringHashMap<bool>,
    ocaml_cache: StringHashMap<bool>,
    python_cache: StringHashMap<bool>,
    python_source_cache: StringHashMap<bool>,
}

impl StreamingScan {
    /// The settings of the scan.
    pub closed spec fn config(&self) -> ScanConfig {
        self.cfg
    }

    /// The root of the scan.
    pub closed spec fn root_path(&self) -> Seq<char> {
        self.root@
    }

    /// The paths reported so far.
    pub closed spec fn reported(&self) -> Set<Seq<char>> {
        self.seen@
    }

    /// The stage of the scan (0 once it is over).
    pub closed spec fn stage_rank(&self) -> nat {
        self.stage as nat
    }

    /// What the walk gave back so far.
    pub closed spec fn walked(&self) -> Seq<Step> {
        self.walk.steps()
    }

    /// The path the walk was started at.
    pub closed spec fn walk_root(&self) -> Seq<char> {
        self.walk.root()
    }

    /// Whether the walk does not follow symbolic links, yields the root
    /// itself and descends to any depth.
    pub closed spec fn walk_whole_tree(&self) -> bool {
        !self.walk.follows_links() && self.walk.min_depth() == 0 && self.walk.max_depth() is None
    }

    /// The paths reported from the walk, in order.
    pub closed spec fn walk_reported(&self) -> Seq<Seq<char>> {
        self.claimed@.map_values(|v: Vec<char>| v@)
    }

    /// Whether the walk stage is over.
    pub closed spec fn walk_over(&self) -> bool {
        self.stage < 3
    }

    /// Whether the walk was taken to its end (or through more steps than a
    /// `u64` counts).
    pub closed spec fn walk_drained(&self) -> bool {
        self.walk.ended() || self.walk.steps().len() >= u64::MAX
    }

    /// What the scan's report of the walk is: the targets that the walk steps
    /// give (see [`stream_found`]) by answers that hold all that was asked,
    /// each reported; every answer remembered is what the disk said (see
    /// [`answers_said`]); and once the walk stage is over with a core adapter
    /// enabled, the walk was taken to its end.
    pub open spec fn walk_accounted(&self) -> bool {
        &&& self.walk_root() == self.root_path()
        &&& self.walk_whole_tree()
        &&& self.walk_reported() == stream_found(self.config(), self.root_path(), self.answers(), self.walked())
        &&& stream_asked(self.config(), self.root_path(), self.answers(), self.walked())
        &&& answers_said(self.answers())
        &&& forall|k: int| 0 <= k < self.walk_reported().len() ==> self.reported().contains(#[trigger] self.walk_reported()[k])
        &&& (self.walk_over() && core_enabled(self.config()) ==> self.walk_drained())
    }

    /// The walk of the gitignore pass as it was opened.
    pub closed spec fn gitignore_walk_start(&self) -> Walk {
        self.gi_start@
    }

    /// The walk of the gitignore pass.
    pub closed spec fn gitignore_walk(&self) -> Walk {
        self.gi_walk
    }

    /// What the gitignore pass gave, once it ran.
    pub closed spec fn gitignore_outcome(&self) -> Option<Result<Vec<CleanTarget>, ScanError>> {
        self.gi_result@
    }

    /// How many of the gitignore pass's results have been taken.
    pub closed spec fn gitignore_taken(&self) -> nat {
        self.next_pending as nat
    }

    /// The paths of the gitignore pass's results taken so far.
    pub open spec fn gitignore_reported(&self) -> Set<Seq<char>> {
        match self.gitignore_outcome() {
            Some(Ok(ts)) => result_paths(ts@, self.gitignore_taken() as int),
            _ => Set::empty(),
        }
    }

    /// Everything the scan reports by its end: the targets of the walk (see
    /// [`stream_found`]), and, where the gitignore pass ran and gave a list,
    /// the paths of that list.
    pub open spec fn full_report(&self) -> Set<Seq<char>> {
        self.walk_reported().to_set().union(
            match self.gitignore_outcome() {
                Some(Ok(ts)) => result_paths(ts@, ts.len() as int),
                _ => Set::empty(),
            },
        )
    }

    /// What the scan's report of the gitignore pass is: the pass runs once
    /// the walk stage is over where the gitignore adapter is enabled (then
    /// [`gitignore_run`] holds of its walk and outcome); the paths reported
    /// are those of the walk and of the pass's results taken so far; once the
    /// scan is over, that is the full report.
    pub open spec fn gitignore_accounted(&self) -> bool {
        &&& match self.gitignore_outcome() {
            None => !(self.config().gitignore && self.stage_rank() <= 1),
            Some(r) => self.config().gitignore && self.stage_rank() <= 1 && gitignore_run(
                self.gitignore_walk_start(),
                self.gitignore_walk(),
                self.root_path(),
                r,
            ),
        }
        &&& self.reported() == self.walk_reported().to_set().union(self.gitignore_reported())
        &&& (self.stage_rank() == 0 ==> self.reported() == self.full_report())
    }

    /// The walk steps left.
    pub closed spec fn steps_left(&self) -> nat {
        self.budget as nat
    }

    /// The gitignore results left to report.
    pub closed spec fn pending_left(&self) -> nat {
        if self.next_pending <= self.pending.len() {
            (self.pending.len() - self.next_pending) as nat
        } else {
            0
        }
    }

    /// The internal invariant of the scan.
    pub closed spec fn wf(&self) -> bool {
        &&& self.stage <= 3
        &&& self.walk_accounted()
        &&& self.walk.lens().len() == 0
        &&& (self.stage == 3 ==> self.walk.steps().len() + self.budget == u64::MAX)
        &&& self.gitignore_accounted()
        &&& (self.stage >= 2 ==> self.gi_walk == self.gi_start@ && fresh_walk(self.gi_start@, self.root@)
            && self.next_pending == 0)
        &&& self.next_pending <= self.pending.len()
        &&& (self.stage == 1 || self.stage == 2 ==> self.cfg.gitignore)
        &&& (self.stage == 1 ==> (self.gi_result@ matches Some(Ok(ts)) && self.pending.len() == ts.len()
            && forall|k: int| self.next_pending <= k < self.pending.len() ==> #[trigger] self.pending@[k] == Some(ts@[k])))
        &&& (self.stage == 0 ==> (self.gi_result@ matches Some(Ok(ts)) ==> self.next_pending == ts.len()))
        &&& forall|k: int|
            self.next_pending <= k < self.pending.len() ==> ((#[trigger] self.pending@[k]) matches Some(t)
                && self.cfg.gitignore && gitignore_target(self.root@, t))
    }

    /// A scan of the tree at `root` with the settings `cfg`; nothing is read
    /// yet.
    pub fn new(root: &str, cfg: &ScanConfig) -> (r: StreamingScan)
        ensures
            r.wf(),
            r.config() == *cfg,
            r.root_path() == root@,
            r.reported() == Set::<Seq<char>>::empty(),
            r.walked() == Seq::<Step>::empty(),
            r.walk_accounted(),
    {
        let core = cfg.node || cfg.cargo || cfg.python || cfg.go || cfg.gradle || cfg.maven
            || cfg.ocaml;
        let stage = if core {
            3u8
        } else if cfg.gitignore {
            2u8
        } else {
            0u8
        };
        let walk = Walk::open(root);
        let gi_walk = Walk::open(root);
        let ghost gi_start = gi_walk;
        let claimed: Vec<Vec<char>> = Vec::new();
        proof {
            assert(claimed@.map_values(|v: Vec<char>| v@) =~= Seq::<Seq<char>>::empty());
            assert(stream_found(*cfg, root@, MarkerAnswers {
                node: Map::empty(),
                cargo: Map::empty(),
                go: Map::empty(),
                maven: Map::empty(),
                gradle: Map::empty(),
                ocaml: Map::empty(),
                python: Map::empty(),
                python_source: Map::empty(),
            }, Seq::<Step>::empty()) == Seq::<Seq<char>>::empty());
            assert(Seq::<Seq<char>>::empty().to_set().union(Set::<Seq<char>>::empty()) =~= Set::<Seq<char>>::empty());
        }
        StreamingScan {
            root: string_from(root),
            cfg: *cfg,
            stage,
            walk,
            claimed,
            budget: u64::MAX,
            seen: StringHashSet::new(),
            pending: Vec::new(),
            next_pending: 0,
            gi_walk,
            gi_start: Ghost(gi_start),
            gi_result: Ghost(None),
            node_cache: StringHashMap::new(),
            cargo_cache: StringHashMap::new(),
            go_cache: StringHashMap::new(),
            maven_cache: StringHashMap::new(),
            gradle_cache: StringHashMap::new(),
            ocaml_cache: StringHashMap::new(),
            python_cache: StringHashMap::new(),
            python_source_cache: StringHashMap::new(),
        }
    }

    /// What the scan remembers per directory of the files looked for.
    pub closed spec fn answers(&self) -> MarkerAnswers {
        MarkerAnswers {
            node: self.node_cache@,
            cargo: self.cargo_cache@,
            go: self.go_cache@,
            maven: self.maven_cache@,
            gradle: self.gradle_cache@,
            ocaml: self.ocaml_cache@,
            python: self.python_cache@,
            python_source: self.python_source_cache@,
        }
    }

    /// Which enabled core adapter claims the directory `name` in `parent`, in
    /// the order node, cargo, python, go, gradle, maven, ocaml, with the
    /// description of the target. Each project file looked for is looked up
    /// once per directory and remembered in the cache of its adapter.
    #[verifier::spinoff_prover]
    #[verifier::rlimit(30)]
    fn claim_dir(&mut self, name: &[char], parent: &[char]) -> (r: Option<(&'static str, String)>)
        ensures
            final(self).cfg == old(self).cfg,
            final(self).root == old(self).root,
            final(self).stage == old(self).stage,
            final(self).walk == old(self).walk,
            final(self).claimed == old(self).claimed,
            final(self).gi_walk == old(self).gi_walk,
            final(self).gi_start == old(self).gi_start,
            final(self).gi_result == old(self).gi_result,
            final(self).budget == old(self).budget,
            final(self).seen == old(self).seen,
            final(self).pending == old(self).pending,
            final(self).next_pending == old(self).next_pending,
            answers_kept(old(self).answers(), final(self).answers()),
            answers_said(old(self).answers()) ==> answers_said(final(self).answers()),
            match r {
                Some((a, d)) => claim_in(final(self).cfg, final(self).answers(), name@, parent@) == Some((a@, d@)),
                None => claim_in(final(self).cfg, final(self).answers(), name@, parent@) is None,
            },
            claim_asked_in(final(self).cfg, final(self).answers(), name@, parent@),
            r matches Some((a, d)) ==> dir_claim(old(self).cfg, name@, a@, d@),
    {
        let cfg = self.cfg;
        let dir = string_of(parent);
        if cfg.node && chars_are(name, "node_modules") && has_file_cached(
            &mut self.node_cache,
            dir.as_str(),
            "package.json",
        ) {
            return Some(("node", rule_describe(DirRule::Node, name)));
        }
        if cfg.cargo && chars_are(name, "target") && has_file_cached(
            &mut self.cargo_cache,
            dir.as_str(),
            "Cargo.toml",
        ) {
            return Some(("cargo", rule_describe(DirRule::Cargo, name)));
        }
        if cfg.python && is_python_dir_name(name) {
            let has_context = if chars_are(name, "__pycache__") {
                pycache_context_cached(
                    &mut self.python_cache,
                    &mut self.python_source_cache,
                    dir.as_str(),
                )
            } else {
                has_python_context_cached(&mut self.python_cache, dir.as_str())
            };
            if has_context {
                return Some(("python", python_dir_description(name)));
            }
        }
        if cfg.go && chars_are(name, "vendor") && has_file_cached(
            &mut self.go_cache,
            dir.as_str(),
            "go.mod",
        ) {
            return Some(("go", rule_describe(DirRule::Go, name)));
        }
        if cfg.gradle && (chars_are(name, ".gradle") || chars_are(name, "build"))
            && has_gradle_context_cached(&mut self.gradle_cache, dir.as_str()) {
            return Some(("gradle", rule_describe(DirRule::Gradle, name)));
        }
        if cfg.maven && chars_are(name, "target") && has_file_cached(
            &mut self.maven_cache,
            dir.as_str(),
            "pom.xml",
        ) {
            return Some(("maven", rule_describe(DirRule::Maven, name)));
        }
        if cfg.ocaml && chars_are(name, "_build") && has_file_cached(
            &mut self.ocaml_cache,
            dir.as_str(),
            "dune-project",
        ) {
            return Some(("ocaml", rule_describe(DirRule::Ocaml, name)));
        }
        None
    }

    /// Takes the walk on to the next target it reports, or to its end (then
    /// the stage moves on).
    #[verifier::spinoff_prover]
    #[verifier::rlimit(60)]
    fn walk_stage(&mut self) -> (r: Option<CleanTarget>)
        requires
            old(self).wf(),
            old(self).stage == 3,
        ensures
            final(self).wf(),
            final(self).cfg == old(self).cfg,
            final(self).root == old(self).root,
            final(self).pending == old(self).pending,
            final(self).next_pending == old(self).next_pending,
            final(self).gi_walk == old(self).gi_walk,
            final(self).gi_start == old(self).gi_start,
            final(self).gi_result == old(self).gi_result,
            old(self).walked().is_prefix_of(final(self).walked()),
            answers_kept(old(self).answers(), final(self).answers()),
            match r {
                Some(t) => {
                    &&& final(self).stage == 3
                    &&& final(self).budget < old(self).budget
                    &&& !old(self).reported().contains(t.path@)
                    &&& final(self).reported() == old(self).reported().insert(t.path@)
                    &&& streaming_target(old(self).config(), old(self).root_path(), t)
                    &&& (old(self).config().no_size ==> t.size == 0)
                    &&& final(self).walk_reported() == old(self).walk_reported().push(t.path@)
                    &&& stream_pick(final(self).cfg, final(self).root@, final(self).answers(), final(self).walked().last(), old(self).walk_reported()) == Some((t.adapter@, t.description@))
                    &&& (!old(self).cfg.no_size && step_is_dir(final(self).walked().last()) ==> dir_size_of(t.path@, t.size))
                },
                None => {
                    &&& final(self).stage == (if old(self).cfg.gitignore { 2u8 } else { 0u8 })
                    &&& final(self).reported() == old(self).reported()
                    &&& final(self).walk_reported() == old(self).walk_reported()
                },
            },
    {
        let cfg = self.cfg;
        let ghost root = self.root@;
        let root_chars = chars_of(self.root.as_str());
        while self.budget > 0
            invariant_except_break
                self.stage == 3,
            invariant
                old(self).stage == 3,
                self.wf(),
                self.cfg == old(self).cfg,
                cfg == self.cfg,
                root == self.root@,
                root_chars@ == root,
                self.root == old(self).root,
                self.seen@ == old(self).seen@,
                self.claimed@ == old(self).claimed@,
                self.gi_walk == old(self).gi_walk,
                self.gi_start == old(self).gi_start,
                self.gi_result == old(self).gi_result,
                self.budget < old(self).budget || self.budget == old(self).budget,
                self.pending == old(self).pending,
                self.next_pending == old(self).next_pending,
                old(self).walked().is_prefix_of(self.walked()),
                answers_kept(old(self).answers(), self.answers()),
            ensures
                self.stage == 3 || self.stage == (if self.cfg.gitignore { 2u8 } else { 0u8 }),
                self.stage != 3 ==> self.budget < old(self).budget,
                self.stage == 3 ==> self.budget == 0,
            decreases self.budget,
        {
            self.budget = self.budget - 1;
            let ghost steps0 = self.walk.steps();
            let ghost a0 = self.answers();
            let ghost found0 = stream_found(cfg, root, a0, steps0);
            let item = self.walk.next_visit();
            let v = match item {
                None => {
                    self.stage = if self.cfg.gitignore {
                        2
                    } else {
                        0
                    };
                    break;
                },
                Some(None) => {
                    proof {
                        lemma_stream_push(cfg, root, steps0, None, a0);
                    }
                    continue;
                },
                Some(Some(v)) => v,
            };
            let ghost st: Step = Some((v.path@, v.is_dir, v.is_file));
            let path = chars_of(v.path.as_str());
            let under = under_any(path.as_slice(), &self.claimed);
            proof {
                assert(self.walk_reported() == found0);
                assert(self.claimed@.len() == found0.len());
                assert forall|k: int| 0 <= k < self.claimed@.len() implies (#[trigger] self.claimed@[k])@ == found0[k] by {
                    assert(self.walk_reported()[k] == self.claimed@[k]@);
                }
                if under {
                    let k = choose|k: int| 0 <= k < self.claimed@.len() && within(path@, #[trigger] self.claimed@[k]@);
                    assert(within(path@, found0[k]));
                } else if under_some(path@, found0) {
                    let k = choose|k: int| 0 <= k < found0.len() && within(path@, #[trigger] found0[k]);
                    assert(within(path@, self.claimed@[k]@));
                }
                assert(under == under_some(path@, found0));
            }
            if under {
                proof {
                    lemma_stream_push(cfg, root, steps0, st, a0);
                }
                continue;
            }
            if !is_within(path.as_slice(), root_chars.as_slice()) {
                proof {
                    lemma_stream_push(cfg, root, steps0, st, a0);
                }
                continue;
            }
            proof {
                lemma_not_seen(found0, path@);
                assert(!self.seen@.contains(path@));
            }
            let name = file_name_of(path.as_slice());
            if v.is_dir {
                let parent = match parent_of(path.as_slice()) {
                    Some(p) => p,
                    None => {
                        proof {
                            lemma_stream_push(cfg, root, steps0, st, a0);
                        }
                        continue;
                    },
                };
                let claim = self.claim_dir(name.as_slice(), parent.as_slice());
                proof {
                    lemma_stream_kept(cfg, root, steps0, a0, self.answers());
                    lemma_stream_push(cfg, root, steps0, st, self.answers());
                }
                match claim {
                    Some((adapter, description)) => {
                        self.walk.skip_current_dir();
                        let ghost before = self.claimed@;
                        self.claimed.push(path);
                        proof {
                            assert(self.claimed@ == before.push(self.claimed@.last()));
                            assert(self.walk_reported() == found0.push(path@));
                        }
                        if self.seen.insert(v.path.clone()) {
                            proof {
                                lemma_seen_push(found0, self.gitignore_reported(), path@);
                                assert forall|k: int| 0 <= k < self.walk_reported().len() implies self.reported().contains(#[trigger] self.walk_reported()[k]) by {
                                    assert(self.walk_reported().contains(self.walk_reported()[k]));
                                }
                            }
                            let size = if self.cfg.no_size {
                                0
                            } else {
                                compute_dir_size(v.path.as_str())
                            };
                            let t = CleanTarget { path: v.path, adapter, description, size };
                            return Some(t);
                        }
                    },
                    None => {},
                }
            } else {
                if v.is_file && self.cfg.python {
                    let suffix = chars_of(".pyc");
                    if ends_with_chars(name.as_slice(), suffix.as_slice()) {
                        proof {
                            lemma_stream_push(cfg, root, steps0, st, a0);
                        }
                        let ghost before = self.claimed@;
                        self.claimed.push(path);
                        proof {
                            assert(self.walk_reported() == found0.push(path@));
                        }
                        if self.seen.insert(v.path.clone()) {
                            proof {
                                lemma_seen_push(found0, self.gitignore_reported(), path@);
                                assert forall|k: int| 0 <= k < self.walk_reported().len() implies self.reported().contains(#[trigger] self.walk_reported()[k]) by {
                                    assert(self.walk_reported().contains(self.walk_reported()[k]));
                                }
                            }
                            let size = if self.cfg.no_size {
                                0
                            } else {
                                match v.metadata() {
                                    Some((_, len)) => len,
                                    None => 0,
                                }
                            };
                            let t = CleanTarget {
                                path: v.path,
                                adapter: "python",
                                description: string_from("Python bytecode (.pyc)"),
                                size,
                            };
                            return Some(t);
                        }
                    }
                }
                proof {
                    lemma_stream_push(cfg, root, steps0, st, a0);
                }
            }
        }
        if self.stage == 3 {
            self.stage = if self.cfg.gitignore {
                2
            } else {
                0
            };
        }
            None
    }

    /// The gitignore pass: runs the gitignore adapter over its own walk of
    /// the root and keeps its results to report, or gives its error.
    #[verifier::spinoff_prover]
    fn gitignore_stage(&mut self) -> (r: Option<ScanError>)
        requires
            old(self).wf(),
            old(self).stage == 2,
        ensures
            final(self).wf(),
            final(self).cfg == old(self).cfg,
            final(self).root == old(self).root,
            final(self).walk == old(self).walk,
            final(self).claimed == old(self).claimed,
            final(self).seen == old(self).seen,
            final(self).budget == old(self).budget,
            final(self).answers() == old(self).answers(),
            match r {
                Some(_) => final(self).stage == 0,
                None => final(self).stage == 1,
            },
    {
        let ghost w0 = self.gi_walk;
        let r = gitignore_scan_from(&mut self.gi_walk);
        let ghost rr = r;
        proof {
            assert(self.gi_walk.steps().skip(0) == self.gi_walk.steps());
            assert(gitignore_run(w0, self.gi_walk, self.root@, rr));
        }
        match r {
            Ok(ts) => {
                let ghost tsv = ts@;
                let mut pending: Vec<Option<CleanTarget>> = Vec::new();
                for t in it: ts
                    invariant
                        self.cfg.gitignore,
                        it.seq() == tsv,
                        pending.len() == it.index(),
                        forall|k: int| 0 <= k < pending.len() ==> #[trigger] pending@[k] == Some(tsv[k]),
                        forall|k: int|
                            0 <= k < it.seq().len() ==> gitignore_target(
                                self.root@,
                                #[trigger] it.seq()[k],
                            ),
                {
                    pending.push(Some(t));
                }
                self.pending = pending;
                self.next_pending = 0;
                self.gi_result = Ghost(Some(rr));
                self.stage = 1;
                proof {
                    assert(result_paths(tsv, 0) =~= Set::<Seq<char>>::empty());
                    assert(self.walk_reported().to_set().union(Set::<Seq<char>>::empty()) =~= self.walk_reported().to_set());
                }
                None
            },
            Err(e) => {
                self.gi_result = Ghost(Some(rr));
                self.stage = 0;
                proof {
                    assert(self.walk_reported().to_set().union(Set::<Seq<char>>::empty()) =~= self.walk_reported().to_set());
                }
                Some(e)
            },
        }
    }

    /// Reports the next result of the gitignore pass not reported yet, or
    /// ends the scan.
    #[verifier::spinoff_prover]
    fn pending_stage(&mut self) -> (r: Option<CleanTarget>)
        requires
            old(self).wf(),
            old(self).stage == 1,
        ensures
            final(self).wf(),
            final(self).cfg == old(self).cfg,
            final(self).root == old(self).root,
            final(self).walk == old(self).walk,
            final(self).claimed == old(self).claimed,
            final(self).budget == old(self).budget,
            final(self).answers() == old(self).answers(),
            final(self).gi_result == old(self).gi_result,
            final(self).gi_walk == old(self).gi_walk,
            final(self).gi_start == old(self).gi_start,
            final(self).pending.len() == old(self).pending.len(),
            final(self).next_pending >= old(self).next_pending,
            match r {
                Some(t) => {
                    &&& final(self).stage == 1
                    &&& final(self).next_pending > old(self).next_pending
                    &&& !old(self).reported().contains(t.path@)
                    &&& final(self).reported() == old(self).reported().insert(t.path@)
                    &&& gitignore_target(old(self).root@, t)
                    &&& (old(self).cfg.no_size ==> t.size == 0)
                    &&& gitignore_gave(old(self).gitignore_outcome(), old(self).gitignore_taken() as int, t, old(self).cfg.no_size)
                },
                None => final(self).stage == 0 && final(self).reported() == old(self).reported(),
            },
    {
        let ghost tsv = match self.gi_result@ {
            Some(Ok(ts)) => ts@,
            _ => Seq::empty(),
        };
        let ghost lo = self.next_pending as int;
        while self.next_pending < self.pending.len()
            invariant
                self.wf(),
                self.stage == 1,
                self.gi_result@ matches Some(Ok(ts)) && ts@ == tsv,
                self.gi_result == old(self).gi_result,
                self.pending.len() == old(self).pending.len(),
                self.next_pending >= old(self).next_pending,
                old(self).next_pending == lo,
                self.budget == old(self).budget,
                self.cfg == old(self).cfg,
                self.root == old(self).root,
                self.seen@ == old(self).seen@,
                self.walk == old(self).walk,
                self.claimed == old(self).claimed,
                self.gi_walk == old(self).gi_walk,
                self.gi_start == old(self).gi_start,
                self.answers() == old(self).answers(),
            decreases self.pending.len() - self.next_pending,
        {
            let k = self.next_pending;
            let ghost pend0 = self.pending@;
            let ghost seen0 = self.seen@;
            self.next_pending = k + 1;
            let mut tmp: Option<CleanTarget> = None;
            self.pending.set_and_swap(k, &mut tmp);
            let mut t = tmp.unwrap();
            proof {
                assert(pend0[k as int] == Some(tsv[k as int]));
                assert(t == tsv[k as int]);
                assert forall|j: int| self.next_pending <= j < self.pending.len() implies #[trigger] self.pending@[j] == Some(tsv[j]) by {
                    assert(self.pending@[j] == pend0[j]);
                }
                lemma_result_paths_step(tsv, k as int);
                lemma_union_insert(self.walk_reported().to_set(), result_paths(tsv, k as int), t.path@);
            }
            if self.seen.insert(t.path.clone()) {
                if self.cfg.no_size {
                    t.size = 0;
                }
                proof {
                    assert(gitignore_entry(tsv, lo, t, self.cfg.no_size)) by {
                        assert(lo <= k < tsv.len());
                    }
                }
                return Some(t);
            }
            proof {
                assert(seen0.insert(tsv[k as int].path@) == seen0);
            }
        }
        self.stage = 0;
        None
    }

    /// The next event of the scan. A target is reported at most once per
    /// path, is one that the enabled adapters can report, and has size 0
    /// where sizes are skipped. A target of the walk is what the walk step
    /// just taken gives (see [`stream_pick`]), with the size of its tree where
    /// it is a directory; a target of the gitignore pass is one of that
    /// pass's results not taken before. Once the scan is over, it has
    /// reported exactly [`StreamingScan::full_report`]. Until then, each call
    /// makes progress: the stage, the walk steps left and the gitignore
    /// results left decrease lexicographically.
    #[verifier::spinoff_prover]
    #[verifier::rlimit(40)]
    pub fn next_event(&mut self) -> (r: ScanEvent)
        requires
            old(self).wf(),
        ensures
            final(self).wf(),
            final(self).config() == old(self).config(),
            final(self).root_path() == old(self).root_path(),
            match r {
                ScanEvent::Found(t) => {
                    &&& !old(self).reported().contains(t.path@)
                    &&& final(self).reported() == old(self).reported().insert(t.path@)
                    &&& streaming_target(old(self).config(), old(self).root_path(), t)
                    &&& (old(self).config().no_size ==> t.size == 0)
                },
                ScanEvent::Failed(name, _) => {
                    &&& name@ == "gitignore"@
                    &&& final(self).reported() == old(self).reported()
                },
                ScanEvent::Finished => {
                    &&& final(self).reported() == old(self).reported()
                    &&& final(self).stage_rank() == 0
                },
            },
            old(self).stage_rank() == 0 ==> r is Finished,
            final(self).walk_accounted(),
            old(self).walked().is_prefix_of(final(self).walked()),
            answers_kept(old(self).answers(), final(self).answers()),
            old(self).walk_over() ==> final(self).walk_reported() == old(self).walk_reported(),
            r is Finished ==> final(self).walk_over(),
            final(self).gitignore_accounted(),
            old(self).gitignore_outcome() is Some ==> final(self).gitignore_outcome() == old(self).gitignore_outcome(),
            r is Finished ==> final(self).reported() == final(self).full_report(),
            r matches ScanEvent::Found(t) ==> (final(self).walk_reported() == old(self).walk_reported().push(t.path@)
                && stream_pick(
                final(self).config(),
                final(self).root_path(),
                final(self).answers(),
                final(self).walked().last(),
                old(self).walk_reported(),
            ) == Some((t.adapter@, t.description@)) && (!old(self).config().no_size && step_is_dir(
                final(self).walked().last(),
            ) ==> dir_size_of(t.path@, t.size))) || (final(self).walk_reported() == old(self).walk_reported()
                && gitignore_gave(final(self).gitignore_outcome(), old(self).gitignore_taken() as int, t, old(self).config().no_size)),
            !(r is Finished) ==> decreases_to!(old(self).stage_rank(), old(self).steps_left(), old(self).pending_left() => final(self).stage_rank(), final(self).steps_left(), final(self).pending_left()),
    {
        proof {
            lemma_answers_kept_refl(self.answers());
            lemma_prefix_refl(self.walked());
        }
        if self.stage == 3 {
            let ghost a0 = self.answers();
            let ghost w0 = self.walked();
            if let Some(t) = self.walk_stage() {
                return ScanEvent::Found(t);
            }
        }
        if self.stage == 2 {
            if let Some(e) = self.gitignore_stage() {
                return ScanEvent::Failed("gitignore", e);
            }
        }
        if self.stage == 1 {
            if let Some(t) = self.pending_stage() {
                return ScanEvent::Found(t);
            }
        }
        ScanEvent::Finished
    }
}

/// The streaming scan of `root` with the settings `cfg`.
pub fn scan_streaming(root: &str, cfg: &ScanConfig) -> (r: StreamingScan)
    ensures
        r.wf(),
        r.config() == *cfg,
        r.root_path() == root@,
        r.reported() == Set::<Seq<char>>::empty(),
{
    StreamingScan::new(root, cfg)
}

/// `ts` is what the streaming scan of `root` with `cfg` can give, sorted:
/// targets that the enabled adapters can report, each path once, in
/// ascending path order, of size 0 when sizes are skipped.
pub open spec fn enabled_scan_result(cfg: ScanConfig, root: Seq<char>, ts: Seq<CleanTarget>) -> bool {
    &&& forall|i: int| 0 <= i < ts.len() ==> streaming_target(cfg, root, #[trigger] ts[i])
    &&& forall|i: int| 0 <= i < ts.len() ==> cfg.no_size ==> #[trigger] ts[i].size == 0
    &&& forall|i: int, j: int| 0 <= i < j < ts.len() ==> ts[i].path@ != ts[j].path@
    &&& forall|i: int, j: int|
        0 <= i < j < ts.len() ==> !key_lt(path_key(ts[j].path@), path_key(ts[i].path@))
}

/// Takes the scan `s` to its end and gives every target it reports, in the
/// order reported: each path once, and every path the scan reports (so every
/// target that the walk gives, see [`StreamingScan::walk_accounted`]).
pub fn collect_events(s: &mut StreamingScan) -> (all: Vec<CleanTarget>)
    requires
        old(s).wf(),
        old(s).reported() == Set::<Seq<char>>::empty(),
    ensures
        final(s).wf(),
        final(s).config() == old(s).config(),
        final(s).root_path() == old(s).root_path(),
        final(s).stage_rank() == 0,
        final(s).walk_accounted(),
        final(s).walk_over(),
        final(s).gitignore_accounted(),
        final(s).reported() == final(s).full_report(),
        forall|i: int| 0 <= i < all.len() ==> final(s).reported().contains(#[trigger] all@[i].path@),
        forall|p: Seq<char>| #[trigger] final(s).reported().contains(p) ==> exists|i: int| 0 <= i < all.len() && all@[i].path@ == p,
        forall|i: int| 0 <= i < all.len() ==> streaming_target(old(s).config(), old(s).root_path(), #[trigger] all@[i]),
        forall|i: int| 0 <= i < all.len() ==> old(s).config().no_size ==> #[trigger] all@[i].size == 0,
        forall|i: int, j: int| 0 <= i < j < all.len() ==> all@[i].path@ != all@[j].path@,
{
    let ghost cfg = s.config();
    let ghost root = s.root_path();
    let mut all: Vec<CleanTarget> = Vec::new();
    loop
        invariant
            s.wf(),
            s.config() == cfg,
            s.root_path() == root,
            forall|i: int| 0 <= i < all.len() ==> s.reported().contains(#[trigger] all@[i].path@),
            forall|p: Seq<char>| #[trigger] s.reported().contains(p) ==> exists|i: int| 0 <= i < all.len() && all@[i].path@ == p,
            forall|i: int|
                0 <= i < all.len() ==> streaming_target(cfg, root, #[trigger] all@[i]),
            forall|i: int| 0 <= i < all.len() ==> cfg.no_size ==> #[trigger] all@[i].size == 0,
            forall|i: int, j: int| 0 <= i < j < all.len() ==> all@[i].path@ != all@[j].path@,
        ensures
            s.wf(),
            s.config() == cfg,
            s.root_path() == root,
            s.stage_rank() == 0,
            s.walk_accounted(),
            s.walk_over(),
            s.gitignore_accounted(),
            s.reported() == s.full_report(),
            forall|i: int| 0 <= i < all.len() ==> s.reported().contains(#[trigger] all@[i].path@),
            forall|p: Seq<char>| #[trigger] s.reported().contains(p) ==> exists|i: int| 0 <= i < all.len() && all@[i].path@ == p,
            forall|i: int|
                0 <= i < all.len() ==> streaming_target(cfg, root, #[trigger] all@[i]),
            forall|i: int| 0 <= i < all.len() ==> cfg.no_size ==> #[trigger] all@[i].size == 0,
            forall|i: int, j: int| 0 <= i < j < all.len() ==> all@[i].path@ != all@[j].path@,
        decreases s.stage_rank(), s.steps_left(), s.pending_left(),
    {
        let ghost rep0 = s.reported();
        let ghost all0 = all@;
        match s.next_event() {
            ScanEvent::Found(t) => {
                let ghost n = all.len() as int;
                all.push(t);
                proof {
                    assert forall|p: Seq<char>| #[trigger] s.reported().contains(p) implies exists|i: int| 0 <= i < all.len() && all@[i].path@ == p by {
                        if p == all@[n].path@ {
                        } else {
                            assert(rep0.contains(p));
                            let i = choose|i: int| 0 <= i < all0.len() && all0[i].path@ == p;
                            assert(all@[i] == all0[i]);
                        }
                    }
                }
            },
            ScanEvent::Failed(_, _) => {},
            ScanEvent::Finished => break,
        }
    }
    all
}

/// `s` is the streaming scan of `root` with `cfg` after its end, and `ts`
/// holds exactly the paths it reported: among them every target that its walk
/// gives (see [`StreamingScan::walk_accounted`]).
pub open spec fn scan_finished(s: StreamingScan, cfg: ScanConfig, root: Seq<char>, ts: Seq<CleanTarget>) -> bool {
    &&& s.config() == cfg
    &&& s.root_path() == root
    &&& s.walk_over()
    &&& s.walk_accounted()
    &&& s.gitignore_accounted()
    &&& s.reported() == s.full_report()
    &&& forall|i: int| 0 <= i < ts.len() ==> s.reported().contains(#[trigger] ts[i].path@)
    &&& forall|p: Seq<char>| #[trigger] s.reported().contains(p) ==> exists|i: int| 0 <= i < ts.len() && ts[i].path@ == p
}

/// `ts` holds exactly the paths that a streaming scan of `root` with `cfg`
/// reported by its end.
pub open spec fn scan_reports(cfg: ScanConfig, root: Seq<char>, ts: Seq<CleanTarget>) -> bool {
    exists|sc: StreamingScan| #[trigger] scan_finished(sc, cfg, root, ts)
}

/// All targets of the streaming scan of `root` with `cfg`, sorted by path.
/// An adapter that fails contributes nothing.
pub fn scan_enabled(root: &str, cfg: &ScanConfig) -> (r: Result<Vec<CleanTarget>, ScanError>)
    ensures
        r matches Ok(ts) && enabled_scan_result(*cfg, root@, ts@) && scan_reports(*cfg, root@, ts@),
{
    let mut s = StreamingScan::new(root, cfg);
    let all = collect_events(&mut s);
    let r = sort_by_path(all);
    proof {
        let perm = choose|perm: Seq<usize>|
            sort_perm(path_keys(all@), false, perm) && perm.len() == r@.len() && (forall|i: int|
                0 <= i < r@.len() ==> #[trigger] r@[i] == all@[perm[i] as int]);
        assert forall|i: int, j: int| 0 <= i < j < r.len() implies r@[i].path@ != r@[j].path@ by {
            lemma_ranked_distinct(path_keys(all@), false, perm, i, j);
            assert(r@[i] == all@[perm[i] as int]);
            assert(r@[j] == all@[perm[j] as int]);
        }
        assert forall|i: int| 0 <= i < r.len() implies streaming_target(
            *cfg,
            root@,
            #[trigger] r@[i],
        ) by {
            assert(r@[i] == all@[perm[i] as int]);
        }
        assert forall|i: int| 0 <= i < r.len() && cfg.no_size implies #[trigger] r@[i].size
            == 0 by {
            assert(r@[i] == all@[perm[i] as int]);
        }
        assert(enabled_scan_result(*cfg, root@, r@));
        assert forall|p: Seq<char>| #[trigger] s.reported().contains(p) implies exists|i: int| 0 <= i < r.len() && r@[i].path@ == p by {
            let j = choose|j: int| 0 <= j < all.len() && all@[j].path@ == p;
            assert(perm.contains(j as usize));
            let i = choose|i: int| 0 <= i < perm.len() && perm[i] == j as usize;
            assert(r@[i] == all@[perm[i] as int]);
        }
        assert forall|i: int| 0 <= i < r.len() implies s.reported().contains(#[trigger] r@[i].path@) by {
            assert(r@[i] == all@[perm[i] as int]);
        }
        assert(scan_finished(s, *cfg, root@, r@));
        assert(scan_reports(*cfg, root@, r@));
    }
    Ok(r)
}

} // verus!
