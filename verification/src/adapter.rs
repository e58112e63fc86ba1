//! Clean targets, the adapter contract, and the size of a directory tree.

use vstd::prelude::*;

use crate::walk::{capped, file_bytes, sum_file_lens, walk_run, Walk};

verus! {

/// A single item found as a candidate for deletion.
pub struct CleanTarget {
    /// Path of the file or directory.
    pub path: String,
    /// Name of the adapter that found it (e.g. "cargo").
    pub adapter: &'static str,
    /// Human-readable label shown in the lists.
    pub description: String,
    /// Size in bytes (computed during the scan).
    pub size: u64,
}

impl View for CleanTarget {
    type V = (Seq<char>, Seq<char>, Seq<char>, u64);

    open spec fn view(&self) -> Self::V {
        (self.path@, self.adapter@, self.description@, self.size)
    }
}

impl CleanTarget {
    /// A copy of this target.
    pub fn duplicate(&self) -> (r: CleanTarget)
        ensures
            r@ == self@,
    {
        CleanTarget {
            path: self.path.clone(),
            adapter: self.adapter,
            description: self.description.clone(),
            size: self.size,
        }
    }
}

/// The views of a sequence of targets.
pub open spec fn views(ts: Seq<CleanTarget>) -> Seq<(Seq<char>, Seq<char>, Seq<char>, u64)> {
    ts.map_values(|t: CleanTarget| t@)
}

/// No target lies at or below the path of an earlier one.
pub open spec fn nested_free(ts: Seq<CleanTarget>) -> bool {
    forall|i: int, j: int|
        0 <= i < j < ts.len() ==> !crate::path::within(#[trigger] ts[j].path@, #[trigger] ts[i].path@)
}

/// The sum of the sizes of the first `n` targets.
pub open spec fn sum_sizes(ts: Seq<CleanTarget>, n: int) -> int
    decreases n,
{
    if n <= 0 {
        0
    } else {
        sum_sizes(ts, n - 1) + ts[n - 1].size
    }
}

/// The size sum grows with the number of targets summed.
pub proof fn lemma_sum_mono(ts: Seq<CleanTarget>, m: int, n: int)
    requires
        m <= n,
    ensures
        sum_sizes(ts, m) <= sum_sizes(ts, n),
    decreases n - m,
{
    if m < n {
        lemma_sum_mono(ts, m, n - 1);
    }
}

/// Why a scan could not run.
#[derive(Debug)]
pub enum ScanError {
    /// The `.gitignore` file could not be turned into a matcher.
    InvalidGitignore(ignore::Error),
}

/// The sum of the sizes of `targets`.
pub fn total_size(targets: &[CleanTarget]) -> (r: u64)
    requires
        sum_sizes(targets@, targets@.len() as int) <= u64::MAX,
    ensures
        r == sum_sizes(targets@, targets@.len() as int),
{
    let mut total: u64 = 0;
    let mut i: usize = 0;
    while i < targets.len()
        invariant
            i <= targets.len(),
            sum_sizes(targets@, targets@.len() as int) <= u64::MAX,
            total == sum_sizes(targets@, i as int),
        decreases targets.len() - i,
    {
        proof {
            lemma_sum_mono(targets@, i as int + 1, targets@.len() as int);
        }
        total = total + targets[i].size;
        i += 1;
    }
    total
}

/// The contract every cleanup adapter satisfies.
pub trait Adapter {
    /// Short, lowercase identifier used in flags (e.g. `"cargo"`).
    fn name(&self) -> &'static str;

    /// One-line human description.
    fn description(&self) -> &'static str;

    /// `true` for adapters that are enabled by default (safe); dangerous
    /// adapters return `false` (opt-in).
    fn is_safe(&self) -> bool;

    /// What a scan of `root` gives, as each adapter states it.
    open spec fn gives(&self, root: Seq<char>, r: Result<Vec<CleanTarget>, ScanError>) -> bool {
        true
    }

    /// Walks `root` recursively and returns the targets found.
    fn scan(&self, root: &str) -> (r: Result<Vec<CleanTarget>, ScanError>)
        ensures
            self.gives(root@, r),
    ;
}

/// `n` is the byte count of the regular files that a walk of the tree at
/// `path`, taken to its end, read (see [`file_bytes`]), stopping at
/// `u64::MAX`.
pub open spec fn dir_size_of(path: Seq<char>, n: u64) -> bool {
    exists|w0: Walk, w1: Walk| #[trigger]
        walk_run(w0, w1, path) && w1.steps() == w0.steps() && n == capped(file_bytes(w1.lens()))
}

/// The total byte count of the regular files in the tree at `path`, best
/// effort: symbolic links are not followed, entries that cannot be read are
/// skipped, and the sum stops growing at `u64::MAX`. What the walk gives back
/// depends on the disk; [`sum_file_lens`] states what is made of it.
pub fn compute_dir_size(path: &str) -> (r: u64)
    ensures
        dir_size_of(path@, r),
{
    let mut w = Walk::open(path);
    let ghost w0 = w;
    let r = sum_file_lens(&mut w);
    proof {
        assert(w.lens().skip(0) == w.lens());
        assert(walk_run(w0, w, path@));
    }
    r
}

} // verus!
