//! A walk of a directory tree that keeps a record of what it gave back: the
//! settings it was started with, each step it took, each file length it
//! read, and each answer to whether a file exists.
//!
//! What the walk yields depends on the disk, so nothing is stated of it.
//! Instead the record lets the scans state exactly what they make of
//! whatever came back: only the methods of this module extend it.

use vstd::hash_map::StringHashMap;
use vstd::prelude::*;

use crate::disk::{
    gitignore_add, gitignore_build, gitignore_builder, gitignore_ignores, entry_is_dir, entry_is_file, entry_metadata, entry_path, path_exists, walk_dir_max_depth,
    walk_dir_min_depth, walk_dir_new, walk_dir_no_follow, walk_iter, walk_next,
    walk_skip_current_dir,
};
use crate::path::join;

verus! {

/// Whether `after` remembers every answer that `before` remembers.
pub open spec fn remembers(before: Map<Seq<char>, bool>, after: Map<Seq<char>, bool>) -> bool {
    forall|k: Seq<char>| #[trigger]
        before.contains_key(k) ==> after.contains_key(k) && after[k] == before[k]
}

/// Whether `cache` remembers `key` as holding.
pub open spec fn cached_true(cache: Map<Seq<char>, bool>, key: Seq<char>) -> bool {
    cache.contains_key(key) && cache[key]
}

/// What a cached lookup does: a key already in the cache gives its value and
/// leaves the cache as it was; another key is looked up and its result added.
pub open spec fn cached_lookup(
    before: Map<Seq<char>, bool>,
    after: Map<Seq<char>, bool>,
    key: Seq<char>,
    r: bool,
) -> bool {
    if before.contains_key(key) {
        r == before[key] && after == before
    } else {
        after == before.insert(key, r)
    }
}

/// What one step of a walk gave back: an entry (its path, whether it is a
/// directory, whether it is a regular file), or none for an entry that could
/// not be read.
pub type Step = Option<(Seq<char>, bool, bool)>;

/// The sum of the lengths of the regular files among `lens`, the metadata a
/// walk read for each of its steps (none where it could not be read).
pub open spec fn file_bytes(lens: Seq<Option<(bool, u64)>>) -> nat
    decreases lens.len(),
{
    if lens.len() == 0 {
        0
    } else {
        file_bytes(lens.drop_last()) + match lens.last() {
            Some((true, len)) => len as nat,
            _ => 0nat,
        }
    }
}

/// `n`, or `u64::MAX` where `n` is larger.
pub open spec fn capped(n: nat) -> u64 {
    if n > u64::MAX {
        u64::MAX
    } else {
        n as u64
    }
}

/// One entry that a walk gave back.
pub struct Visit {
    /// Its path, as text.
    pub path: String,
    /// Whether it is a directory (symbolic links are not followed).
    pub is_dir: bool,
    /// Whether it is a regular file.
    pub is_file: bool,
    /// The entry itself.
    pub entry: walkdir::DirEntry,
}

impl Visit {
    /// Whether the entry is a regular file, and its length in bytes, read
    /// from its metadata; none where the metadata cannot be read.
    pub fn metadata(&self) -> Option<(bool, u64)> {
        entry_metadata(&self.entry)
    }
}

/// A walk of a directory tree, with its record.
pub struct Walk {
    it: walkdir::IntoIter,
    root_str: String,
    cache: StringHashMap<bool>,
    min_depth: Ghost<nat>,
    max_depth: Ghost<Option<nat>>,
    steps: Ghost<Seq<Step>>,
    lens: Ghost<Seq<Option<(bool, u64)>>>,
    ended: Ghost<bool>,
}

impl Walk {
    /// The path the walk was started at.
    pub closed spec fn root(&self) -> Seq<char> {
        self.root_str@
    }

    /// Whether the walk follows symbolic links (it never does).
    pub open spec fn follows_links(&self) -> bool {
        false
    }

    /// The depth below which the walk yields nothing (0: the root itself).
    pub closed spec fn min_depth(&self) -> nat {
        self.min_depth@
    }

    /// The depth below which the walk does not descend, if any.
    pub closed spec fn max_depth(&self) -> Option<nat> {
        self.max_depth@
    }

    /// The steps taken with [`Walk::next_visit`], in order.
    pub closed spec fn steps(&self) -> Seq<Step> {
        self.steps@
    }

    /// The metadata read with [`Walk::next_len`], one per step, in order.
    pub closed spec fn lens(&self) -> Seq<Option<(bool, u64)>> {
        self.lens@
    }

    /// The steps of either kind taken so far.
    pub open spec fn count(&self) -> nat {
        self.steps().len() + self.lens().len()
    }

    /// Whether the walk has said it has nothing more to give.
    pub closed spec fn ended(&self) -> bool {
        self.ended@
    }

    /// The answers given so far to whether a path exists, by path.
    pub closed spec fn answers(&self) -> Map<Seq<char>, bool> {
        self.cache@
    }

    /// The path the walk was started at, as text.
    pub fn root_text(&self) -> (r: String)
        ensures
            r@ == self.root(),
    {
        crate::text::string_from(self.root_str.as_str())
    }

    /// A walk of the whole tree at `root`, the root included, that does not
    /// follow symbolic links. Nothing is read yet.
    pub fn open(root: &str) -> (w: Walk)
        ensures
            fresh_walk(w, root@),
            w.root() == root@,
            !w.follows_links(),
            w.min_depth() == 0,
            w.max_depth() is None,
            w.steps() == Seq::<Step>::empty(),
            w.lens() == Seq::<Option<(bool, u64)>>::empty(),
            !w.ended(),
            w.answers() == Map::<Seq<char>, bool>::empty(),
    {
        Walk {
            it: walk_iter(walk_dir_no_follow(walk_dir_new(root))),
            root_str: crate::text::string_from(root),
            cache: StringHashMap::new(),
            min_depth: Ghost(0),
            max_depth: Ghost(None),
            steps: Ghost(Seq::empty()),
            lens: Ghost(Seq::empty()),
            ended: Ghost(false),
        }
    }

    /// A walk of the entries directly in `dir` (depth 1 only), that does not
    /// follow symbolic links. Nothing is read yet.
    pub fn open_children(dir: &str) -> (w: Walk)
        ensures
            fresh_child_walk(w, dir@),
            w.root() == dir@,
            !w.follows_links(),
            w.min_depth() == 1,
            w.max_depth() == Some(1nat),
            w.steps() == Seq::<Step>::empty(),
            w.lens() == Seq::<Option<(bool, u64)>>::empty(),
            !w.ended(),
            w.answers() == Map::<Seq<char>, bool>::empty(),
    {
        Walk {
            it: walk_iter(
                walk_dir_max_depth(walk_dir_min_depth(walk_dir_no_follow(walk_dir_new(dir)), 1), 1),
            ),
            root_str: crate::text::string_from(dir),
            cache: StringHashMap::new(),
            min_depth: Ghost(1),
            max_depth: Ghost(Some(1)),
            steps: Ghost(Seq::empty()),
            lens: Ghost(Seq::empty()),
            ended: Ghost(false),
        }
    }

    /// The next entry of the walk (none inside for an entry that could not
    /// be read), or none at the end; recorded as a step.
    pub fn next_visit(&mut self) -> (r: Option<Option<Visit>>)
        ensures
            final(self).root() == old(self).root(),
            final(self).min_depth() == old(self).min_depth(),
            final(self).max_depth() == old(self).max_depth(),
            final(self).lens() == old(self).lens(),
            final(self).answers() == old(self).answers(),
            match r {
                None => final(self).ended() && final(self).steps() == old(self).steps(),
                Some(None) => final(self).ended() == old(self).ended() && final(self).steps()
                    == old(self).steps().push(None),
                Some(Some(v)) => final(self).ended() == old(self).ended() && final(self).steps()
                    == old(self).steps().push(Some((v.path@, v.is_dir, v.is_file))),
            },
    {
        match walk_next(&mut self.it) {
            None => {
                self.ended = Ghost(true);
                None
            },
            Some(Err(_)) => {
                self.steps = Ghost(self.steps@.push(None));
                Some(None)
            },
            Some(Ok(e)) => {
                let path = entry_path(&e);
                let is_dir = entry_is_dir(&e);
                let is_file = entry_is_file(&e);
                self.steps = Ghost(self.steps@.push(Some((path@, is_dir, is_file))));
                Some(Some(Visit { path, is_dir, is_file, entry: e }))
            },
        }
    }

    /// The metadata of the next entry of the walk (whether it is a regular
    /// file, and its length; none inside where the entry or its metadata
    /// could not be read), or none at the end; recorded in [`Walk::lens`].
    pub fn next_len(&mut self) -> (r: Option<Option<(bool, u64)>>)
        ensures
            final(self).root() == old(self).root(),
            final(self).min_depth() == old(self).min_depth(),
            final(self).max_depth() == old(self).max_depth(),
            final(self).steps() == old(self).steps(),
            final(self).answers() == old(self).answers(),
            match r {
                None => final(self).ended() && final(self).lens() == old(self).lens(),
                Some(m) => final(self).ended() == old(self).ended() && final(self).lens()
                    == old(self).lens().push(m),
            },
    {
        match walk_next(&mut self.it) {
            None => {
                self.ended = Ghost(true);
                None
            },
            Some(Err(_)) => {
                self.lens = Ghost(self.lens@.push(None));
                Some(None)
            },
            Some(Ok(e)) => {
                let m = entry_metadata(&e);
                self.lens = Ghost(self.lens@.push(m));
                Some(m)
            },
        }
    }

    /// The walk does not descend into the directory it gave back last. The
    /// record is unchanged.
    pub fn skip_current_dir(&mut self)
        ensures
            final(self).root() == old(self).root(),
            final(self).min_depth() == old(self).min_depth(),
            final(self).max_depth() == old(self).max_depth(),
            final(self).steps() == old(self).steps(),
            final(self).lens() == old(self).lens(),
            final(self).ended() == old(self).ended(),
            final(self).answers() == old(self).answers(),
    {
        walk_skip_current_dir(&mut self.it);
    }

    /// Whether something exists at `join(dir, name)`. The answer is asked of
    /// the disk once per path and remembered.
    pub fn has_file(&mut self, dir: &[char], name: &str) -> (r: bool)
        ensures
            final(self).root() == old(self).root(),
            final(self).min_depth() == old(self).min_depth(),
            final(self).max_depth() == old(self).max_depth(),
            final(self).steps() == old(self).steps(),
            final(self).lens() == old(self).lens(),
            final(self).ended() == old(self).ended(),
            cached_lookup(old(self).answers(), final(self).answers(), join(dir@, name@), r),
            remembers(old(self).answers(), final(self).answers()),
            cached_true(final(self).answers(), join(dir@, name@)) == r,
    {
        let n = crate::text::chars_of(name);
        let p = crate::path::join_of(dir, n.as_slice());
        let s = crate::text::string_of(p.as_slice());
        if let Some(v) = self.cache.get(s.as_str()) {
            return *v;
        }
        let r = path_exists(s.as_str());
        self.cache.insert(crate::text::string_from(s.as_str()), r);
        r
    }
}

/// A record of questions put to the disk: whether something exists at a
/// path, and the answer given. Each path is asked once and the answer
/// remembered; only the methods of this module extend the record.
pub struct Probe {
    cache: StringHashMap<bool>,
}

impl Probe {
    /// The answers given so far, by path.
    pub closed spec fn answers(&self) -> Map<Seq<char>, bool> {
        self.cache@
    }

    /// A probe that has asked nothing yet.
    pub fn new() -> (p: Probe)
        ensures
            p.answers() == Map::<Seq<char>, bool>::empty(),
    {
        Probe { cache: StringHashMap::new() }
    }

    /// Whether something exists at `join(dir, name)`, as the disk answers.
    pub fn has_file(&mut self, dir: &[char], name: &str) -> (r: bool)
        ensures
            cached_lookup(old(self).answers(), final(self).answers(), join(dir@, name@), r),
            remembers(old(self).answers(), final(self).answers()),
            cached_true(final(self).answers(), join(dir@, name@)) == r,
            probe_said(*final(self), join(dir@, name@), r),
    {
        let n = crate::text::chars_of(name);
        let p = crate::path::join_of(dir, n.as_slice());
        let s = crate::text::string_of(p.as_slice());
        if let Some(v) = self.cache.get(s.as_str()) {
            return *v;
        }
        let r = path_exists(s.as_str());
        self.cache.insert(crate::text::string_from(s.as_str()), r);
        r
    }
}

/// Whether the probe `p` asked whether something exists at `path` and was
/// answered `v`.
pub open spec fn probe_said(p: Probe, path: Seq<char>, v: bool) -> bool {
    p.answers().contains_key(path) && p.answers()[path] == v
}

/// Whether the disk was asked whether something exists at `path` and
/// answered `v` (some probe holds that answer).
pub open spec fn disk_said(path: Seq<char>, v: bool) -> bool {
    exists|p: Probe| #[trigger] probe_said(p, path, v)
}

/// The file `name` asked for in `dir`: the answer `v` is what the disk
/// said of `join(dir, name)`.
pub open spec fn file_said(dir: Seq<char>, name: Seq<char>, v: bool) -> bool {
    disk_said(join(dir, name), v)
}

/// Whether each answer `c[d]` is what the disk said of `join(d, name)`.
pub open spec fn cache_said(c: Map<Seq<char>, bool>, name: Seq<char>) -> bool {
    forall|d: Seq<char>| #[trigger] c.contains_key(d) ==> file_said(d, name, c[d])
}

/// Whether the disk said one of the files `names` exists in `dir` (for
/// `v`), or said each of them is absent (for `!v`).
pub open spec fn any_file_said(dir: Seq<char>, names: Seq<Seq<char>>, v: bool) -> bool {
    &&& v ==> exists|i: int| 0 <= i < names.len() && #[trigger] file_said(dir, names[i], true)
    &&& !v ==> forall|i: int| 0 <= i < names.len() ==> #[trigger] file_said(dir, names[i], false)
}

/// A `.gitignore` matcher, with a record of the answers it gave: per path
/// relative to its root, for directories and for other entries. Each
/// question is put to the matcher once and the answer remembered.
pub struct IgnoreRules {
    g: ignore::gitignore::Gitignore,
    dirs: StringHashMap<bool>,
    others: StringHashMap<bool>,
}

impl IgnoreRules {
    /// The answers given for directories, by relative path.
    pub closed spec fn dir_answers(&self) -> Map<Seq<char>, bool> {
        self.dirs@
    }

    /// The answers given for other entries, by relative path.
    pub closed spec fn other_answers(&self) -> Map<Seq<char>, bool> {
        self.others@
    }

    /// The matcher of the globs of the file at `file`, relative to `root`,
    /// or the error that building it gives; nothing is asked yet.
    pub fn build(root: &str, file: &str) -> (r: Result<IgnoreRules, ignore::Error>)
        ensures
            r matches Ok(m) ==> m.dir_answers() == Map::<Seq<char>, bool>::empty()
                && m.other_answers() == Map::<Seq<char>, bool>::empty(),
    {
        let mut b = gitignore_builder(root);
        gitignore_add(&mut b, file);
        match gitignore_build(&b) {
            Ok(g) => Ok(IgnoreRules { g, dirs: StringHashMap::new(), others: StringHashMap::new() }),
            Err(e) => Err(e),
        }
    }

    /// Whether the matcher ignores the entry at `rel` (relative to its root),
    /// a directory where `is_dir`; remembered.
    pub fn ignores(&mut self, rel: &str, is_dir: bool) -> (r: bool)
        ensures
            is_dir ==> cached_lookup(old(self).dir_answers(), final(self).dir_answers(), rel@, r)
                && final(self).other_answers() == old(self).other_answers(),
            !is_dir ==> cached_lookup(old(self).other_answers(), final(self).other_answers(), rel@, r)
                && final(self).dir_answers() == old(self).dir_answers(),
    {
        if is_dir {
            if let Some(v) = self.dirs.get(rel) {
                return *v;
            }
        } else {
            if let Some(v) = self.others.get(rel) {
                return *v;
            }
        }
        let r = gitignore_ignores(&self.g, rel, is_dir);
        if is_dir {
            self.dirs.insert(crate::text::string_from(rel), r);
        } else {
            self.others.insert(crate::text::string_from(rel), r);
        }
        r
    }
}

/// Whether `w` is a walk of the whole tree at `root` that was just opened:
/// no symbolic link followed, the root itself included, any depth, nothing
/// read or asked yet.
pub open spec fn fresh_walk(w: Walk, root: Seq<char>) -> bool {
    &&& w.root() == root
    &&& !w.follows_links()
    &&& w.min_depth() == 0
    &&& w.max_depth() is None
    &&& w.steps() == Seq::<Step>::empty()
    &&& w.lens() == Seq::<Option<(bool, u64)>>::empty()
    &&& !w.ended()
    &&& w.answers() == Map::<Seq<char>, bool>::empty()
}

/// Whether `w` is a walk of the entries directly in `dir` that was just
/// opened: no symbolic link followed, depth 1 only, nothing read or asked
/// yet.
pub open spec fn fresh_child_walk(w: Walk, dir: Seq<char>) -> bool {
    &&& w.root() == dir
    &&& !w.follows_links()
    &&& w.min_depth() == 1
    &&& w.max_depth() == Some(1nat)
    &&& w.steps() == Seq::<Step>::empty()
    &&& w.lens() == Seq::<Option<(bool, u64)>>::empty()
    &&& !w.ended()
    &&& w.answers() == Map::<Seq<char>, bool>::empty()
}

/// Whether `w1` is the walk `w0`, just opened at `root`, taken to its end.
pub open spec fn walk_run(w0: Walk, w1: Walk, root: Seq<char>) -> bool {
    &&& fresh_walk(w0, root)
    &&& walked_on(w0, w1)
    &&& drained(w0, w1)
}

/// Whether `after` is `before` walked to its end (or through more steps than
/// a `u64` counts).
pub open spec fn drained(before: Walk, after: Walk) -> bool {
    after.ended() || after.count() >= before.count() + u64::MAX
}

/// Whether `after` is `before` with more of the same walk taken: the same
/// settings, the record only extended.
pub open spec fn walked_on(before: Walk, after: Walk) -> bool {
    &&& after.root() == before.root()
    &&& after.min_depth() == before.min_depth()
    &&& after.max_depth() == before.max_depth()
    &&& before.steps().is_prefix_of(after.steps())
    &&& before.lens().is_prefix_of(after.lens())
    &&& remembers(before.answers(), after.answers())
}

/// `total` plus the length of a regular file read as `meta`, stopping at
/// `u64::MAX`; `total` for anything else.
pub fn add_file_len(total: u64, meta: Option<(bool, u64)>) -> (r: u64)
    ensures
        r == match meta {
            Some((true, len)) => capped((total + len) as nat),
            _ => total,
        },
{
    match meta {
        Some((true, len)) => total.saturating_add(len),
        _ => total,
    }
}

/// The total byte count of the regular files that the rest of the walk
/// gives back, stopping at `u64::MAX`: entries and metadata that cannot be
/// read count for nothing, and the walk goes on after them.
pub fn sum_file_lens(w: &mut Walk) -> (r: u64)
    ensures
        walked_on(*old(w), *final(w)),
        drained(*old(w), *final(w)),
        final(w).steps() == old(w).steps(),
        r == capped(file_bytes(final(w).lens().skip(old(w).lens().len() as int))),
{
    let ghost start = old(w).lens().len();
    let mut total: u64 = 0;
    let mut budget: u64 = u64::MAX;
    while budget > 0
        invariant
            walked_on(*old(w), *w),
            w.steps() == old(w).steps(),
            w.lens().len() == start + (u64::MAX - budget),
            w.count() == old(w).count() + (u64::MAX - budget),
            total == capped(file_bytes(w.lens().skip(start as int))),
        ensures
            walked_on(*old(w), *w),
            w.steps() == old(w).steps(),
            w.ended() || budget == 0,
            w.count() == old(w).count() + (u64::MAX - budget),
            total == capped(file_bytes(w.lens().skip(start as int))),
        decreases budget,
    {
        let ghost before = w.lens();
        match w.next_len() {
            None => break,
            Some(m) => {
                proof {
                    assert(w.lens().skip(start as int) == before.skip(start as int).push(m));
                    assert(w.lens().skip(start as int).drop_last() == before.skip(start as int));
                }
                total = add_file_len(total, m);
            },
        }
        budget -= 1;
    }
    total
}

} // verus!
