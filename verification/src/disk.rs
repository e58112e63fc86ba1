//! The calls that read the file system: the directory walk of the `walkdir`
//! crate, `.gitignore` matching of the `ignore` crate, and `Path::exists`.
//!
//! What these return depends on what is on disk, so their contracts promise
//! nothing of it; the library's verified functions take their results as
//! they come (see `walk.rs`, which records them).

use vstd::prelude::*;

verus! {

/// `walkdir::WalkDir`, a walk about to start (opaque).
#[verifier::external_type_specification]
#[verifier::external_body]
pub struct ExWalkDir(walkdir::WalkDir);

/// `walkdir::IntoIter`, a walk under way (opaque).
#[verifier::external_type_specification]
#[verifier::external_body]
pub struct ExWalkIter(walkdir::IntoIter);

/// `walkdir::DirEntry`, one entry of a walk (opaque).
#[verifier::external_type_specification]
#[verifier::external_body]
pub struct ExWalkEntry(walkdir::DirEntry);

/// `walkdir::Error`, an entry the walk could not read (opaque).
#[verifier::external_type_specification]
#[verifier::external_body]
pub struct ExWalkError(walkdir::Error);

/// `ignore::gitignore::GitignoreBuilder`, a matcher being built (opaque).
#[verifier::external_type_specification]
#[verifier::external_body]
pub struct ExGitignoreBuilder(ignore::gitignore::GitignoreBuilder);

/// `ignore::gitignore::Gitignore`, a `.gitignore` matcher (opaque).
#[verifier::external_type_specification]
#[verifier::external_body]
pub struct ExGitignore(ignore::gitignore::Gitignore);

/// `ignore::Error`, why a matcher could not be built (opaque).
#[verifier::external_type_specification]
#[verifier::external_body]
pub struct ExIgnoreError(ignore::Error);

/// `walkdir::WalkDir::new`: a walk rooted at `root`, with the crate's default
/// options. Nothing is read yet, and nothing is stated of the value.
#[verifier::external_body]
pub(crate) fn walk_dir_new(root: &str) -> walkdir::WalkDir {
    walkdir::WalkDir::new(root)
}

/// `walkdir::WalkDir::follow_links(false)`: the walk does not follow symbolic
/// links. Nothing is stated of the value.
#[verifier::external_body]
pub(crate) fn walk_dir_no_follow(w: walkdir::WalkDir) -> walkdir::WalkDir {
    w.follow_links(false)
}

/// `walkdir::WalkDir::min_depth`: the walk yields no entry above `depth`.
/// Nothing is stated of the value.
#[verifier::external_body]
pub(crate) fn walk_dir_min_depth(w: walkdir::WalkDir, depth: usize) -> walkdir::WalkDir {
    w.min_depth(depth)
}

/// `walkdir::WalkDir::max_depth`: the walk descends no deeper than `depth`.
/// Nothing is stated of the value.
#[verifier::external_body]
pub(crate) fn walk_dir_max_depth(w: walkdir::WalkDir, depth: usize) -> walkdir::WalkDir {
    w.max_depth(depth)
}

/// `walkdir::WalkDir::into_iter`: the iterator over the walk's entries.
/// Nothing is stated of the value.
#[verifier::external_body]
pub(crate) fn walk_iter(w: walkdir::WalkDir) -> walkdir::IntoIter {
    w.into_iter()
}

/// `walkdir::IntoIter::next`: the next entry of the walk, an error, or none at
/// the end. What it yields depends on the disk; nothing is stated of it.
#[verifier::external_body]
pub(crate) fn walk_next(it: &mut walkdir::IntoIter) -> Option<
    Result<walkdir::DirEntry, walkdir::Error>,
> {
    it.next()
}

/// `walkdir::IntoIter::skip_current_dir`: the walk does not descend into the
/// directory it yielded last. Nothing is stated of the iterator.
#[verifier::external_body]
pub(crate) fn walk_skip_current_dir(it: &mut walkdir::IntoIter) {
    it.skip_current_dir()
}

/// `walkdir::DirEntry::path`, as text (lossily converted where the path is
/// not UTF-8). Nothing is stated of it.
#[verifier::external_body]
pub(crate) fn entry_path(e: &walkdir::DirEntry) -> String {
    e.path().to_string_lossy().into_owned()
}

/// `walkdir::DirEntry::file_type` and `is_dir`: whether the entry is a
/// directory (a symbolic link is not, as links are not followed).
#[verifier::external_body]
pub(crate) fn entry_is_dir(e: &walkdir::DirEntry) -> bool {
    e.file_type().is_dir()
}

/// `walkdir::DirEntry::file_type` and `is_file`: whether the entry is a
/// regular file.
#[verifier::external_body]
pub(crate) fn entry_is_file(e: &walkdir::DirEntry) -> bool {
    e.file_type().is_file()
}

/// `walkdir::DirEntry::metadata`: whether the entry is a regular file and its
/// length in bytes, or none where the metadata cannot be read. Nothing is
/// stated of the values.
#[verifier::external_body]
pub(crate) fn entry_metadata(e: &walkdir::DirEntry) -> Option<(bool, u64)> {
    match e.metadata() {
        Ok(m) => Some((m.is_file(), m.len())),
        Err(_) => None,
    }
}

/// `std::path::Path::exists`: whether something exists at `p` on disk.
/// Nothing is stated of the result.
#[verifier::external_body]
pub(crate) fn path_exists(p: &str) -> bool {
    std::path::Path::new(p).exists()
}

/// `ignore::gitignore::GitignoreBuilder::new`: a matcher builder whose globs are
/// relative to `root`. Nothing is stated of the value.
#[verifier::external_body]
pub(crate) fn gitignore_builder(root: &str) -> ignore::gitignore::GitignoreBuilder {
    ignore::gitignore::GitignoreBuilder::new(root)
}

/// `ignore::gitignore::GitignoreBuilder::add`: adds the globs of the file at
/// `path`; a partial error that the builder reports is not passed on.
#[verifier::external_body]
pub(crate) fn gitignore_add(b: &mut ignore::gitignore::GitignoreBuilder, path: &str) {
    let _ = b.add(path);
}

/// `ignore::gitignore::GitignoreBuilder::build`: the matcher, or the error that
/// the builder reports. Nothing is stated of either.
#[verifier::external_body]
pub(crate) fn gitignore_build(b: &ignore::gitignore::GitignoreBuilder) -> Result<
    ignore::gitignore::Gitignore,
    ignore::Error,
> {
    b.build()
}

/// `ignore::gitignore::Gitignore::matched` and `Match::is_ignore`: whether the
/// matcher ignores the path `rel` (relative to its root). Nothing is stated
/// of the result.
#[verifier::external_body]
pub(crate) fn gitignore_ignores(g: &ignore::gitignore::Gitignore, rel: &str, is_dir: bool) -> bool {
    g.matched(rel, is_dir).is_ignore()
}

} // verus!
