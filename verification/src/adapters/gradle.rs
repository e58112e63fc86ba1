//! Removes `.gradle/` and `build/` directories that have a `build.gradle` or
//! `build.gradle.kts` beside them.

use vstd::prelude::*;

use crate::adapter::{Adapter, CleanTarget, ScanError};
use crate::adapters::dirs::{gradle_files, has_file, rule_scan_of, scan_dirs, DirRule};
use crate::walk::{any_file_said, file_said};

verus! {

/// Whether `dir` holds `build.gradle` or `build.gradle.kts`.
pub fn has_gradle_context(dir: &[char]) -> (r: bool)
    ensures
        any_file_said(dir@, gradle_files(), r),
{
    let a = has_file(dir, "build.gradle");
    let r = a || has_file(dir, "build.gradle.kts");
    proof {
        assert(gradle_files()[0] == "build.gradle"@);
        assert(gradle_files()[1] == "build.gradle.kts"@);
        if a {
            assert(file_said(dir@, gradle_files()[0], true));
        } else if r {
            assert(file_said(dir@, gradle_files()[1], true));
        } else {
            assert forall|i: int| 0 <= i < gradle_files().len() implies #[trigger] file_said(dir@, gradle_files()[i], false) by {
                if i == 1 {
                } else {
                    assert(i == 0);
                }
            }
        }
    }
    r
}

/// The gradle adapter.
pub struct GradleAdapter;

impl Adapter for GradleAdapter {
    fn name(&self) -> (r: &'static str)
        ensures
            r@ == "gradle"@,
    {
        "gradle"
    }

    fn description(&self) -> (r: &'static str)
        ensures
            r@ == "Gradle build artifacts (.gradle/, build/)"@,
    {
        "Gradle build artifacts (.gradle/, build/)"
    }

    fn is_safe(&self) -> (r: bool)
        ensures
            r,
    {
        true
    }

    open spec fn gives(&self, root: Seq<char>, r: Result<Vec<CleanTarget>, ScanError>) -> bool {
        r matches Ok(ts) && rule_scan_of(DirRule::Gradle, root, ts@)
    }

    fn scan(&self, root: &str) -> (r: Result<Vec<CleanTarget>, ScanError>)
        ensures
            r matches Ok(ts) && rule_scan_of(DirRule::Gradle, root@, ts@),
    {
        Ok(scan_dirs(root, DirRule::Gradle))
    }
}

} // verus!
