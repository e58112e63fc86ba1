//! Removes `target/` directories that have a `pom.xml` beside them.

use vstd::prelude::*;

use crate::adapter::{Adapter, CleanTarget, ScanError};
use crate::adapters::dirs::{rule_scan_of, scan_dirs, DirRule};

verus! {

/// The maven adapter.
pub struct MavenAdapter;

impl Adapter for MavenAdapter {
    fn name(&self) -> (r: &'static str)
        ensures
            r@ == "maven"@,
    {
        "maven"
    }

    fn description(&self) -> (r: &'static str)
        ensures
            r@ == "Maven build artifacts (target/)"@,
    {
        "Maven build artifacts (target/)"
    }

    fn is_safe(&self) -> (r: bool)
        ensures
            r,
    {
        true
    }

    open spec fn gives(&self, root: Seq<char>, r: Result<Vec<CleanTarget>, ScanError>) -> bool {
        r matches Ok(ts) && rule_scan_of(DirRule::Maven, root, ts@)
    }

    fn scan(&self, root: &str) -> (r: Result<Vec<CleanTarget>, ScanError>)
        ensures
            r matches Ok(ts) && rule_scan_of(DirRule::Maven, root@, ts@),
    {
        Ok(scan_dirs(root, DirRule::Maven))
    }
}

} // verus!
