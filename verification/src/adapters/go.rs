//! Removes `vendor/` directories that have a `go.mod` beside them.

use vstd::prelude::*;

use crate::adapter::{Adapter, CleanTarget, ScanError};
use crate::adapters::dirs::{rule_scan_of, scan_dirs, DirRule};

verus! {

/// The go adapter.
pub struct GoAdapter;

impl Adapter for GoAdapter {
    fn name(&self) -> (r: &'static str)
        ensures
            r@ == "go"@,
    {
        "go"
    }

    fn description(&self) -> (r: &'static str)
        ensures
            r@ == "Go vendor directory (vendor/)"@,
    {
        "Go vendor directory (vendor/)"
    }

    fn is_safe(&self) -> (r: bool)
        ensures
            r,
    {
        true
    }

    open spec fn gives(&self, root: Seq<char>, r: Result<Vec<CleanTarget>, ScanError>) -> bool {
        r matches Ok(ts) && rule_scan_of(DirRule::Go, root, ts@)
    }

    fn scan(&self, root: &str) -> (r: Result<Vec<CleanTarget>, ScanError>)
        ensures
            r matches Ok(ts) && rule_scan_of(DirRule::Go, root@, ts@),
    {
        Ok(scan_dirs(root, DirRule::Go))
    }
}

} // verus!
