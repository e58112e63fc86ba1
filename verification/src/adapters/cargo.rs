//! Removes `target/` directories that have a `Cargo.toml` beside them.

use vstd::prelude::*;

use crate::adapter::{Adapter, CleanTarget, ScanError};
use crate::adapters::dirs::{rule_scan_of, scan_dirs, DirRule};

verus! {

/// The cargo adapter.
pub struct CargoAdapter;

impl Adapter for CargoAdapter {
    fn name(&self) -> (r: &'static str)
        ensures
            r@ == "cargo"@,
    {
        "cargo"
    }

    fn description(&self) -> (r: &'static str)
        ensures
            r@ == "Rust/Cargo build artifacts (target/)"@,
    {
        "Rust/Cargo build artifacts (target/)"
    }

    fn is_safe(&self) -> (r: bool)
        ensures
            r,
    {
        true
    }

    open spec fn gives(&self, root: Seq<char>, r: Result<Vec<CleanTarget>, ScanError>) -> bool {
        r matches Ok(ts) && rule_scan_of(DirRule::Cargo, root, ts@)
    }

    fn scan(&self, root: &str) -> (r: Result<Vec<CleanTarget>, ScanError>)
        ensures
            r matches Ok(ts) && rule_scan_of(DirRule::Cargo, root@, ts@),
    {
        Ok(scan_dirs(root, DirRule::Cargo))
    }
}

} // verus!
