//! Removes `node_modules/` directories that have a `package.json` beside them.

use vstd::prelude::*;

use crate::adapter::{Adapter, CleanTarget, ScanError};
use crate::adapters::dirs::{rule_scan_of, scan_dirs, DirRule};

verus! {

/// The node adapter.
pub struct NodeAdapter;

impl Adapter for NodeAdapter {
    fn name(&self) -> (r: &'static str)
        ensures
            r@ == "node"@,
    {
        "node"
    }

    fn description(&self) -> (r: &'static str)
        ensures
            r@ == "Node.js dependencies (node_modules/)"@,
    {
        "Node.js dependencies (node_modules/)"
    }

    fn is_safe(&self) -> (r: bool)
        ensures
            r,
    {
        true
    }

    open spec fn gives(&self, root: Seq<char>, r: Result<Vec<CleanTarget>, ScanError>) -> bool {
        r matches Ok(ts) && rule_scan_of(DirRule::Node, root, ts@)
    }

    fn scan(&self, root: &str) -> (r: Result<Vec<CleanTarget>, ScanError>)
        ensures
            r matches Ok(ts) && rule_scan_of(DirRule::Node, root@, ts@),
    {
        Ok(scan_dirs(root, DirRule::Node))
    }
}

} // verus!
