//! Removes `_build/` directories that have a `dune-project` beside them.

use vstd::prelude::*;

use crate::adapter::{Adapter, CleanTarget, ScanError};
use crate::adapters::dirs::{has_file, rule_scan_of, scan_dirs, DirRule};
use crate::walk::file_said;

verus! {

/// Whether `dir` holds `dune-project`.
pub fn has_ocaml_context(dir: &[char]) -> (r: bool)
    ensures
        file_said(dir@, "dune-project"@, r),
{
    has_file(dir, "dune-project")
}

/// The ocaml adapter.
pub struct OcamlAdapter;

impl Adapter for OcamlAdapter {
    fn name(&self) -> (r: &'static str)
        ensures
            r@ == "ocaml"@,
    {
        "ocaml"
    }

    fn description(&self) -> (r: &'static str)
        ensures
            r@ == "OCaml/dune build artifacts (_build/)"@,
    {
        "OCaml/dune build artifacts (_build/)"
    }

    fn is_safe(&self) -> (r: bool)
        ensures
            r,
    {
        true
    }

    open spec fn gives(&self, root: Seq<char>, r: Result<Vec<CleanTarget>, ScanError>) -> bool {
        r matches Ok(ts) && rule_scan_of(DirRule::Ocaml, root, ts@)
    }

    fn scan(&self, root: &str) -> (r: Result<Vec<CleanTarget>, ScanError>)
        ensures
            r matches Ok(ts) && rule_scan_of(DirRule::Ocaml, root@, ts@),
    {
        Ok(scan_dirs(root, DirRule::Ocaml))
    }
}

} // verus!
