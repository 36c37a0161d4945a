//! Where the parts of a project lie.

use crate::paths;
use vstd::prelude::*;

verus! {

/// The name of a project and the directories of its parts.
#[derive(Debug, Clone, PartialEq, Eq)]
pub struct ProjectInfo {
    pub project_name: String,
    /// Where the build puts what it makes.
    pub dist_path: String,
    /// The web front end.
    pub web_project_path: String,
    /// The compiled core.
    pub core_project_path: String,
    /// The WebAssembly wrapper of the core.
    pub wasm_project_path: String,
    /// The edge worker.
    pub cloudflare_project_path: String,
}

impl ProjectInfo {
    /// The source directory of the compiled core.
    pub fn core_project_path_src(&self) -> (p: String)
        ensures
            p@ == paths::spec_join(self.core_project_path@, "src"@),
    {
        paths::join(self.core_project_path.as_str(), "src")
    }

    /// The source directory of the web front end.
    pub fn web_project_path_src(&self) -> (p: String)
        ensures
            p@ == paths::spec_join(self.web_project_path@, "src"@),
    {
        paths::join(self.web_project_path.as_str(), "src")
    }
}

} // verus!
