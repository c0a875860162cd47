//! One discovered project: its name, configuration, resolved compiler
//! configuration and file list.

use vstd::prelude::*;

use crate::nx_config::NxProjectConfig;
use crate::ts_config::TSConfig;

verus! {

/// A project of the workspace.
pub struct NxProject {
    pub name: String,
    pub config: NxProjectConfig,
    pub ts_config: TSConfig,
    pub files: Vec<String>,
}

impl NxProject {
    /// Assemble a project from its parts.
    pub fn with_files(
        name: String,
        config: NxProjectConfig,
        ts_config: TSConfig,
        files: Vec<String>,
    ) -> (r: Self)
        ensures
            r.name == name,
            r.config == config,
            r.ts_config == ts_config,
            r.files == files,
    {
        NxProject { name, config, ts_config, files }
    }
}

} // verus!
