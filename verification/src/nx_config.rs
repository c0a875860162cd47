//! A project's configuration record, as discovered in the workspace.

use vstd::prelude::*;

use crate::strutil::{clone_opt_string, clone_string_vec};

verus! {

/// One project's configuration.
pub struct NxProjectConfig {
    pub name: String,
    pub source_root: String,
    pub prefix: Option<String>,
    pub tags: Option<Vec<String>>,
    pub project_type: String,
}

impl NxProjectConfig {
    /// The abstract contents of this configuration.
    pub open spec fn model(&self) -> (String, String, Option<String>, Option<Seq<String>>, String) {
        (
            self.name,
            self.source_root,
            self.prefix,
            match self.tags {
                Some(t) => Some(t@),
                None => None,
            },
            self.project_type,
        )
    }
}

impl Clone for NxProjectConfig {
    fn clone(&self) -> (r: Self)
        ensures
            r.model() == self.model(),
    {
        NxProjectConfig {
            name: self.name.clone(),
            source_root: self.source_root.clone(),
            prefix: clone_opt_string(&self.prefix),
            tags: match &self.tags {
                Some(t) => Some(clone_string_vec(t)),
                None => None,
            },
            project_type: self.project_type.clone(),
        }
    }
}

} // verus!
