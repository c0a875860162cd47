//! The records produced by import resolution.

use vstd::prelude::*;

verus! {

/// How a symbol was brought in by an import statement.
#[derive(Clone, Copy, PartialEq, Eq, Structural, Debug)]
pub enum ImportKind {
    Named,
    Default,
    Namespace,
}

/// The classification of an import specifier.
#[derive(Clone, Copy, PartialEq, Eq, Structural, Debug)]
pub enum ImportType {
    /// `./path` or `../path`
    Relative,
    /// `/path`
    Absolute,
    /// `@scope/...` resolved through the alias table
    Package,
    /// anything else, found by walking `node_modules` directories
    NodeModule,
}

/// The symbol named by one import specifier.
#[derive(PartialEq, Debug)]
pub struct ImportedItem {
    pub name: String,
    pub alias: Option<String>,
    pub import_kind: ImportKind,
}

impl Clone for ImportedItem {
    fn clone(&self) -> (r: Self)
        ensures
            r == *self,
    {
        ImportedItem {
            name: self.name.clone(),
            alias: match &self.alias {
                Some(a) => Some(a.clone()),
                None => None,
            },
            import_kind: self.import_kind,
        }
    }
}

/// An import whose declaring file has been found.
#[derive(PartialEq, Debug)]
pub struct ResolvedImport {
    /// The specifier as written in the source file.
    pub source: String,
    /// The normalized path of the file that declares the symbol.
    pub resolved_path: String,
    /// `resolved_path` relative to the workspace base.
    pub relative_path: String,
    pub import_type: ImportType,
    pub imported_item: ImportedItem,
}

impl Clone for ResolvedImport {
    fn clone(&self) -> (r: Self)
        ensures
            r == *self,
    {
        ResolvedImport {
            source: self.source.clone(),
            resolved_path: self.resolved_path.clone(),
            relative_path: self.relative_path.clone(),
            import_type: self.import_type,
            imported_item: self.imported_item.clone(),
        }
    }
}

} // verus!
