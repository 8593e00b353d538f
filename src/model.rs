//! The data of a module graph.
use vstd::prelude::*;

use crate::paths::{file_url, file_url_of, relative_path, relative_path_of};

verus! {

/// Why building a graph stopped.
#[derive(Debug, Clone)]
pub enum BuildError {
    /// A specifier could not be resolved from the module at `path`.
    Resolution { path: String, specifier: String },
    /// The source of the module at `path` could not be read.
    Read { path: String },
    /// The source of the module at `path` is not a lexable module.
    Lex { path: String },
    /// A registered plugin has no name.
    UnnamedPlugin,
    /// A plugin hook failed while the module at `path` was processed.
    Hook { path: String },
    /// A resolved file at `path` has no form relative to the base path, or no file URL.
    Path { path: String },
}


/// The manifest of the package that owns a module.
#[derive(Debug, Clone)]
pub struct PackageJson {
    pub name: Option<String>,
    pub version: Option<String>,
    /// Absolute path of the manifest file.
    pub path: String,
    /// `file:` URL of `path`.
    pub href: String,
}

/// One discovered file.
#[derive(Debug, Clone)]
pub struct Module {
    /// `file:` URL of `pathname`.
    pub href: String,
    /// Absolute path of the file.
    pub pathname: String,
    /// Path relative to the base path: the module's identity.
    pub path: String,
    /// The modules that import this one, each once, in order of discovery.
    pub imported_by: Vec<String>,
    pub package_json: PackageJson,
    /// The text of the file, once the traversal has read it.
    pub source: String,
}

/// The ordered imports of one visited module.
#[derive(Debug, Clone)]
pub struct ImportList {
    /// The importer's path relative to the base path.
    pub path: String,
    /// Relative paths of what it imports, one per import statement, in order.
    pub imports: Vec<String>,
}

/// The graph: for each visited module its imports, and a record of each
/// discovered module.
#[derive(Debug, Clone)]
pub struct ModuleGraph {
    /// One entry per visited module, in order of visit.
    pub graph: Vec<ImportList>,
    /// Absolute directory that all relative paths are taken against.
    pub base_path: String,
    /// The entry points, as paths relative to `base_path`.
    pub entry_points: Vec<String>,
    /// One record per discovered module, in order of discovery.
    pub modules: Vec<Module>,
}

impl PackageJson {
    /// The manifest at `path`, with its URL.
    pub fn located(name: Option<String>, version: Option<String>, path: String) -> (r: Result<
        PackageJson,
        BuildError,
    >)
        ensures
            r is Ok <==> file_url_of(path@) is Some,
            r matches Ok(p) ==> p.name == name && p.version == version && p.path == path
                && file_url_of(path@) == Some(p.href@),
            r matches Err(e) ==> e == (BuildError::Path { path }),
    {
        match file_url(&path) {
            Some(href) => Ok(PackageJson { name, version, path, href }),
            None => Err(BuildError::Path { path }),
        }
    }
}

impl Module {
    /// The record of the file at the absolute path `resolved`, as first
    /// discovered, with its path relative to `base_path`.
    pub fn located(
        resolved: String,
        base_path: &String,
        package_json: PackageJson,
        imported_by: Vec<String>,
        source: String,
    ) -> (r: Result<Module, BuildError>)
        ensures
            r is Ok <==> relative_path_of(resolved@, base_path@) is Some && file_url_of(
                resolved@,
            ) is Some,
            r matches Ok(m) ==> relative_path_of(resolved@, base_path@) == Some(m.path@)
                && file_url_of(resolved@) == Some(m.href@) && m.pathname == resolved
                && m.imported_by == imported_by && m.package_json == package_json && m.source
                == source,
            r matches Err(e) ==> e == (BuildError::Path { path: resolved }),
    {
        let rel = relative_path(&resolved, base_path);
        let href = file_url(&resolved);
        match (rel, href) {
            (Some(path), Some(href)) => Ok(
                Module { href, pathname: resolved, path, imported_by, package_json, source },
            ),
            _ => Err(BuildError::Path { path: resolved }),
        }
    }
}

} // verus!
