//! Construction of a dependency graph over ECMAScript modules.
//!
//! The library holds the decisions of the traversal: how a specifier is
//! classified, how plugin replies rewrite or veto it, and how the graph and
//! its worklist evolve. The caller performs file reads, lexing, resolution and
//! plugin calls, and hands their results back.

pub mod builder;
pub mod model;
pub mod paths;
pub mod plugins;
pub mod specifier;

pub use builder::Builder;
pub use model::{BuildError, ImportList, Module, ModuleGraph, PackageJson};
pub use plugins::{check_plugin_names, next_specifier, HookReply};
pub use specifier::{
    is_bare_module_specifier, is_scoped_package, is_skipped, is_templated_dynamic,
    strip_node_prefix,
};
