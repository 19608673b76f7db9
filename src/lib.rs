//! Emission of conditional-compilation guards and wrapper declarations for
//! generated bindings of an object-oriented foreign library.
//!
//! Every renderer appends to a `String` sink and states in its contract the
//! exact text it appends, as a spec function of its inputs.
pub mod attributes;
pub mod conditions;
pub mod env;
pub mod header;
pub mod imports;
pub mod order;
pub mod text;
pub mod version;
pub mod wrappers;

pub use attributes::{allow_deprecated, derives, doc_alias, doc_hidden, write_vec};
pub use conditions::{
    cfg_condition, cfg_condition_doc, cfg_condition_no_doc, cfg_condition_string,
    cfg_condition_string_doc, cfg_condition_string_no_doc, cfg_deprecated, cfg_deprecated_string,
    not_version_condition, not_version_condition_no_dox, version_condition,
    version_condition_doc, version_condition_no_doc, version_condition_string,
};
pub use env::{
    Derive, Env, GStatus, LibType, Namespace, RenderError, StatusedTypeId, TraitInfo, TypeId,
    Visibility, MAIN,
};
pub use header::{
    declare_default_from_new, single_version_file, start_comments, start_comments_no_version,
    Config, FunctionInfo, GirInfo,
};
pub use imports::{
    aggregate_imports, normalize_constraints, split_import_name, uses, ImportConditions,
    ImportGroup, ImportRequest,
};
pub use text::escape_string;
pub use version::{resolve_guard, Version};
pub use wrappers::{
    define_auto_boxed_type, define_boxed_type, define_fundamental_type, define_object_type,
    define_shared_type, parent_names, ParentSelection,
};
