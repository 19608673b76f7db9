//! Read-only metadata supplied by the collaborators of the emitter: the
//! namespace table with its type table, ancestor references and the shapes
//! of the data that wrapper declarations are rendered from.
use vstd::prelude::*;
use vstd::string::*;
use crate::version::{Version, version_gt};

verus! {

/// Index of the namespace whose bindings are being generated.
pub const MAIN: u16 = 0;

/// What the type table knows of a foreign type.
pub enum LibType {
    /// A class, with the name of its foreign structure and its lifetime
    /// functions where it declares them.
    Class { c_type: String, ref_fn: Option<String>, unref_fn: Option<String> },
    Interface,
    Other,
}

/// One namespace of the foreign library.
pub struct Namespace {
    /// The identifier of the binding crate of this namespace.
    pub crate_name: String,
    /// The path under which its foreign declarations are imported.
    pub sys_crate_name: String,
    /// The oldest library version that the generated code must support;
    /// `None` when there is no such constraint.
    pub min_version: Option<Version>,
    /// The type table of this namespace.
    pub types: Vec<LibType>,
}

/// The namespace table and the path of the runtime support crate.
pub struct Env {
    pub namespaces: Vec<Namespace>,
    /// Path under which the runtime support items (`wrapper!`, `StaticType`,
    /// ...) are reached.
    pub glib_crate: String,
}

/// A type of the type table: its namespace and its index there.
#[derive(Clone, Copy, Debug, PartialEq, Eq, Structural, Hash)]
pub struct TypeId {
    pub ns_id: u16,
    pub id: u32,
}

/// Whether an ancestor takes part in generation.
#[derive(Clone, Copy, Debug, PartialEq, Eq, Structural, Hash)]
pub enum GStatus {
    Manual,
    Generate,
    Ignore,
}

impl GStatus {
    pub fn ignored(&self) -> (r: bool)
        ensures
            r == (*self == GStatus::Ignore),
    {
        match self {
            GStatus::Ignore => true,
            _ => false,
        }
    }
}

/// An ancestor of a type: the type it refers to, its name in the bindings
/// and whether it is active.
pub struct StatusedTypeId {
    pub type_id: TypeId,
    pub name: String,
    pub status: GStatus,
}

impl StatusedTypeId {
    pub open spec fn is_active(&self) -> bool {
        self.status != GStatus::Ignore
    }
}

/// The visibility written before a declared item.
#[derive(Clone, Copy, Debug, PartialEq, Eq, Structural, Hash)]
pub enum Visibility {
    Public,
    Crate,
    Private,
    Super,
}

impl Visibility {
    pub open spec fn text(self) -> Seq<char> {
        match self {
            Visibility::Public => "pub"@,
            Visibility::Crate => "pub(crate)"@,
            Visibility::Private => ""@,
            Visibility::Super => "pub(super)"@,
        }
    }

    pub fn as_str(&self) -> (r: &'static str)
        ensures
            r@ == self.text(),
    {
        match self {
            Visibility::Public => "pub",
            Visibility::Crate => "pub(crate)",
            Visibility::Private => "",
            Visibility::Super => "pub(super)",
        }
    }
}

/// A group of traits derived together, optionally under a cfg predicate.
pub struct Derive {
    pub names: Vec<String>,
    pub cfg_condition: Option<String>,
}

/// A lifetime function of a boxed type.
pub struct TraitInfo {
    pub glib_name: String,
    pub version: Option<Version>,
    /// Whether the first parameter of the foreign function is declared
    /// mutable, so that a const pointer must be overridden.
    pub first_parameter_mut: bool,
}

/// Inconsistent metadata, which no output can represent.
#[derive(Clone, Copy, Debug, PartialEq, Eq, Structural, Hash)]
pub enum RenderError {
    /// A reference-counted type whose ref/unref functions are neither
    /// declared nor found among its active ancestors.
    MissingLifetimeFunctions,
    /// Only some of the init / copy-into / clear functions are given.
    PartialInlineFunctions,
    /// An import whose name has no namespace separator.
    UnqualifiedImport,
}

impl Env {
    pub open spec fn wf(&self) -> bool {
        0 < self.namespaces@.len() <= 65536
    }

    pub open spec fn has_ns(&self, ns_id: Option<u16>) -> bool {
        match ns_id {
            Some(ns) => (ns as int) < self.namespaces@.len(),
            None => true,
        }
    }

    pub open spec fn has_type(&self, t: TypeId) -> bool {
        &&& (t.ns_id as int) < self.namespaces@.len()
        &&& (t.id as int) < self.namespaces@[t.ns_id as int].types@.len()
    }

    pub open spec fn lib_type(&self, t: TypeId) -> LibType {
        self.namespaces@[t.ns_id as int].types@[t.id as int]
    }

    pub open spec fn ns_index(ns_id: Option<u16>) -> int {
        match ns_id {
            Some(ns) => ns as int,
            None => MAIN as int,
        }
    }

    /// The baseline of a namespace; `None` stands for the main one.
    pub open spec fn min_required(&self, ns_id: Option<u16>) -> Option<Version> {
        self.namespaces@[Self::ns_index(ns_id)].min_version
    }

    /// The identifier that prefixes the features of a namespace other than
    /// the main one.
    pub open spec fn prefix(&self, ns_id: Option<u16>) -> Option<Seq<char>> {
        match ns_id {
            Some(ns) => if ns == MAIN {
                None
            } else {
                Some(self.namespaces@[ns as int].crate_name@)
            },
            None => None,
        }
    }

    pub open spec fn main_sys(&self) -> Seq<char> {
        self.namespaces@[MAIN as int].sys_crate_name@
    }

    pub open spec fn sys_of(&self, ns_id: u16) -> Seq<char> {
        self.namespaces@[ns_id as int].sys_crate_name@
    }

    /// The path of a runtime support item.
    pub open spec fn glib_type(&self, name: Seq<char>) -> Seq<char> {
        self.glib_crate@ + "::"@ + name
    }

    /// Whether a version is already guaranteed by the baseline of a
    /// namespace.
    pub open spec fn too_low(&self, ns_id: Option<u16>, v: Version) -> bool {
        match self.min_required(ns_id) {
            Some(m) => !version_gt(v, m),
            None => false,
        }
    }

    pub fn min_required_version(&self, ns_id: Option<u16>) -> (r: Option<Version>)
        requires
            self.wf(),
            self.has_ns(ns_id),
        ensures
            r == self.min_required(ns_id),
    {
        let i: u16 = match ns_id {
            Some(ns) => ns,
            None => MAIN,
        };
        self.namespaces[i as usize].min_version
    }

    pub fn ns_prefix(&self, ns_id: Option<u16>) -> (r: Option<&str>)
        requires
            self.wf(),
            self.has_ns(ns_id),
        ensures
            crate::text::opt_view(r) == self.prefix(ns_id),
    {
        match ns_id {
            Some(ns) => if ns == MAIN {
                None
            } else {
                Some(self.namespaces[ns as usize].crate_name.as_str())
            },
            None => None,
        }
    }

    pub fn main_sys_crate_name(&self) -> (r: &str)
        requires
            self.wf(),
        ensures
            r@ == self.main_sys(),
    {
        self.namespaces[MAIN as usize].sys_crate_name.as_str()
    }

    pub fn sys_crate_import(&self, ns_id: u16) -> (r: &str)
        requires
            (ns_id as int) < self.namespaces@.len(),
        ensures
            r@ == self.sys_of(ns_id),
    {
        self.namespaces[ns_id as usize].sys_crate_name.as_str()
    }

    pub fn type_(&self, t: TypeId) -> (r: &LibType)
        requires
            self.has_type(t),
        ensures
            *r == self.lib_type(t),
    {
        &self.namespaces[t.ns_id as usize].types[t.id as usize]
    }

    /// Appends the path of a runtime support item.
    pub fn write_glib_type(&self, w: &mut String, name: &str)
        ensures
            final(w)@ == old(w)@ + self.glib_type(name@),
    {
        let ghost w0 = w@;
        w.append(self.glib_crate.as_str());
        w.append("::");
        w.append(name);
        assert(w@ =~= w0 + self.glib_type(name@));
    }

    pub fn is_too_low_version(&self, ns_id: Option<u16>, version: Option<Version>) -> (r: bool)
        requires
            self.wf(),
            self.has_ns(ns_id),
        ensures
            r == match version {
                Some(v) => self.too_low(ns_id, v),
                None => false,
            },
    {
        match (version, self.min_required_version(ns_id)) {
            (Some(v), Some(m)) => !v.is_newer_than(&m),
            _ => false,
        }
    }
}

} // verus!
