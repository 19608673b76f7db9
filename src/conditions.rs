//! Compile guards and their documentation twins, version guards, their
//! complements and deprecation markers.
use vstd::prelude::*;
use vstd::string::*;
use crate::env::{Env, TypeId};
use crate::text::{
    comment_text, opt_line, opt_string_view, tabs, write_comment, write_line,
    write_opt_line, write_tabs,
};
use crate::version::{cfg_text, dotted_text, guard_of, Version};

verus! {

/// `#[cfg(any(C, feature = "dox"))]`: compiles the item when `C` holds, and
/// in documentation builds.
pub open spec fn no_doc_text(cfg: Seq<char>, commented: bool, indent: nat) -> Seq<char> {
    tabs(indent) + comment_text(commented) + "#[cfg(any("@ + cfg + ", feature = \"dox\"))]"@
}

/// `#[cfg_attr(feature = "dox", doc(cfg(C)))]`: marks the item as gated by
/// `C` in documentation.
pub open spec fn doc_text(cfg: Seq<char>, commented: bool, indent: nat) -> Seq<char> {
    tabs(indent) + comment_text(commented) + "#[cfg_attr(feature = \"dox\", doc(cfg("@ + cfg
        + ")))]"@
}

/// The compile guard followed, on the next line, by its documentation twin.
pub open spec fn paired_text(cfg: Seq<char>, commented: bool, indent: nat) -> Seq<char> {
    no_doc_text(cfg, commented, indent) + "\n"@ + doc_text(cfg, commented, indent)
}

/// The predicate that guards a version in a namespace.
pub open spec fn version_cfg(env: &Env, ns_id: Option<u16>, v: Version) -> Seq<char> {
    cfg_text(v, env.prefix(ns_id))
}

/// The paired guard of a version, when the namespace's baseline does not
/// already guarantee it.
pub open spec fn version_condition_text(
    env: &Env,
    ns_id: Option<u16>,
    version: Option<Version>,
    commented: bool,
    indent: nat,
) -> Option<Seq<char>> {
    match guard_of(version, env.min_required(ns_id)) {
        Some(v) => Some(paired_text(version_cfg(env, ns_id, v), commented, indent)),
        None => None,
    }
}

/// The complement of the compile guard of a version:
/// `#[cfg(not(any(C, feature = "dox")))]`.
pub open spec fn not_version_text(
    env: &Env,
    ns_id: Option<u16>,
    v: Version,
    commented: bool,
    indent: nat,
) -> Seq<char> {
    tabs(indent) + comment_text(commented) + "#[cfg(not(any("@ + version_cfg(env, ns_id, v)
        + ", feature = \"dox\")))]"@
}

/// The deprecation marker of a version: unconditional when the baseline of
/// the namespace already reaches that version, guarded otherwise.
pub open spec fn deprecated_text(
    env: &Env,
    ns_id: Option<u16>,
    v: Version,
    commented: bool,
    indent: nat,
) -> Seq<char> {
    if env.too_low(ns_id, v) {
        tabs(indent) + comment_text(commented) + "#[deprecated = \"Since "@ + dotted_text(v)
            + "\"]"@
    } else {
        tabs(indent) + comment_text(commented) + "#[cfg_attr("@ + cfg_text(v, None)
            + ", deprecated = \"Since "@ + dotted_text(v) + "\")]"@
    }
}

pub open spec fn tid_ns(type_tid: Option<TypeId>) -> Option<u16> {
    match type_tid {
        Some(t) => Some(t.ns_id),
        None => None,
    }
}

fn no_doc_string(cfg: &str, commented: bool, indent: usize) -> (r: String)
    ensures
        r@ == no_doc_text(cfg@, commented, indent as nat),
{
    let mut s = String::new();
    write_tabs(&mut s, indent);
    write_comment(&mut s, commented);
    s.append("#[cfg(any(");
    s.append(cfg);
    s.append(", feature = \"dox\"))]");
    assert(s@ =~= no_doc_text(cfg@, commented, indent as nat));
    s
}

fn doc_string(cfg: &str, commented: bool, indent: usize) -> (r: String)
    ensures
        r@ == doc_text(cfg@, commented, indent as nat),
{
    let mut s = String::new();
    write_tabs(&mut s, indent);
    write_comment(&mut s, commented);
    s.append("#[cfg_attr(feature = \"dox\", doc(cfg(");
    s.append(cfg);
    s.append(")))]");
    assert(s@ =~= doc_text(cfg@, commented, indent as nat));
    s
}

/// The compile guard of a predicate, if one is given.
pub fn cfg_condition_string_no_doc(cfg_condition: Option<&str>, commented: bool, indent: usize) -> (r:
    Option<String>)
    ensures
        opt_string_view(r) == match cfg_condition {
            Some(c) => Some(no_doc_text(c@, commented, indent as nat)),
            None => None,
        },
{
    match cfg_condition {
        Some(c) => Some(no_doc_string(c, commented, indent)),
        None => None,
    }
}

/// The documentation twin of the compile guard of a predicate, if one is
/// given.
pub fn cfg_condition_string_doc(cfg_condition: Option<&str>, commented: bool, indent: usize) -> (r:
    Option<String>)
    ensures
        opt_string_view(r) == match cfg_condition {
            Some(c) => Some(doc_text(c@, commented, indent as nat)),
            None => None,
        },
{
    match cfg_condition {
        Some(c) => Some(doc_string(c, commented, indent)),
        None => None,
    }
}

/// The compile guard of a predicate and its documentation twin, as two
/// lines, if a predicate is given.
pub fn cfg_condition_string(cfg_condition: Option<&str>, commented: bool, indent: usize) -> (r:
    Option<String>)
    ensures
        opt_string_view(r) == match cfg_condition {
            Some(c) => Some(paired_text(c@, commented, indent as nat)),
            None => None,
        },
{
    match cfg_condition {
        Some(c) => {
            let mut s = no_doc_string(c, commented, indent);
            s.append("\n");
            let d = doc_string(c, commented, indent);
            s.append(d.as_str());
            assert(s@ =~= paired_text(c@, commented, indent as nat));
            Some(s)
        },
        None => None,
    }
}

/// Writes the compile guard of a predicate and its documentation twin.
pub fn cfg_condition(w: &mut String, cfg_condition: Option<&str>, commented: bool, indent: usize)
    ensures
        final(w)@ == old(w)@ + opt_line(
            match cfg_condition {
                Some(c) => Some(paired_text(c@, commented, indent as nat)),
                None => None,
            },
        ),
{
    write_opt_line(w, cfg_condition_string(cfg_condition, commented, indent));
}

/// Writes the compile guard of a predicate alone.
pub fn cfg_condition_no_doc(w: &mut String, cfg_condition: Option<&str>, commented: bool, indent: usize)
    ensures
        final(w)@ == old(w)@ + opt_line(
            match cfg_condition {
                Some(c) => Some(no_doc_text(c@, commented, indent as nat)),
                None => None,
            },
        ),
{
    write_opt_line(w, cfg_condition_string_no_doc(cfg_condition, commented, indent));
}

/// Writes the documentation twin of the compile guard of a predicate alone.
pub fn cfg_condition_doc(w: &mut String, cfg_condition: Option<&str>, commented: bool, indent: usize)
    ensures
        final(w)@ == old(w)@ + opt_line(
            match cfg_condition {
                Some(c) => Some(doc_text(c@, commented, indent as nat)),
                None => None,
            },
        ),
{
    write_opt_line(w, cfg_condition_string_doc(cfg_condition, commented, indent));
}

/// The paired guard of a symbol introduced in `version`, when the baseline
/// of its namespace does not already guarantee that version.
pub fn version_condition_string(
    env: &Env,
    ns_id: Option<u16>,
    version: Option<Version>,
    commented: bool,
    indent: usize,
) -> (r: Option<String>)
    requires
        env.wf(),
        env.has_ns(ns_id),
    ensures
        opt_string_view(r) == version_condition_text(env, ns_id, version, commented, indent as nat),
{
    let min = env.min_required_version(ns_id);
    match crate::version::resolve_guard(version, min) {
        Some(v) => {
            let cfg = v.to_cfg(env.ns_prefix(ns_id));
            cfg_condition_string(Some(cfg.as_str()), commented, indent)
        },
        None => None,
    }
}

/// Writes the paired guard of a symbol introduced in `version`, if it needs
/// one.
pub fn version_condition(
    w: &mut String,
    env: &Env,
    ns_id: Option<u16>,
    version: Option<Version>,
    commented: bool,
    indent: usize,
)
    requires
        env.wf(),
        env.has_ns(ns_id),
    ensures
        final(w)@ == old(w)@ + opt_line(
            version_condition_text(env, ns_id, version, commented, indent as nat),
        ),
{
    write_opt_line(w, version_condition_string(env, ns_id, version, commented, indent));
}

/// Writes the compile guard alone of a symbol introduced in `version`, if
/// it needs one.
pub fn version_condition_no_doc(
    w: &mut String,
    env: &Env,
    ns_id: Option<u16>,
    version: Option<Version>,
    commented: bool,
    indent: usize,
)
    requires
        env.wf(),
        env.has_ns(ns_id),
    ensures
        final(w)@ == old(w)@ + opt_line(
            match guard_of(version, env.min_required(ns_id)) {
                Some(v) => Some(no_doc_text(version_cfg(env, ns_id, v), commented, indent as nat)),
                None => None,
            },
        ),
{
    let min = env.min_required_version(ns_id);
    if let Some(v) = crate::version::resolve_guard(version, min) {
        let cfg = v.to_cfg(env.ns_prefix(ns_id));
        write_opt_line(w, cfg_condition_string_no_doc(Some(cfg.as_str()), commented, indent));
    }
}

/// Writes the documentation twin alone of the guard of a version of the main
/// namespace, if it needs one.
pub fn version_condition_doc(
    w: &mut String,
    env: &Env,
    version: Option<Version>,
    commented: bool,
    indent: usize,
)
    requires
        env.wf(),
    ensures
        final(w)@ == old(w)@ + opt_line(
            match guard_of(version, env.min_required(None)) {
                Some(v) => Some(doc_text(cfg_text(v, None), commented, indent as nat)),
                None => None,
            },
        ),
{
    let min = env.min_required_version(None);
    if let Some(v) = crate::version::resolve_guard(version, min) {
        let cfg = v.to_cfg(None);
        write_opt_line(w, cfg_condition_string_doc(Some(cfg.as_str()), commented, indent));
    }
}

/// Writes the paired guard of the negation of a version predicate.
pub fn not_version_condition(w: &mut String, version: Option<Version>, commented: bool, indent: usize)
    ensures
        final(w)@ == old(w)@ + opt_line(
            match version {
                Some(v) => Some(
                    paired_text("not("@ + cfg_text(v, None) + ")"@, commented, indent as nat),
                ),
                None => None,
            },
        ),
{
    if let Some(v) = version {
        let mut c = String::new();
        c.append("not(");
        let cfg = v.to_cfg(None);
        c.append(cfg.as_str());
        c.append(")");
        assert(c@ =~= "not("@ + cfg_text(v, None) + ")"@);
        write_opt_line(w, cfg_condition_string(Some(c.as_str()), commented, indent));
    }
}

/// Writes the complement of the compile guard of a version, so that an
/// alternative item compiles exactly where the guarded one does not.
pub fn not_version_condition_no_dox(
    w: &mut String,
    env: &Env,
    ns_id: Option<u16>,
    version: Option<Version>,
    commented: bool,
    indent: usize,
)
    requires
        env.wf(),
        env.has_ns(ns_id),
    ensures
        final(w)@ == old(w)@ + opt_line(
            match version {
                Some(v) => Some(not_version_text(env, ns_id, v, commented, indent as nat)),
                None => None,
            },
        ),
{
    let ghost w0 = w@;
    if let Some(v) = version {
        write_tabs(w, indent);
        write_comment(w, commented);
        w.append("#[cfg(not(any(");
        v.write_cfg(w, env.ns_prefix(ns_id));
        write_line(w, ", feature = \"dox\")))]");
        assert(w@ =~= w0 + not_version_text(env, ns_id, v, commented, indent as nat).push('\n'));
    }
}

/// The deprecation marker of a symbol deprecated since `deprecated`, if it
/// is.
pub fn cfg_deprecated_string(
    env: &Env,
    type_tid: Option<TypeId>,
    deprecated: Option<Version>,
    commented: bool,
    indent: usize,
) -> (r: Option<String>)
    requires
        env.wf(),
        env.has_ns(tid_ns(type_tid)),
    ensures
        opt_string_view(r) == match deprecated {
            Some(v) => Some(deprecated_text(env, tid_ns(type_tid), v, commented, indent as nat)),
            None => None,
        },
{
    match deprecated {
        Some(v) => {
            let ns = match type_tid {
                Some(t) => Some(t.ns_id),
                None => None,
            };
            let mut s = String::new();
            write_tabs(&mut s, indent);
            write_comment(&mut s, commented);
            if env.is_too_low_version(ns, Some(v)) {
                s.append("#[deprecated = \"Since ");
                v.write_dotted(&mut s);
                s.append("\"]");
            } else {
                s.append("#[cfg_attr(");
                v.write_cfg(&mut s, None);
                s.append(", deprecated = \"Since ");
                v.write_dotted(&mut s);
                s.append("\")]");
            }
            assert(s@ =~= deprecated_text(env, ns, v, commented, indent as nat));
            Some(s)
        },
        None => None,
    }
}

/// Writes the deprecation marker of a symbol, if it is deprecated.
pub fn cfg_deprecated(
    w: &mut String,
    env: &Env,
    type_tid: Option<TypeId>,
    deprecated: Option<Version>,
    commented: bool,
    indent: usize,
)
    requires
        env.wf(),
        env.has_ns(tid_ns(type_tid)),
    ensures
        final(w)@ == old(w)@ + opt_line(
            match deprecated {
                Some(v) => Some(deprecated_text(env, tid_ns(type_tid), v, commented, indent as nat)),
                None => None,
            },
        ),
{
    write_opt_line(w, cfg_deprecated_string(env, type_tid, deprecated, commented, indent));
}

} // verus!
