//! Wrapper declarations: how the lifetime of each kind of foreign value is
//! managed, resolved through the ancestor chain where the type itself does
//! not say.
use vstd::prelude::*;
use vstd::string::*;
use crate::attributes::{derives, derives_text, doc_alias, doc_alias_text};
use crate::conditions::{
    not_version_condition_no_dox, not_version_text, version_condition, version_condition_text,
};
use crate::env::{Derive, Env, LibType, RenderError, StatusedTypeId, TraitInfo, Visibility, MAIN};
use crate::text::{join, opt_line, views, write_joined};
use crate::version::Version;

verus! {

// ---- lines shared by every declaration ----

/// The opening line of a declaration block.
pub open spec fn wrapper_open_text(env: &Env) -> Seq<char> {
    env.glib_type("wrapper!"@) + " {\n"@
}

/// The struct line: `\t<vis> struct <T>(<kind><<sys>::<glib><extra>>)<suffix>;`.
pub open spec fn struct_line_text(
    vis: Visibility,
    rust_name: Seq<char>,
    kind: Seq<char>,
    sys: Seq<char>,
    glib_name: Seq<char>,
    extra: Seq<char>,
    suffix: Seq<char>,
) -> Seq<char> {
    "\t"@ + vis.text() + " struct "@ + rust_name + "("@ + kind + "<"@ + sys + "::"@ + glib_name + extra
        + ">)"@ + suffix + ";\n"@
}

/// An empty line, then the opening of the function table.
pub open spec fn match_open_text() -> Seq<char> {
    "\n"@ + "\tmatch fn {\n"@
}

/// The end of the function table and of the block.
pub open spec fn match_close_text() -> Seq<char> {
    "\t}\n"@ + "}\n"@
}

/// One entry of the function table: `\t\t<label> => |ptr| <ffi>::<f>(<arg>),`.
pub open spec fn fn_line_text(label: Seq<char>, ffi: Seq<char>, f: Seq<char>, arg: Seq<char>) -> Seq<
    char,
> {
    "\t\t"@ + label + " => |ptr| "@ + ffi + "::"@ + f + "("@ + arg + "),\n"@
}

/// The type-identification entry: `\t\ttype_ => || <sys>::<f>(),`.
pub open spec fn type_line_text(sys: Seq<char>, f: Seq<char>) -> Seq<char> {
    "\t\ttype_ => || "@ + sys + "::"@ + f + "(),\n"@
}

pub open spec fn opt_type_line_text(sys: Seq<char>, f: Option<Seq<char>>) -> Seq<char> {
    match f {
        Some(g) => type_line_text(sys, g),
        None => Seq::empty(),
    }
}

fn write_wrapper_open(w: &mut String, env: &Env)
    ensures
        final(w)@ == old(w)@ + wrapper_open_text(env),
{
    let ghost w0 = w@;
    env.write_glib_type(w, "wrapper!");
    w.append(" {\n");
    assert(w@ =~= w0 + wrapper_open_text(env));
}

fn write_struct_line(
    w: &mut String,
    vis: Visibility,
    rust_name: &str,
    kind: &str,
    sys: &str,
    glib_name: &str,
    extra: &str,
    suffix: &str,
)
    ensures
        final(w)@ == old(w)@ + struct_line_text(vis, rust_name@, kind@, sys@, glib_name@, extra@, suffix@),
{
    let ghost w0 = w@;
    w.append("\t");
    w.append(vis.as_str());
    w.append(" struct ");
    w.append(rust_name);
    w.append("(");
    w.append(kind);
    w.append("<");
    w.append(sys);
    w.append("::");
    w.append(glib_name);
    w.append(extra);
    w.append(">)");
    w.append(suffix);
    w.append(";\n");
    assert(w@ =~= w0 + struct_line_text(vis, rust_name@, kind@, sys@, glib_name@, extra@, suffix@));
}

fn write_match_open(w: &mut String)
    ensures
        final(w)@ == old(w)@ + match_open_text(),
{
    let ghost w0 = w@;
    w.append("\n");
    w.append("\tmatch fn {\n");
    assert(w@ =~= w0 + match_open_text());
}

fn write_match_close(w: &mut String)
    ensures
        final(w)@ == old(w)@ + match_close_text(),
{
    let ghost w0 = w@;
    w.append("\t}\n");
    w.append("}\n");
    assert(w@ =~= w0 + match_close_text());
}

fn write_fn_line(w: &mut String, label: &str, ffi: &str, f: &str, arg: &str)
    ensures
        final(w)@ == old(w)@ + fn_line_text(label@, ffi@, f@, arg@),
{
    let ghost w0 = w@;
    w.append("\t\t");
    w.append(label);
    w.append(" => |ptr| ");
    w.append(ffi);
    w.append("::");
    w.append(f);
    w.append("(");
    w.append(arg);
    w.append("),\n");
    assert(w@ =~= w0 + fn_line_text(label@, ffi@, f@, arg@));
}

fn write_type_line(w: &mut String, sys: &str, f: &str)
    ensures
        final(w)@ == old(w)@ + type_line_text(sys@, f@),
{
    let ghost w0 = w@;
    w.append("\t\ttype_ => || ");
    w.append(sys);
    w.append("::");
    w.append(f);
    w.append("(),\n");
    assert(w@ =~= w0 + type_line_text(sys@, f@));
}

// ---- ancestors ----

/// How an ancestor is named in the bindings: qualified by its crate unless
/// it belongs to the main namespace.
pub open spec fn parent_name(env: &Env, p: StatusedTypeId) -> Seq<char> {
    if p.type_id.ns_id == MAIN {
        p.name@
    } else {
        env.namespaces@[p.type_id.ns_id as int].crate_name@ + "::"@ + p.name@
    }
}

/// Which active ancestors a list of names is made of.
#[derive(Clone, Copy, Debug, PartialEq, Eq, Structural)]
pub enum ParentSelection {
    All,
    Classes,
    Interfaces,
}

pub open spec fn selected(env: &Env, p: StatusedTypeId, sel: ParentSelection) -> bool {
    p.is_active() && match sel {
        ParentSelection::All => true,
        ParentSelection::Classes => env.lib_type(p.type_id) is Class,
        ParentSelection::Interfaces => env.lib_type(p.type_id) is Interface,
    }
}

/// The names of the selected active ancestors, in declared order.
pub open spec fn parent_names_spec(env: &Env, ps: Seq<StatusedTypeId>, sel: ParentSelection) -> Seq<
    Seq<char>,
>
    decreases ps.len(),
{
    if ps.len() == 0 {
        Seq::empty()
    } else {
        let rest = parent_names_spec(env, ps.drop_last(), sel);
        if selected(env, ps.last(), sel) {
            rest.push(parent_name(env, ps.last()))
        } else {
            rest
        }
    }
}

/// Every active ancestor refers to a type of the type table.
pub open spec fn parents_known(env: &Env, ps: Seq<StatusedTypeId>) -> bool {
    forall|i: int| 0 <= i < ps.len() && (#[trigger] ps[i]).is_active() ==> env.has_type(ps[i].type_id)
}

fn format_parent_name(env: &Env, p: &StatusedTypeId) -> (r: String)
    requires
        env.has_type(p.type_id),
    ensures
        r@ == parent_name(env, *p),
{
    if p.type_id.ns_id == MAIN {
        p.name.clone()
    } else {
        let mut s = String::new();
        s.append(env.namespaces[p.type_id.ns_id as usize].crate_name.as_str());
        s.append("::");
        s.append(p.name.as_str());
        assert(s@ =~= parent_name(env, *p));
        s
    }
}

fn is_selected(env: &Env, p: &StatusedTypeId, sel: ParentSelection) -> (r: bool)
    requires
        p.is_active() ==> env.has_type(p.type_id),
    ensures
        r == selected(env, *p, sel),
{
    if p.status.ignored() {
        false
    } else {
        match sel {
            ParentSelection::All => true,
            ParentSelection::Classes => match env.type_(p.type_id) {
                LibType::Class { .. } => true,
                _ => false,
            },
            ParentSelection::Interfaces => match env.type_(p.type_id) {
                LibType::Interface => true,
                _ => false,
            },
        }
    }
}

/// The names of the selected active ancestors, in declared order.
pub fn parent_names(env: &Env, parents: &[StatusedTypeId], sel: ParentSelection) -> (r: Vec<String>)
    requires
        parents_known(env, parents@),
    ensures
        views(r@) == parent_names_spec(env, parents@, sel),
{
    let mut r: Vec<String> = Vec::new();
    let mut i: usize = 0;
    while i < parents.len()
        invariant
            i <= parents@.len(),
            parents_known(env, parents@),
            views(r@) == parent_names_spec(env, parents@.subrange(0, i as int), sel),
        decreases parents@.len() - i,
    {
        let ghost prev = r@;
        let p = &parents[i];
        let ghost s = parents@.subrange(0, i + 1);
        proof {
            assert(s.drop_last() =~= parents@.subrange(0, i as int));
            assert(s.last() == *p);
        }
        if is_selected(env, p, sel) {
            r.push(format_parent_name(env, p));
            assert(views(r@) =~= views(prev).push(parent_name(env, *p)));
        }
        i = i + 1;
    }
    assert(parents@.subrange(0, parents@.len() as int) =~= parents@);
    r
}


// ---- fundamental types ----

/// Whether an ancestor can lend its lifetime functions: it is active and is
/// a class that declares both ref and unref.
pub open spec fn supplies_lifetime(env: &Env, p: StatusedTypeId) -> bool {
    p.is_active() && match env.lib_type(p.type_id) {
        LibType::Class { ref_fn, unref_fn, .. } => ref_fn is Some && unref_fn is Some,
        _ => false,
    }
}

/// The first ancestor, in declared order, that can lend its lifetime
/// functions.
pub open spec fn lifetime_source(env: &Env, ps: Seq<StatusedTypeId>) -> Option<StatusedTypeId>
    decreases ps.len(),
{
    if ps.len() == 0 {
        None
    } else if supplies_lifetime(env, ps[0]) {
        Some(ps[0])
    } else {
        lifetime_source(env, ps.drop_first())
    }
}

pub open spec fn has_active(ps: Seq<StatusedTypeId>) -> bool {
    exists|i: int| 0 <= i < ps.len() && (#[trigger] ps[i]).is_active()
}

/// The lifetime functions of a fundamental type, as (crate of the foreign
/// functions, ref, unref, pointer expression): its own when it has no active
/// ancestor, else those of the first ancestor that can lend them, with the
/// pointer cast to that ancestor's foreign type. `None` when there are none.
pub open spec fn fundamental_lifetime(
    env: &Env,
    ref_func: Option<Seq<char>>,
    unref_func: Option<Seq<char>>,
    ps: Seq<StatusedTypeId>,
) -> Option<(Seq<char>, Seq<char>, Seq<char>, Seq<char>)> {
    if !has_active(ps) {
        match (ref_func, unref_func) {
            (Some(r), Some(u)) => Some((env.main_sys(), r, u, "ptr"@)),
            _ => None,
        }
    } else {
        match lifetime_source(env, ps) {
            Some(p) => match env.lib_type(p.type_id) {
                LibType::Class { c_type, ref_fn: Some(r), unref_fn: Some(u) } => Some(
                    (
                        env.sys_of(p.type_id.ns_id),
                        r@,
                        u@,
                        "ptr as *mut "@ + env.sys_of(p.type_id.ns_id) + "::"@ + c_type@,
                    ),
                ),
                _ => None,
            },
            None => None,
        }
    }
}

/// The runtime type accessor of a fundamental type.
pub open spec fn static_type_text(env: &Env, rust_name: Seq<char>, glib_func_name: Seq<char>) -> Seq<
    char,
> {
    "impl "@ + env.glib_type("StaticType"@) + " for "@ + rust_name + " {\n"@
        + "\tfn static_type() -> "@ + env.glib_type("Type"@) + " {\n"@
        + "\t\t unsafe { from_glib("@ + env.main_sys() + "::"@ + glib_func_name + "()) }\n"@
        + match_close_text()
}

pub open spec fn fundamental_text(
    env: &Env,
    rust_name: Seq<char>,
    glib_name: Seq<char>,
    glib_func_name: Seq<char>,
    vis: Visibility,
    lt: (Seq<char>, Seq<char>, Seq<char>, Seq<char>),
) -> Seq<char> {
    wrapper_open_text(env) + doc_alias_text(glib_name, ""@, 1) + struct_line_text(
        vis,
        rust_name,
        "Shared"@,
        env.main_sys(),
        glib_name,
        ""@,
        ""@,
    ) + match_open_text() + fn_line_text("ref"@, lt.0, lt.1, lt.3) + fn_line_text(
        "unref"@,
        lt.0,
        lt.2,
        lt.3,
    ) + match_close_text() + "\n\n"@ + static_type_text(env, rust_name, glib_func_name)
}

fn supplies(env: &Env, p: &StatusedTypeId) -> (r: bool)
    requires
        p.is_active() ==> env.has_type(p.type_id),
    ensures
        r == supplies_lifetime(env, *p),
{
    if p.status.ignored() {
        false
    } else {
        match env.type_(p.type_id) {
            LibType::Class { ref_fn, unref_fn, .. } => ref_fn.is_some() && unref_fn.is_some(),
            _ => false,
        }
    }
}

fn any_active(parents: &[StatusedTypeId]) -> (r: bool)
    ensures
        r == has_active(parents@),
{
    let mut i: usize = 0;
    while i < parents.len()
        invariant
            i <= parents@.len(),
            forall|j: int| 0 <= j < i ==> !(#[trigger] parents@[j]).is_active(),
        decreases parents@.len() - i,
    {
        if !parents[i].status.ignored() {
            assert(parents@[i as int].is_active());
            return true;
        }
        i = i + 1;
    }
    false
}

fn find_lifetime_source(env: &Env, parents: &[StatusedTypeId]) -> (r: Option<usize>)
    requires
        parents_known(env, parents@),
    ensures
        match r {
            Some(i) => i < parents@.len() && lifetime_source(env, parents@) == Some(
                parents@[i as int],
            ) && supplies_lifetime(env, parents@[i as int]),
            None => lifetime_source(env, parents@) is None,
        },
{
    let mut i: usize = 0;
    assert(parents@.subrange(0, parents@.len() as int) =~= parents@);
    while i < parents.len()
        invariant
            i <= parents@.len(),
            parents_known(env, parents@),
            lifetime_source(env, parents@) == lifetime_source(
                env,
                parents@.subrange(i as int, parents@.len() as int),
            ),
        decreases parents@.len() - i,
    {
        let ghost rest = parents@.subrange(i as int, parents@.len() as int);
        assert(rest[0] == parents@[i as int]);
        if supplies(env, &parents[i]) {
            return Some(i);
        }
        assert(rest.drop_first() =~= parents@.subrange(i + 1, parents@.len() as int));
        i = i + 1;
    }
    None
}

fn resolve_fundamental_lifetime(
    env: &Env,
    ref_func: Option<&str>,
    unref_func: Option<&str>,
    parents: &[StatusedTypeId],
) -> (r: Option<(String, String, String, String)>)
    requires
        env.wf(),
        parents_known(env, parents@),
    ensures
        match r {
            Some(t) => fundamental_lifetime(
                env,
                crate::text::opt_view(ref_func),
                crate::text::opt_view(unref_func),
                parents@,
            ) == Some((t.0@, t.1@, t.2@, t.3@)),
            None => fundamental_lifetime(
                env,
                crate::text::opt_view(ref_func),
                crate::text::opt_view(unref_func),
                parents@,
            ) is None,
        },
{
    if !any_active(parents) {
        match (ref_func, unref_func) {
            (Some(r), Some(u)) => Some(
                (
                    env.main_sys_crate_name().to_owned(),
                    r.to_owned(),
                    u.to_owned(),
                    "ptr".to_owned(),
                ),
            ),
            _ => None,
        }
    } else {
        match find_lifetime_source(env, parents) {
            Some(i) => {
                let p = &parents[i];
                assert(parents@[i as int].is_active());
                let sys = env.sys_crate_import(p.type_id.ns_id);
                match env.type_(p.type_id) {
                    LibType::Class { c_type, ref_fn: Some(r), unref_fn: Some(u) } => {
                        let mut ptr = String::new();
                        ptr.append("ptr as *mut ");
                        ptr.append(sys);
                        ptr.append("::");
                        ptr.append(c_type.as_str());
                        assert(ptr@ =~= "ptr as *mut "@ + env.sys_of(p.type_id.ns_id) + "::"@
                            + c_type@);
                        Some((sys.to_owned(), r.clone(), u.clone(), ptr))
                    },
                    _ => None,
                }
            },
            None => None,
        }
    }
}

/// The runtime type accessor of a fundamental type.
fn static_type_string(env: &Env, rust_name: &str, glib_func_name: &str) -> (r: String)
    requires
        env.wf(),
    ensures
        r@ == static_type_text(env, rust_name@, glib_func_name@),
{
    let mut s = String::new();
    s.append("impl ");
    assert(Seq::<char>::empty() + "impl "@ =~= "impl "@);
    env.write_glib_type(&mut s, "StaticType");
    s.append(" for ");
    s.append(rust_name);
    s.append(" {\n");
    s.append("\tfn static_type() -> ");
    env.write_glib_type(&mut s, "Type");
    s.append(" {\n");
    s.append("\t\t unsafe { from_glib(");
    s.append(env.main_sys_crate_name());
    s.append("::");
    s.append(glib_func_name);
    s.append("()) }\n");
    write_match_close(&mut s);
    s
}

/// Declares a fundamental (reference-counted) type. Its ref/unref functions
/// are its own when it has no active ancestor, else those of the first
/// active ancestor class that declares both; without them the type cannot be
/// represented and nothing is written.
pub fn define_fundamental_type(
    w: &mut String,
    env: &Env,
    rust_name: &str,
    glib_name: &str,
    glib_func_name: &str,
    ref_func: Option<&str>,
    unref_func: Option<&str>,
    parents: &[StatusedTypeId],
    visibility: Visibility,
) -> (r: Result<(), RenderError>)
    requires
        env.wf(),
        parents_known(env, parents@),
    ensures
        match fundamental_lifetime(
            env,
            crate::text::opt_view(ref_func),
            crate::text::opt_view(unref_func),
            parents@,
        ) {
            Some(lt) => r == Ok::<(), RenderError>(()) && final(w)@ == old(w)@ + fundamental_text(
                env,
                rust_name@,
                glib_name@,
                glib_func_name@,
                visibility,
                lt,
            ),
            None => r == Err::<(), RenderError>(RenderError::MissingLifetimeFunctions)
                && final(w)@ == old(w)@,
        },
{
    let lt = match resolve_fundamental_lifetime(env, ref_func, unref_func, parents) {
        Some(lt) => lt,
        None => return Err(RenderError::MissingLifetimeFunctions),
    };
    let sys = env.main_sys_crate_name();
    let mut s = String::new();
    write_wrapper_open(&mut s, env);
    assert(Seq::<char>::empty() + wrapper_open_text(env) =~= wrapper_open_text(env));
    doc_alias(&mut s, glib_name, "", 1);
    write_struct_line(&mut s, visibility, rust_name, "Shared", sys, glib_name, "", "");
    write_match_open(&mut s);
    write_fn_line(&mut s, "ref", lt.0.as_str(), lt.1.as_str(), lt.3.as_str());
    write_fn_line(&mut s, "unref", lt.0.as_str(), lt.2.as_str(), lt.3.as_str());
    write_match_close(&mut s);
    s.append("\n\n");
    let st = static_type_string(env, rust_name, glib_func_name);
    s.append(st.as_str());
    w.append(s.as_str());
    Ok(())
}

// ---- objects and interfaces ----

/// The ancestry clause of an object: ` @extends` over its classes, then
/// ` @implements` over its interfaces, each only when non-empty, joined by a
/// comma when both stand.
pub open spec fn object_suffix_text(classes: Seq<Seq<char>>, interfaces: Seq<Seq<char>>) -> Seq<char> {
    let ext = if classes.len() > 0 {
        " @extends "@ + join(classes, ", "@)
    } else {
        Seq::empty()
    };
    let imp = if interfaces.len() > 0 {
        (if classes.len() > 0 {
            ","@
        } else {
            Seq::empty()
        }) + " @implements "@ + join(interfaces, ", "@)
    } else {
        Seq::empty()
    };
    ext + imp
}

/// The ancestry clause of an object or interface: none without active
/// ancestors; ` @requires` over all of them for an interface; the object
/// clause otherwise.
pub open spec fn ancestry_text(env: &Env, is_interface: bool, ps: Seq<StatusedTypeId>) -> Seq<char> {
    let all = parent_names_spec(env, ps, ParentSelection::All);
    if all.len() == 0 {
        Seq::empty()
    } else if is_interface {
        " @requires "@ + join(all, ", "@)
    } else {
        object_suffix_text(
            parent_names_spec(env, ps, ParentSelection::Classes),
            parent_names_spec(env, ps, ParentSelection::Interfaces),
        )
    }
}

pub open spec fn class_extra_text(env: &Env, glib_class_name: Option<Seq<char>>) -> Seq<char> {
    match glib_class_name {
        Some(c) => ", "@ + env.main_sys() + "::"@ + c,
        None => Seq::empty(),
    }
}

pub open spec fn object_kind_text(is_interface: bool) -> Seq<char> {
    if is_interface {
        "Interface"@
    } else {
        "Object"@
    }
}

pub open spec fn object_text(
    env: &Env,
    rust_name: Seq<char>,
    glib_name: Seq<char>,
    glib_class_name: Option<Seq<char>>,
    glib_func_name: Seq<char>,
    is_interface: bool,
    ps: Seq<StatusedTypeId>,
    vis: Visibility,
) -> Seq<char> {
    wrapper_open_text(env) + doc_alias_text(glib_name, ""@, 1) + struct_line_text(
        vis,
        rust_name,
        object_kind_text(is_interface),
        env.main_sys(),
        glib_name,
        class_extra_text(env, glib_class_name),
        ancestry_text(env, is_interface, ps),
    ) + match_open_text() + type_line_text(env.main_sys(), glib_func_name) + match_close_text()
}

fn object_suffix(classes: &Vec<String>, interfaces: &Vec<String>) -> (r: String)
    ensures
        r@ == object_suffix_text(views(classes@), views(interfaces@)),
{
    let mut s = String::new();
    if classes.len() > 0 {
        s.append(" @extends ");
        write_joined(&mut s, classes.as_slice(), ", ");
    }
    if interfaces.len() > 0 {
        if classes.len() > 0 {
            s.append(",");
        }
        s.append(" @implements ");
        write_joined(&mut s, interfaces.as_slice(), ", ");
    }
    assert(s@ =~= object_suffix_text(views(classes@), views(interfaces@)));
    s
}

fn ancestry(env: &Env, is_interface: bool, parents: &[StatusedTypeId]) -> (r: String)
    requires
        parents_known(env, parents@),
    ensures
        r@ == ancestry_text(env, is_interface, parents@),
{
    let all = parent_names(env, parents, ParentSelection::All);
    if all.len() == 0 {
        String::new()
    } else if is_interface {
        let mut s = String::new();
        s.append(" @requires ");
        write_joined(&mut s, all.as_slice(), ", ");
        assert(s@ =~= ancestry_text(env, is_interface, parents@));
        s
    } else {
        let classes = parent_names(env, parents, ParentSelection::Classes);
        let interfaces = parent_names(env, parents, ParentSelection::Interfaces);
        object_suffix(&classes, &interfaces)
    }
}

/// Declares an object or an interface with its runtime type function. An
/// interface requires all its active ancestors; an object extends its
/// ancestor classes and implements its ancestor interfaces.
pub fn define_object_type(
    w: &mut String,
    env: &Env,
    rust_name: &str,
    glib_name: &str,
    glib_class_name: Option<&str>,
    glib_func_name: &str,
    is_interface: bool,
    parents: &[StatusedTypeId],
    visibility: Visibility,
)
    requires
        env.wf(),
        parents_known(env, parents@),
    ensures
        final(w)@ == old(w)@ + object_text(
            env,
            rust_name@,
            glib_name@,
            crate::text::opt_view(glib_class_name),
            glib_func_name@,
            is_interface,
            parents@,
            visibility,
        ),
{
    let sys = env.main_sys_crate_name();
    let mut extra = String::new();
    if let Some(c) = glib_class_name {
        extra.append(", ");
        extra.append(sys);
        extra.append("::");
        extra.append(c);
    }
    assert(extra@ =~= class_extra_text(env, crate::text::opt_view(glib_class_name)));
    let kind = if is_interface {
        "Interface"
    } else {
        "Object"
    };
    let suffix = ancestry(env, is_interface, parents);
    let mut s = String::new();
    write_wrapper_open(&mut s, env);
    assert(Seq::<char>::empty() + wrapper_open_text(env) =~= wrapper_open_text(env));
    doc_alias(&mut s, glib_name, "", 1);
    write_struct_line(
        &mut s,
        visibility,
        rust_name,
        kind,
        sys,
        glib_name,
        extra.as_str(),
        suffix.as_str(),
    );
    write_match_open(&mut s);
    write_type_line(&mut s, sys, glib_func_name);
    write_match_close(&mut s);
    w.append(s.as_str());
}

// ---- boxed and shared types ----

/// Whether the init / copy-into / clear group is given whole or not at all.
pub open spec fn inline_group_consistent(
    init: Option<String>,
    copy_into: Option<String>,
    clear: Option<String>,
) -> bool {
    (init is Some && copy_into is Some && clear is Some) || (init is None && copy_into is None
        && clear is None)
}

/// The entries of the init / copy-into / clear group, when it is given.
pub open spec fn inline_fns_text(init: Option<String>, copy_into: Option<String>, clear: Option<String>) -> Seq<
    char,
> {
    match (init, copy_into, clear) {
        (Some(i), Some(c), Some(l)) => "\t\tinit => "@ + i@ + ",\n"@ + "\t\tcopy_into => "@ + c@
            + ",\n"@ + "\t\tclear => "@ + l@ + ",\n"@,
        _ => Seq::empty(),
    }
}

pub open spec fn boxed_kind_text(boxed_inline: bool) -> Seq<char> {
    if boxed_inline {
        "BoxedInline"@
    } else {
        "Boxed"@
    }
}

/// The argument of the copy function: the pointer, or the pointer with its
/// constness overridden when the foreign function takes a mutable one.
pub open spec fn copy_arg_text(first_parameter_mut: bool) -> Seq<char> {
    if first_parameter_mut {
        "mut_override(ptr)"@
    } else {
        "ptr"@
    }
}

pub open spec fn opt_seq(s: Option<&str>) -> Option<Seq<char>> {
    crate::text::opt_view(s)
}

/// The view of a registration function with its introduction version.
pub open spec fn get_type_view(g: Option<(String, Option<Version>)>) -> Option<(Seq<char>, Option<Version>)> {
    match g {
        Some((f, v)) => Some((f@, v)),
        None => None,
    }
}

pub open spec fn boxed_block_text(
    env: &Env,
    rust_name: Seq<char>,
    glib_name: Seq<char>,
    copy_fn: TraitInfo,
    free_fn: Seq<char>,
    boxed_inline: bool,
    init: Option<String>,
    copy_into: Option<String>,
    clear: Option<String>,
    get_type_fn: Option<Seq<char>>,
    derive: Seq<Derive>,
    vis: Visibility,
) -> Seq<char> {
    wrapper_open_text(env) + derives_text(derive, 1) + struct_line_text(
        vis,
        rust_name,
        boxed_kind_text(boxed_inline),
        env.main_sys(),
        glib_name,
        ""@,
        ""@,
    ) + match_open_text() + fn_line_text(
        "copy"@,
        env.main_sys(),
        copy_fn.glib_name@,
        copy_arg_text(copy_fn.first_parameter_mut),
    ) + fn_line_text("free"@, env.main_sys(), free_fn, "ptr"@) + inline_fns_text(init, copy_into, clear)
        + opt_type_line_text(env.main_sys(), get_type_fn) + match_close_text()
}

/// A boxed declaration. When the registration function is newer than the
/// type, the block is written twice: with the function under its version
/// guard, and without it under the complement of that guard.
pub open spec fn boxed_text(
    env: &Env,
    rust_name: Seq<char>,
    glib_name: Seq<char>,
    copy_fn: TraitInfo,
    free_fn: Seq<char>,
    boxed_inline: bool,
    init: Option<String>,
    copy_into: Option<String>,
    clear: Option<String>,
    get_type_fn: Option<(Seq<char>, Option<Version>)>,
    derive: Seq<Derive>,
    vis: Visibility,
) -> Seq<char> {
    match get_type_fn {
        Some((f, Some(v))) => "\n"@ + opt_line(version_condition_text(env, None, Some(v), false, 0))
            + boxed_block_text(
            env,
            rust_name,
            glib_name,
            copy_fn,
            free_fn,
            boxed_inline,
            init,
            copy_into,
            clear,
            Some(f),
            derive,
            vis,
        ) + "\n"@ + not_version_text(env, None, v, false, 0).push('\n') + boxed_block_text(
            env,
            rust_name,
            glib_name,
            copy_fn,
            free_fn,
            boxed_inline,
            init,
            copy_into,
            clear,
            None,
            derive,
            vis,
        ),
        Some((f, None)) => "\n"@ + boxed_block_text(
            env,
            rust_name,
            glib_name,
            copy_fn,
            free_fn,
            boxed_inline,
            init,
            copy_into,
            clear,
            Some(f),
            derive,
            vis,
        ),
        None => "\n"@ + boxed_block_text(
            env,
            rust_name,
            glib_name,
            copy_fn,
            free_fn,
            boxed_inline,
            init,
            copy_into,
            clear,
            None,
            derive,
            vis,
        ),
    }
}

fn write_inline_fns(
    w: &mut String,
    init: &Option<String>,
    copy_into: &Option<String>,
    clear: &Option<String>,
)
    ensures
        final(w)@ == old(w)@ + inline_fns_text(*init, *copy_into, *clear),
{
    let ghost w0 = w@;
    if let (Some(i), Some(c), Some(l)) = (init, copy_into, clear) {
        w.append("\t\tinit => ");
        w.append(i.as_str());
        w.append(",\n");
        w.append("\t\tcopy_into => ");
        w.append(c.as_str());
        w.append(",\n");
        w.append("\t\tclear => ");
        w.append(l.as_str());
        w.append(",\n");
    }
    assert(w@ =~= w0 + inline_fns_text(*init, *copy_into, *clear));
}

fn write_opt_type_line(w: &mut String, sys: &str, f: Option<&str>)
    ensures
        final(w)@ == old(w)@ + opt_type_line_text(sys@, opt_seq(f)),
{
    let ghost w0 = w@;
    if let Some(g) = f {
        write_type_line(w, sys, g);
    }
    assert(w@ =~= w0 + opt_type_line_text(sys@, opt_seq(f)));
}

fn inline_group_ok(init: &Option<String>, copy_into: &Option<String>, clear: &Option<String>) -> (r:
    bool)
    ensures
        r == inline_group_consistent(*init, *copy_into, *clear),
{
    (init.is_some() && copy_into.is_some() && clear.is_some()) || (init.is_none()
        && copy_into.is_none() && clear.is_none())
}

fn define_boxed_type_internal(
    w: &mut String,
    env: &Env,
    rust_name: &str,
    glib_name: &str,
    copy_fn: &TraitInfo,
    free_fn: &str,
    boxed_inline: bool,
    init_function_expression: &Option<String>,
    copy_into_function_expression: &Option<String>,
    clear_function_expression: &Option<String>,
    get_type_fn: Option<&str>,
    derive: &[Derive],
    visibility: Visibility,
)
    requires
        env.wf(),
    ensures
        final(w)@ == old(w)@ + boxed_block_text(
            env,
            rust_name@,
            glib_name@,
            *copy_fn,
            free_fn@,
            boxed_inline,
            *init_function_expression,
            *copy_into_function_expression,
            *clear_function_expression,
            opt_seq(get_type_fn),
            derive@,
            visibility,
        ),
{
    let sys = env.main_sys_crate_name();
    let mut s = String::new();
    write_wrapper_open(&mut s, env);
    assert(Seq::<char>::empty() + wrapper_open_text(env) =~= wrapper_open_text(env));
    derives(&mut s, derive, 1);
    let kind = if boxed_inline {
        "BoxedInline"
    } else {
        "Boxed"
    };
    write_struct_line(&mut s, visibility, rust_name, kind, sys, glib_name, "", "");
    write_match_open(&mut s);
    let arg = if copy_fn.first_parameter_mut {
        "mut_override(ptr)"
    } else {
        "ptr"
    };
    write_fn_line(&mut s, "copy", sys, copy_fn.glib_name.as_str(), arg);
    write_fn_line(&mut s, "free", sys, free_fn, "ptr");
    write_inline_fns(
        &mut s,
        init_function_expression,
        copy_into_function_expression,
        clear_function_expression,
    );
    write_opt_type_line(&mut s, sys, get_type_fn);
    write_match_close(&mut s);
    w.append(s.as_str());
}

/// Declares a boxed (copy/free) type. A registration function newer than
/// the baseline makes two declarations under complementary guards. A partly
/// given init / copy-into / clear group is refused and nothing is written.
pub fn define_boxed_type(
    w: &mut String,
    env: &Env,
    rust_name: &str,
    glib_name: &str,
    copy_fn: &TraitInfo,
    free_fn: &str,
    boxed_inline: bool,
    init_function_expression: &Option<String>,
    copy_into_function_expression: &Option<String>,
    clear_function_expression: &Option<String>,
    get_type_fn: Option<(String, Option<Version>)>,
    derive: &[Derive],
    visibility: Visibility,
) -> (r: Result<(), RenderError>)
    requires
        env.wf(),
    ensures
        inline_group_consistent(
            *init_function_expression,
            *copy_into_function_expression,
            *clear_function_expression,
        ) ==> r == Ok::<(), RenderError>(()) && final(w)@ == old(w)@ + boxed_text(
            env,
            rust_name@,
            glib_name@,
            *copy_fn,
            free_fn@,
            boxed_inline,
            *init_function_expression,
            *copy_into_function_expression,
            *clear_function_expression,
            get_type_view(get_type_fn),
            derive@,
            visibility,
        ),
        !inline_group_consistent(
            *init_function_expression,
            *copy_into_function_expression,
            *clear_function_expression,
        ) ==> r == Err::<(), RenderError>(RenderError::PartialInlineFunctions) && final(w)@ == old(
            w,
        )@,
{
    if !inline_group_ok(
        init_function_expression,
        copy_into_function_expression,
        clear_function_expression,
    ) {
        return Err(RenderError::PartialInlineFunctions);
    }
    let mut s = String::new();
    s.append("\n");
    assert(Seq::<char>::empty() + "\n"@ =~= "\n"@);
    match get_type_fn {
        Some((f, Some(v))) => {
            version_condition(&mut s, env, None, Some(v), false, 0);
            define_boxed_type_internal(
                &mut s,
                env,
                rust_name,
                glib_name,
                copy_fn,
                free_fn,
                boxed_inline,
                init_function_expression,
                copy_into_function_expression,
                clear_function_expression,
                Some(f.as_str()),
                derive,
                visibility,
            );
            s.append("\n");
            not_version_condition_no_dox(&mut s, env, None, Some(v), false, 0);
            define_boxed_type_internal(
                &mut s,
                env,
                rust_name,
                glib_name,
                copy_fn,
                free_fn,
                boxed_inline,
                init_function_expression,
                copy_into_function_expression,
                clear_function_expression,
                None,
                derive,
                visibility,
            );
        },
        Some((f, None)) => {
            define_boxed_type_internal(
                &mut s,
                env,
                rust_name,
                glib_name,
                copy_fn,
                free_fn,
                boxed_inline,
                init_function_expression,
                copy_into_function_expression,
                clear_function_expression,
                Some(f.as_str()),
                derive,
                visibility,
            );
        },
        None => {
            define_boxed_type_internal(
                &mut s,
                env,
                rust_name,
                glib_name,
                copy_fn,
                free_fn,
                boxed_inline,
                init_function_expression,
                copy_into_function_expression,
                clear_function_expression,
                None,
                derive,
                visibility,
            );
        },
    }
    w.append(s.as_str());
    Ok(())
}

/// The copy entry of an auto-boxed type: the library-wide boxed copy, keyed
/// by the type's runtime id.
pub open spec fn auto_copy_line_text(env: &Env, get_type_fn: Seq<char>, glib_name: Seq<char>) -> Seq<
    char,
> {
    "\t\tcopy => |ptr| "@ + env.glib_type("gobject_ffi::g_boxed_copy"@) + "("@ + env.main_sys()
        + "::"@ + get_type_fn + "(), ptr as *mut _) as *mut "@ + env.main_sys() + "::"@ + glib_name
        + ",\n"@
}

/// The free entry of an auto-boxed type: the library-wide boxed free, keyed
/// by the type's runtime id.
pub open spec fn auto_free_line_text(env: &Env, get_type_fn: Seq<char>) -> Seq<char> {
    "\t\tfree => |ptr| "@ + env.glib_type("gobject_ffi::g_boxed_free"@) + "("@ + env.main_sys()
        + "::"@ + get_type_fn + "(), ptr as *mut _),\n"@
}

pub open spec fn auto_boxed_text(
    env: &Env,
    rust_name: Seq<char>,
    glib_name: Seq<char>,
    boxed_inline: bool,
    init: Option<String>,
    copy_into: Option<String>,
    clear: Option<String>,
    get_type_fn: Seq<char>,
    derive: Seq<Derive>,
    vis: Visibility,
) -> Seq<char> {
    "\n"@ + wrapper_open_text(env) + derives_text(derive, 1) + struct_line_text(
        vis,
        rust_name,
        boxed_kind_text(boxed_inline),
        env.main_sys(),
        glib_name,
        ""@,
        ""@,
    ) + match_open_text() + auto_copy_line_text(env, get_type_fn, glib_name) + auto_free_line_text(
        env,
        get_type_fn,
    ) + inline_fns_text(init, copy_into, clear) + type_line_text(env.main_sys(), get_type_fn)
        + match_close_text()
}

fn auto_copy_line(env: &Env, get_type_fn: &str, glib_name: &str) -> (r: String)
    requires
        env.wf(),
    ensures
        r@ == auto_copy_line_text(env, get_type_fn@, glib_name@),
{
    let sys = env.main_sys_crate_name();
    let mut s = String::new();
    s.append("\t\tcopy => |ptr| ");
    assert(Seq::<char>::empty() + "\t\tcopy => |ptr| "@ =~= "\t\tcopy => |ptr| "@);
    env.write_glib_type(&mut s, "gobject_ffi::g_boxed_copy");
    s.append("(");
    s.append(sys);
    s.append("::");
    s.append(get_type_fn);
    s.append("(), ptr as *mut _) as *mut ");
    s.append(sys);
    s.append("::");
    s.append(glib_name);
    s.append(",\n");
    s
}

fn auto_free_line(env: &Env, get_type_fn: &str) -> (r: String)
    requires
        env.wf(),
    ensures
        r@ == auto_free_line_text(env, get_type_fn@),
{
    let sys = env.main_sys_crate_name();
    let mut s = String::new();
    s.append("\t\tfree => |ptr| ");
    assert(Seq::<char>::empty() + "\t\tfree => |ptr| "@ =~= "\t\tfree => |ptr| "@);
    env.write_glib_type(&mut s, "gobject_ffi::g_boxed_free");
    s.append("(");
    s.append(sys);
    s.append("::");
    s.append(get_type_fn);
    s.append("(), ptr as *mut _),\n");
    s
}

/// Declares a boxed type whose copy and free go through the library-wide
/// boxed functions, keyed by the runtime id that its registration function
/// returns. A partly given init / copy-into / clear group is refused and
/// nothing is written.
pub fn define_auto_boxed_type(
    w: &mut String,
    env: &Env,
    rust_name: &str,
    glib_name: &str,
    boxed_inline: bool,
    init_function_expression: &Option<String>,
    copy_into_function_expression: &Option<String>,
    clear_function_expression: &Option<String>,
    get_type_fn: &str,
    derive: &[Derive],
    visibility: Visibility,
) -> (r: Result<(), RenderError>)
    requires
        env.wf(),
    ensures
        inline_group_consistent(
            *init_function_expression,
            *copy_into_function_expression,
            *clear_function_expression,
        ) ==> r == Ok::<(), RenderError>(()) && final(w)@ == old(w)@ + auto_boxed_text(
            env,
            rust_name@,
            glib_name@,
            boxed_inline,
            *init_function_expression,
            *copy_into_function_expression,
            *clear_function_expression,
            get_type_fn@,
            derive@,
            visibility,
        ),
        !inline_group_consistent(
            *init_function_expression,
            *copy_into_function_expression,
            *clear_function_expression,
        ) ==> r == Err::<(), RenderError>(RenderError::PartialInlineFunctions) && final(w)@ == old(
            w,
        )@,
{
    if !inline_group_ok(
        init_function_expression,
        copy_into_function_expression,
        clear_function_expression,
    ) {
        return Err(RenderError::PartialInlineFunctions);
    }
    let sys = env.main_sys_crate_name();
    let mut s = String::new();
    s.append("\n");
    assert(Seq::<char>::empty() + "\n"@ =~= "\n"@);
    write_wrapper_open(&mut s, env);
    derives(&mut s, derive, 1);
    let kind = if boxed_inline {
        "BoxedInline"
    } else {
        "Boxed"
    };
    write_struct_line(&mut s, visibility, rust_name, kind, sys, glib_name, "", "");
    write_match_open(&mut s);
    let c = auto_copy_line(env, get_type_fn, glib_name);
    s.append(c.as_str());
    let f = auto_free_line(env, get_type_fn);
    s.append(f.as_str());
    write_inline_fns(
        &mut s,
        init_function_expression,
        copy_into_function_expression,
        clear_function_expression,
    );
    write_type_line(&mut s, sys, get_type_fn);
    write_match_close(&mut s);
    w.append(s.as_str());
    Ok(())
}

pub open spec fn shared_block_text(
    env: &Env,
    rust_name: Seq<char>,
    glib_name: Seq<char>,
    ref_fn: Seq<char>,
    unref_fn: Seq<char>,
    get_type_fn: Option<Seq<char>>,
    derive: Seq<Derive>,
    vis: Visibility,
) -> Seq<char> {
    wrapper_open_text(env) + derives_text(derive, 1) + struct_line_text(
        vis,
        rust_name,
        "Shared"@,
        env.main_sys(),
        glib_name,
        ""@,
        ""@,
    ) + match_open_text() + fn_line_text("ref"@, env.main_sys(), ref_fn, "ptr"@) + fn_line_text(
        "unref"@,
        env.main_sys(),
        unref_fn,
        "ptr"@,
    ) + opt_type_line_text(env.main_sys(), get_type_fn) + match_close_text()
}

/// A shared declaration. When the registration function is newer than the
/// type, the block is written twice: with the function under its version
/// guard, and without it under the complement of that guard.
pub open spec fn shared_text(
    env: &Env,
    rust_name: Seq<char>,
    glib_name: Seq<char>,
    ref_fn: Seq<char>,
    unref_fn: Seq<char>,
    get_type_fn: Option<(Seq<char>, Option<Version>)>,
    derive: Seq<Derive>,
    vis: Visibility,
) -> Seq<char> {
    match get_type_fn {
        Some((f, Some(v))) => "\n"@ + opt_line(version_condition_text(env, None, Some(v), false, 0))
            + shared_block_text(env, rust_name, glib_name, ref_fn, unref_fn, Some(f), derive, vis)
            + "\n"@ + not_version_text(env, None, v, false, 0).push('\n') + shared_block_text(
            env,
            rust_name,
            glib_name,
            ref_fn,
            unref_fn,
            None,
            derive,
            vis,
        ),
        Some((f, None)) => "\n"@ + shared_block_text(
            env,
            rust_name,
            glib_name,
            ref_fn,
            unref_fn,
            Some(f),
            derive,
            vis,
        ),
        None => "\n"@ + shared_block_text(
            env,
            rust_name,
            glib_name,
            ref_fn,
            unref_fn,
            None,
            derive,
            vis,
        ),
    }
}

fn define_shared_type_internal(
    w: &mut String,
    env: &Env,
    rust_name: &str,
    glib_name: &str,
    ref_fn: &str,
    unref_fn: &str,
    get_type_fn: Option<&str>,
    derive: &[Derive],
    visibility: Visibility,
)
    requires
        env.wf(),
    ensures
        final(w)@ == old(w)@ + shared_block_text(
            env,
            rust_name@,
            glib_name@,
            ref_fn@,
            unref_fn@,
            opt_seq(get_type_fn),
            derive@,
            visibility,
        ),
{
    let sys = env.main_sys_crate_name();
    let mut s = String::new();
    write_wrapper_open(&mut s, env);
    assert(Seq::<char>::empty() + wrapper_open_text(env) =~= wrapper_open_text(env));
    derives(&mut s, derive, 1);
    write_struct_line(&mut s, visibility, rust_name, "Shared", sys, glib_name, "", "");
    write_match_open(&mut s);
    write_fn_line(&mut s, "ref", sys, ref_fn, "ptr");
    write_fn_line(&mut s, "unref", sys, unref_fn, "ptr");
    write_opt_type_line(&mut s, sys, get_type_fn);
    write_match_close(&mut s);
    w.append(s.as_str());
}

/// Declares a shared (ref/unref) type. A registration function newer than
/// the baseline makes two declarations under complementary guards.
pub fn define_shared_type(
    w: &mut String,
    env: &Env,
    rust_name: &str,
    glib_name: &str,
    ref_fn: &str,
    unref_fn: &str,
    get_type_fn: Option<(String, Option<Version>)>,
    derive: &[Derive],
    visibility: Visibility,
)
    requires
        env.wf(),
    ensures
        final(w)@ == old(w)@ + shared_text(
            env,
            rust_name@,
            glib_name@,
            ref_fn@,
            unref_fn@,
            get_type_view(get_type_fn),
            derive@,
            visibility,
        ),
{
    let mut s = String::new();
    s.append("\n");
    assert(Seq::<char>::empty() + "\n"@ =~= "\n"@);
    match get_type_fn {
        Some((f, Some(v))) => {
            version_condition(&mut s, env, None, Some(v), false, 0);
            define_shared_type_internal(
                &mut s,
                env,
                rust_name,
                glib_name,
                ref_fn,
                unref_fn,
                Some(f.as_str()),
                derive,
                visibility,
            );
            s.append("\n");
            not_version_condition_no_dox(&mut s, env, None, Some(v), false, 0);
            define_shared_type_internal(
                &mut s,
                env,
                rust_name,
                glib_name,
                ref_fn,
                unref_fn,
                None,
                derive,
                visibility,
            );
        },
        Some((f, None)) => {
            define_shared_type_internal(
                &mut s,
                env,
                rust_name,
                glib_name,
                ref_fn,
                unref_fn,
                Some(f.as_str()),
                derive,
                visibility,
            );
        },
        None => {
            define_shared_type_internal(
                &mut s,
                env,
                rust_name,
                glib_name,
                ref_fn,
                unref_fn,
                None,
                derive,
                visibility,
            );
        },
    }
    w.append(s.as_str());
}

// ---- laws ----

/// A fundamental type passes over an active ancestor that cannot lend
/// lifetime functions and takes those of the next one that can, with the
/// pointer cast to that ancestor's foreign type in its own namespace.
pub proof fn lemma_lifetime_from_later_ancestor(
    env: &Env,
    a: StatusedTypeId,
    b: StatusedTypeId,
    ref_func: Option<Seq<char>>,
    unref_func: Option<Seq<char>>,
)
    requires
        a.is_active(),
        !supplies_lifetime(env, a),
        supplies_lifetime(env, b),
    ensures
        match env.lib_type(b.type_id) {
            LibType::Class { c_type, ref_fn: Some(r), unref_fn: Some(u) } => fundamental_lifetime(
                env,
                ref_func,
                unref_func,
                seq![a, b],
            ) == Some(
                (
                    env.sys_of(b.type_id.ns_id),
                    r@,
                    u@,
                    "ptr as *mut "@ + env.sys_of(b.type_id.ns_id) + "::"@ + c_type@,
                ),
            ),
            _ => false,
        },
{
    let ps = seq![a, b];
    assert(ps[0].is_active());
    assert(ps.drop_first() =~= seq![b]);
    assert(lifetime_source(env, seq![b]) == Some(b));
}

/// A root fundamental type without both ref and unref cannot be declared.
pub proof fn lemma_root_needs_lifetime(
    env: &Env,
    ref_func: Option<Seq<char>>,
    unref_func: Option<Seq<char>>,
)
    requires
        ref_func is None || unref_func is None,
    ensures
        fundamental_lifetime(env, ref_func, unref_func, Seq::empty()) is None,
{
}

/// The guard of a registration function newer than the baseline is
/// `#[cfg(X)]` with its documentation twin, and its complement is
/// `#[cfg(not(X))]`, for one predicate `X`.
pub proof fn lemma_complementary_guard_lines(env: &Env, v: Version)
    requires
        crate::version::newer_than_baseline(v, env.min_required(None)),
    ensures
        ({
            let c = crate::version::cfg_text(v, None);
            let x = "any("@ + c + ", feature = \"dox\")"@;
            &&& opt_line(version_condition_text(env, None, Some(v), false, 0)) == "#[cfg("@ + x
                + ")]\n"@ + crate::conditions::doc_text(c, false, 0) + "\n"@
            &&& not_version_text(env, None, v, false, 0).push('\n') == "#[cfg(not("@ + x + "))]\n"@
        }),
{
    let c = crate::version::cfg_text(v, None);
    reveal_strlit("#[cfg(any(");
    reveal_strlit("#[cfg(");
    reveal_strlit("any(");
    reveal_strlit(", feature = \"dox\"))]");
    reveal_strlit(", feature = \"dox\")");
    reveal_strlit(")]\n");
    reveal_strlit(")]");
    reveal_strlit("))]");
    reveal_strlit("\n");
    reveal_strlit("#[cfg(not(any(");
    reveal_strlit("#[cfg(not(");
    reveal_strlit(", feature = \"dox\")))]");
    reveal_strlit("))]\n");
    assert(crate::text::tabs(0) =~= Seq::<char>::empty());
    let x = "any("@ + c + ", feature = \"dox\")"@;
    assert("#[cfg(any("@ =~= "#[cfg("@ + "any("@);
    assert(", feature = \"dox\"))]"@ =~= ", feature = \"dox\")"@ + ")]"@);
    assert("#[cfg(not(any("@ =~= "#[cfg(not("@ + "any("@);
    assert(", feature = \"dox\")))]"@ =~= ", feature = \"dox\")"@ + "))]"@);
    assert(")]\n"@ =~= ")]"@.push('\n'));
    assert("))]\n"@ =~= "))]"@.push('\n'));
    assert("\n"@ =~= seq!['\n']);
    assert(crate::conditions::no_doc_text(c, false, 0) =~= "#[cfg("@ + x + ")]"@);
    assert(opt_line(version_condition_text(env, None, Some(v), false, 0)) =~= "#[cfg("@ + x + ")]\n"@
        + crate::conditions::doc_text(c, false, 0) + "\n"@);
    assert(not_version_text(env, None, v, false, 0).push('\n') =~= "#[cfg(not("@ + x + "))]\n"@);
}

/// When the registration function of a shared type is newer than the
/// baseline, the block with that function stands under `#[cfg(X)]` and the
/// block without it under `#[cfg(not(X))]`: under any configuration exactly
/// one of the two compiles.
pub proof fn lemma_shared_complementary(
    env: &Env,
    rust_name: Seq<char>,
    glib_name: Seq<char>,
    ref_fn: Seq<char>,
    unref_fn: Seq<char>,
    f: Seq<char>,
    v: Version,
    derive: Seq<Derive>,
    vis: Visibility,
)
    requires
        crate::version::newer_than_baseline(v, env.min_required(None)),
    ensures
        ({
            let x = "any("@ + crate::version::cfg_text(v, None) + ", feature = \"dox\")"@;
            shared_text(env, rust_name, glib_name, ref_fn, unref_fn, Some((f, Some(v))), derive, vis)
                == "\n"@ + ("#[cfg("@ + x + ")]\n"@ + crate::conditions::doc_text(
                crate::version::cfg_text(v, None),
                false,
                0,
            ) + "\n"@) + shared_block_text(env, rust_name, glib_name, ref_fn, unref_fn, Some(f), derive, vis)
                + "\n"@ + ("#[cfg(not("@ + x + "))]\n"@) + shared_block_text(
                env,
                rust_name,
                glib_name,
                ref_fn,
                unref_fn,
                None,
                derive,
                vis,
            )
        }),
{
    lemma_complementary_guard_lines(env, v);
}

/// When the registration function of a boxed type is newer than the
/// baseline, the block with that function stands under `#[cfg(X)]` and the
/// block without it under `#[cfg(not(X))]`: under any configuration exactly
/// one of the two compiles.
pub proof fn lemma_boxed_complementary(
    env: &Env,
    rust_name: Seq<char>,
    glib_name: Seq<char>,
    copy_fn: TraitInfo,
    free_fn: Seq<char>,
    boxed_inline: bool,
    init: Option<String>,
    copy_into: Option<String>,
    clear: Option<String>,
    f: Seq<char>,
    v: Version,
    derive: Seq<Derive>,
    vis: Visibility,
)
    requires
        crate::version::newer_than_baseline(v, env.min_required(None)),
    ensures
        ({
            let x = "any("@ + crate::version::cfg_text(v, None) + ", feature = \"dox\")"@;
            boxed_text(
                env,
                rust_name,
                glib_name,
                copy_fn,
                free_fn,
                boxed_inline,
                init,
                copy_into,
                clear,
                Some((f, Some(v))),
                derive,
                vis,
            ) == "\n"@ + ("#[cfg("@ + x + ")]\n"@ + crate::conditions::doc_text(
                crate::version::cfg_text(v, None),
                false,
                0,
            ) + "\n"@) + boxed_block_text(
                env,
                rust_name,
                glib_name,
                copy_fn,
                free_fn,
                boxed_inline,
                init,
                copy_into,
                clear,
                Some(f),
                derive,
                vis,
            ) + "\n"@ + ("#[cfg(not("@ + x + "))]\n"@) + boxed_block_text(
                env,
                rust_name,
                glib_name,
                copy_fn,
                free_fn,
                boxed_inline,
                init,
                copy_into,
                clear,
                None,
                derive,
                vis,
            )
        }),
{
    lemma_complementary_guard_lines(env, v);
}

} // verus!
