//! Aggregation of import requests into grouped, guarded `use` lines.
use vstd::prelude::*;
use vstd::string::*;
use crate::order::{
    cmp_str, cmp_strs, insert_str, lemma_char_order, lemma_insert_sorted,
    lemma_lex_irreflexive, lemma_lex_total, lemma_lex_transitive, lemma_str_orders, sorted,
    str_lt, str_order, strict_total, strs_lt, char_order,
};
use crate::conditions::{version_condition, version_condition_text};
use crate::text::{join, opt_line, views, write_joined};
use crate::env::{Env, RenderError};
use crate::version::{guard_of, resolve_guard, version_gt, Version};

verus! {

/// A version bound and a set of feature predicates under which an import
/// is needed.
pub struct ImportConditions {
    pub version: Option<Version>,
    pub constraints: Vec<String>,
}

/// A request to import `name`, written `crate::Symbol`, under `scope`.
pub struct ImportRequest {
    pub name: String,
    pub scope: ImportConditions,
}

/// Imports of one crate under one scope; `scope` is `None` for ungated
/// imports.
pub struct ImportGroup {
    pub crate_name: String,
    pub scope: Option<ImportConditions>,
    pub names: Vec<String>,
}

/// A scope as compared: its version bound and its sorted constraints.
pub type ScopeKey = Option<(Option<Version>, Seq<Seq<char>>)>;

/// What imports are grouped by: the crate and the scope.
pub type GroupKey = (Seq<char>, ScopeKey);

/// A group as emitted: its key and its sorted names.
pub type GroupView = (GroupKey, Seq<Seq<char>>);

pub open spec fn opt_version_lt(a: Option<Version>, b: Option<Version>) -> bool {
    match (a, b) {
        (None, Some(_)) => true,
        (Some(x), Some(y)) => version_gt(y, x),
        _ => false,
    }
}

/// Ungated first, then by version bound, then by constraints.
pub open spec fn scope_lt(a: ScopeKey, b: ScopeKey) -> bool {
    match (a, b) {
        (None, Some(_)) => true,
        (Some(x), Some(y)) => opt_version_lt(x.0, y.0) || (x.0 == y.0 && strs_lt(x.1, y.1)),
        _ => false,
    }
}

/// Lexical by crate, then by scope.
pub open spec fn key_lt(a: GroupKey, b: GroupKey) -> bool {
    str_lt(a.0, b.0) || (a.0 == b.0 && scope_lt(a.1, b.1))
}

pub open spec fn key_order() -> spec_fn(GroupKey, GroupKey) -> bool {
    |a: GroupKey, b: GroupKey| key_lt(a, b)
}

pub open spec fn scope_view(s: Option<ImportConditions>) -> ScopeKey {
    match s {
        Some(c) => Some((c.version, views(c.constraints@))),
        None => None,
    }
}

pub open spec fn group_view(g: ImportGroup) -> GroupView {
    ((g.crate_name@, scope_view(g.scope)), views(g.names@))
}

pub open spec fn groups_view(gs: Seq<ImportGroup>) -> Seq<GroupView> {
    gs.map_values(|g: ImportGroup| group_view(g))
}

pub open spec fn group_keys(gs: Seq<GroupView>) -> Seq<GroupKey> {
    gs.map_values(|g: GroupView| g.0)
}

/// Groups in strictly increasing key order, each with a non-empty, strictly
/// increasing list of names.
pub open spec fn groups_wf(gs: Seq<GroupView>) -> bool {
    &&& sorted(group_keys(gs), key_order())
    &&& forall|i: int| 0 <= i < gs.len() ==> sorted(#[trigger] gs[i].1, str_order()) && gs[i].1.len() > 0
}

/// Whether some group has key `k` and lists `x`.
pub open spec fn groups_hold(gs: Seq<GroupView>, k: GroupKey, x: Seq<char>) -> bool {
    exists|i: int| 0 <= i < gs.len() && (#[trigger] gs[i]).0 == k && gs[i].1.contains(x)
}

proof fn lemma_key_order()
    ensures
        strict_total(key_order()),
{
    lemma_char_order();
    lemma_str_orders();
    let l = key_order();
    assert forall|x: GroupKey| !(#[trigger] l(x, x)) by {
        lemma_lex_irreflexive(x.0, char_order());
        if let Some(s) = x.1 {
            lemma_lex_irreflexive(s.1, str_order());
        }
    }
    assert forall|x: GroupKey, y: GroupKey| x != y implies #[trigger] l(x, y) || l(y, x) by {
        if x.0 != y.0 {
            lemma_lex_total(x.0, y.0, char_order());
        } else {
            match (x.1, y.1) {
                (Some(a), Some(b)) => {
                    if a.0 == b.0 {
                        assert(a.1 != b.1);
                        lemma_lex_total(a.1, b.1, str_order());
                    }
                },
                _ => {},
            }
        }
    }
    assert forall|x: GroupKey, y: GroupKey, z: GroupKey| #[trigger] l(x, y) && #[trigger] l(y, z) implies l(
        x,
        z,
    ) by {
        if str_lt(x.0, y.0) && str_lt(y.0, z.0) {
            lemma_lex_transitive(x.0, y.0, z.0, char_order());
        } else if x.0 == y.0 && y.0 == z.0 {
            match (x.1, y.1, z.1) {
                (Some(a), Some(b), Some(c)) => {
                    if strs_lt(a.1, b.1) && strs_lt(b.1, c.1) {
                        lemma_lex_transitive(a.1, b.1, c.1, str_order());
                    }
                },
                _ => {},
            }
        }
    }
}

fn cmp_opt_version(a: Option<Version>, b: Option<Version>) -> (r: i8)
    ensures
        r < 0 <==> opt_version_lt(a, b),
        r == 0 <==> a == b,
        r > 0 <==> opt_version_lt(b, a),
{
    match (a, b) {
        (None, None) => 0,
        (None, Some(_)) => -1,
        (Some(_), None) => 1,
        (Some(x), Some(y)) => if y.is_newer_than(&x) {
            -1
        } else if x.is_newer_than(&y) {
            1
        } else {
            0
        },
    }
}

fn cmp_scope(a: &Option<ImportConditions>, b: &Option<ImportConditions>) -> (r: i8)
    ensures
        r < 0 <==> scope_lt(scope_view(*a), scope_view(*b)),
        r == 0 <==> scope_view(*a) == scope_view(*b),
        r > 0 <==> scope_lt(scope_view(*b), scope_view(*a)),
{
    match (a, b) {
        (None, None) => 0,
        (None, Some(_)) => -1,
        (Some(_), None) => 1,
        (Some(x), Some(y)) => {
            let c = cmp_opt_version(x.version, y.version);
            if c != 0 {
                c
            } else {
                cmp_strs(x.constraints.as_slice(), y.constraints.as_slice())
            }
        },
    }
}

fn cmp_key(
    crate_a: &str,
    scope_a: &Option<ImportConditions>,
    crate_b: &str,
    scope_b: &Option<ImportConditions>,
) -> (r: i8)
    ensures
        r < 0 <==> key_lt((crate_a@, scope_view(*scope_a)), (crate_b@, scope_view(*scope_b))),
        r == 0 <==> (crate_a@, scope_view(*scope_a)) == (crate_b@, scope_view(*scope_b)),
        r > 0 <==> key_lt((crate_b@, scope_view(*scope_b)), (crate_a@, scope_view(*scope_a))),
{
    let c = cmp_str(crate_a, crate_b);
    let r = if c != 0 {
        c
    } else {
        cmp_scope(scope_a, scope_b)
    };
    proof {
        lemma_key_order();
        let ka = (crate_a@, scope_view(*scope_a));
        let kb = (crate_b@, scope_view(*scope_b));
        if ka == kb {
            assert(!key_lt(ka, ka));
        }
    }
    r
}

/// Adds one import to the groups: into the group of its key when there is
/// one, else into a new group at its place in key order.
fn add_import(groups: &mut Vec<ImportGroup>, krate: String, scope: Option<ImportConditions>, sym: String)
    requires
        groups_wf(groups_view(old(groups)@)),
    ensures
        groups_wf(groups_view(final(groups)@)),
        groups_hold(groups_view(final(groups)@), (krate@, scope_view(scope)), sym@),
        forall|k: GroupKey, x: Seq<char>| #[trigger]
            groups_hold(groups_view(old(groups)@), k, x) ==> groups_hold(
                groups_view(final(groups)@),
                k,
                x,
            ),
        forall|i: int, x: Seq<char>|
            0 <= i < groups_view(final(groups)@).len() && #[trigger] groups_view(
                final(groups)@,
            )[i].1.contains(x) ==> groups_hold(
                groups_view(old(groups)@),
                groups_view(final(groups)@)[i].0,
                x,
            ) || (groups_view(final(groups)@)[i].0 == (krate@, scope_view(scope)) && x == sym@),
{
    let ghost gv = groups_view(groups@);
    let ghost keys = group_keys(gv);
    let ghost k = (krate@, scope_view(scope));
    let ghost sv = sym@;
    proof {
        lemma_key_order();
        lemma_str_orders();
    }
    let mut j: usize = 0;
    let mut c: i8 = -1;
    while j < groups.len()
        invariant
            gv == groups_view(groups@),
            keys == group_keys(gv),
            k == (krate@, scope_view(scope)),
            j <= groups@.len(),
            forall|m: int| 0 <= m < j ==> key_lt(#[trigger] keys[m], k),
        ensures
            j <= groups@.len(),
            forall|m: int| 0 <= m < j ==> key_lt(#[trigger] keys[m], k),
            j < groups@.len() ==> (c < 0 <==> key_lt(keys[j as int], k)) && (c == 0 <==> keys[j as int]
                == k) && (c > 0 <==> key_lt(k, keys[j as int])) && c >= 0,
        decreases groups@.len() - j,
    {
        let gj = &groups[j];
        c = cmp_key(gj.crate_name.as_str(), &gj.scope, krate.as_str(), &scope);
        assert(gv[j as int] == group_view(groups@[j as int]));
        assert(keys[j as int] == gv[j as int].0);
        assert(keys[j as int] == (gj.crate_name@, scope_view(gj.scope)));
        assert(c < 0 <==> key_lt(keys[j as int], k));
        if c >= 0 {
            break;
        }
        j = j + 1;
    }
    if j < groups.len() && c == 0 {
        let mut g = groups.remove(j);
        let ghost old_names = views(g.names@);
        assert(gv[j as int] == group_view(g));
        assert(sorted(gv[j as int].1, str_order()));
        insert_str(&mut g.names, sym);
        groups.insert(j, g);
        proof {
            let nv = groups_view(groups@);
            let ng = group_view(g);
            assert(nv =~= gv.update(j as int, ng));
            assert(ng.0 == gv[j as int].0);
            assert(group_keys(nv) =~= keys);
            assert(ng.1.contains(sv));
            assert(nv[j as int] == ng);
            assert forall|kk: GroupKey, x: Seq<char>| #[trigger] groups_hold(gv, kk, x) implies groups_hold(
                nv,
                kk,
                x,
            ) by {
                let i = choose|i: int| 0 <= i < gv.len() && (#[trigger] gv[i]).0 == kk && gv[i].1.contains(x);
                if i == j {
                    assert(gv[i].1 == old_names);
                    assert(nv[i].1.contains(x));
                } else {
                    assert(nv[i] == gv[i]);
                }
            }
            assert forall|i: int, x: Seq<char>|
                0 <= i < nv.len() && #[trigger] nv[i].1.contains(x) implies groups_hold(gv, nv[i].0, x)
                || (nv[i].0 == k && x == sv) by {
                if i == j {
                    if x != sv {
                        assert(old_names.contains(x));
                        assert(gv[i].1 == old_names);
                        assert(gv[i].0 == nv[i].0);
                    }
                } else {
                    assert(nv[i] == gv[i]);
                }
            }
            assert(groups_wf(nv)) by {
                assert forall|i: int| 0 <= i < nv.len() implies sorted(#[trigger] nv[i].1, str_order())
                    && nv[i].1.len() > 0 by {
                    if i != j {
                        assert(nv[i] == gv[i]);
                    }
                }
            }
        }
    } else {
        let mut names: Vec<String> = Vec::new();
        names.push(sym);
        let g = ImportGroup { crate_name: krate, scope, names };
        groups.insert(j, g);
        proof {
            let nv = groups_view(groups@);
            let ng = group_view(g);
            assert(ng.1 =~= seq![sv]);
            assert(ng.0 == k);
            assert(nv =~= gv.insert(j as int, ng));
            assert(group_keys(nv) =~= keys.insert(j as int, k));
            if (j as int) < keys.len() {
                assert(key_order()(k, keys[j as int]));
            }
            assert forall|m: int| 0 <= m < j implies key_order()(#[trigger] keys[m], k) by {}
            lemma_insert_sorted(keys, j as int, k, key_order());
            assert(nv[j as int] == ng);
            assert(ng.1[0] == sv);
            assert(ng.1.contains(sv));
            assert forall|kk: GroupKey, x: Seq<char>| #[trigger] groups_hold(gv, kk, x) implies groups_hold(
                nv,
                kk,
                x,
            ) by {
                let i = choose|i: int| 0 <= i < gv.len() && (#[trigger] gv[i]).0 == kk && gv[i].1.contains(x);
                if i < j {
                    assert(nv[i] == gv[i]);
                } else {
                    assert(nv[i + 1] == gv[i]);
                }
            }
            assert forall|i: int, x: Seq<char>|
                0 <= i < nv.len() && #[trigger] nv[i].1.contains(x) implies groups_hold(gv, nv[i].0, x)
                || (nv[i].0 == k && x == sv) by {
                if i < j {
                    assert(nv[i] == gv[i]);
                } else if i > j {
                    assert(nv[i] == gv[i - 1]);
                } else {
                    let t = choose|t: int| 0 <= t < ng.1.len() && ng.1[t] == x;
                    assert(t == 0);
                }
            }
            assert(groups_wf(nv)) by {
                assert forall|i: int| 0 <= i < nv.len() implies sorted(#[trigger] nv[i].1, str_order())
                    && nv[i].1.len() > 0 by {
                    if i < j {
                        assert(nv[i] == gv[i]);
                    } else if i > j {
                        assert(nv[i] == gv[i - 1]);
                    }
                }
            }
        }
    }
}

// ---- requests ----

pub open spec fn is_sep_at(s: Seq<char>, i: int) -> bool {
    0 <= i && i + 1 < s.len() && s[i] == ':' && s[i + 1] == ':'
}

/// `i` is where the first `::` of `s` stands.
pub open spec fn first_sep(s: Seq<char>, i: int) -> bool {
    is_sep_at(s, i) && forall|j: int| 0 <= j < i ==> !is_sep_at(s, j)
}

/// A qualified name split at its first `::` into crate and symbol; `None`
/// when it has no separator.
pub open spec fn split_name(s: Seq<char>) -> Option<(Seq<char>, Seq<char>)> {
    if exists|i: int| is_sep_at(s, i) {
        let i = choose|i: int| first_sep(s, i);
        Some((s.subrange(0, i), s.subrange(i + 2, s.len() as int)))
    } else {
        None
    }
}

/// The sorted set of the constraints.
pub open spec fn constraint_set(src: Seq<Seq<char>>) -> Seq<Seq<char>> {
    choose|s: Seq<Seq<char>>| crate::order::sorted_set_of(s, src, str_order())
}

/// A version bound kept only where it is stricter than both the enclosing
/// bound and the baseline of the main namespace.
pub open spec fn normalized_version(env: &Env, v: Option<Version>, outer: Option<Version>) -> Option<
    Version,
> {
    guard_of(guard_of(v, outer), env.min_required(None))
}

/// The group of a request: its crate and its normalised scope, with no
/// scope at all when neither a version bound nor a constraint is left.
pub open spec fn request_key(env: &Env, outer: Option<Version>, r: ImportRequest) -> GroupKey {
    let v = normalized_version(env, r.scope.version, outer);
    let cs = constraint_set(views(r.scope.constraints@));
    let parts = split_name(r.name@)->0;
    (
        parts.0,
        if v is None && cs.len() == 0 {
            None
        } else {
            Some((v, cs))
        },
    )
}

pub open spec fn request_symbol(r: ImportRequest) -> Seq<char> {
    let parts = split_name(r.name@)->0;
    parts.1
}

pub open spec fn all_qualified(reqs: Seq<ImportRequest>) -> bool {
    forall|i: int| 0 <= i < reqs.len() ==> (#[trigger] split_name(reqs[i].name@)) is Some
}

/// `gs` groups the first `n` requests: well formed, every request listed in
/// the group of its key, and nothing listed that no request asked for.
pub open spec fn aggregated_upto(
    env: &Env,
    outer: Option<Version>,
    reqs: Seq<ImportRequest>,
    n: int,
    gs: Seq<GroupView>,
) -> bool {
    &&& groups_wf(gs)
    &&& forall|m: int|
        0 <= m < n ==> #[trigger] groups_hold(gs, request_key(env, outer, reqs[m]), request_symbol(reqs[m]))
    &&& forall|i: int, x: Seq<char>|
        0 <= i < gs.len() && #[trigger] gs[i].1.contains(x) ==> exists|m: int|
            0 <= m < n && request_key(env, outer, #[trigger] reqs[m]) == gs[i].0 && request_symbol(reqs[m])
                == x
}

/// `gs` is the grouping of all the requests.
pub open spec fn aggregated(env: &Env, outer: Option<Version>, reqs: Seq<ImportRequest>, gs: Seq<GroupView>) -> bool {
    aggregated_upto(env, outer, reqs, reqs.len() as int, gs)
}

/// Splits a qualified name at its first `::`.
pub fn split_import_name(name: &str) -> (r: Option<(String, String)>)
    ensures
        match r {
            Some((c, s)) => split_name(name@) == Some((c@, s@)),
            None => split_name(name@) is None,
        },
{
    let n = name.unicode_len();
    let mut i: usize = 0;
    while i < n && i + 1 < n
        invariant
            n == name@.len(),
            i <= n,
            forall|j: int| 0 <= j < i ==> !is_sep_at(name@, j),
        decreases n - i,
    {
        if name.get_char(i) == ':' && name.get_char(i + 1) == ':' {
            proof {
                assert(first_sep(name@, i as int));
                let c = choose|c: int| first_sep(name@, c);
                assert(c == i as int) by {
                    if c < i {
                        assert(!is_sep_at(name@, c));
                    } else if c > i {
                        assert(!is_sep_at(name@, i as int));
                    }
                }
            }
            let c = name.substring_char(0, i).to_owned();
            let s = name.substring_char(i + 2, n).to_owned();
            return Some((c, s));
        }
        i = i + 1;
    }
    proof {
        assert forall|j: int| !is_sep_at(name@, j) by {
            if 0 <= j < i {
            }
        }
    }
    None
}

proof fn lemma_constraint_set(s: Seq<Seq<char>>, src: Seq<Seq<char>>)
    requires
        crate::order::sorted_set_of(s, src, str_order()),
    ensures
        constraint_set(src) == s,
{
    lemma_str_orders();
    let c = constraint_set(src);
    crate::order::lemma_sorted_unique(c, s, str_order());
}

/// The constraints as a sorted set.
pub fn normalize_constraints(cs: &Vec<String>) -> (r: Vec<String>)
    ensures
        views(r@) == constraint_set(views(cs@)),
{
    let mut r: Vec<String> = Vec::new();
    let ghost src = views(cs@);
    let mut i: usize = 0;
    while i < cs.len()
        invariant
            src == views(cs@),
            i <= cs@.len(),
            sorted(views(r@), str_order()),
            forall|x: Seq<char>| #[trigger] views(r@).contains(x) <==> src.subrange(0, i as int).contains(x),
        decreases cs@.len() - i,
    {
        insert_str(&mut r, cs[i].clone());
        proof {
            assert forall|x: Seq<char>| #[trigger] views(r@).contains(x) <==> src.subrange(0, i + 1).contains(x) by {
                let p = src.subrange(0, i + 1);
                assert(p =~= src.subrange(0, i as int).push(src[i as int]));
                if p.contains(x) {
                    let k = choose|k: int| 0 <= k < p.len() && p[k] == x;
                    if k < i {
                        assert(src.subrange(0, i as int)[k] == x);
                    }
                }
                if src.subrange(0, i as int).contains(x) {
                    let k = choose|k: int| 0 <= k < i && src.subrange(0, i as int)[k] == x;
                    assert(p[k] == x);
                }
                if x == src[i as int] {
                    assert(p[i as int] == x);
                }
            }
        }
        i = i + 1;
    }
    proof {
        assert(src.subrange(0, cs@.len() as int) =~= src);
        lemma_constraint_set(views(r@), src);
    }
    r
}

/// Groups import requests by crate and normalised scope, with the names of
/// each group deduplicated and sorted, and the groups in key order. A
/// request without a namespace separator is refused.
pub fn aggregate_imports(env: &Env, imports: &[ImportRequest], outer_version: Option<Version>) -> (r:
    Result<Vec<ImportGroup>, RenderError>)
    requires
        env.wf(),
    ensures
        match r {
            Ok(gs) => all_qualified(imports@) && aggregated(env, outer_version, imports@, groups_view(gs@)),
            Err(e) => !all_qualified(imports@) && e == RenderError::UnqualifiedImport,
        },
{
    let mut groups: Vec<ImportGroup> = Vec::new();
    let min = env.min_required_version(None);
    let mut i: usize = 0;
    proof {
        assert(groups_view(groups@) =~= Seq::<GroupView>::empty());
        assert(group_keys(groups_view(groups@)) =~= Seq::<GroupKey>::empty());
    }
    while i < imports.len()
        invariant
            env.wf(),
            min == env.min_required(None),
            i <= imports@.len(),
            forall|m: int| 0 <= m < i ==> (#[trigger] split_name(imports@[m].name@)) is Some,
            aggregated_upto(env, outer_version, imports@, i as int, groups_view(groups@)),
        decreases imports@.len() - i,
    {
        let req = &imports[i];
        let (krate, sym) = match split_import_name(req.name.as_str()) {
            Some(p) => p,
            None => {
                assert(split_name(imports@[i as int].name@) is None);
                return Err(RenderError::UnqualifiedImport);
            },
        };
        let v = resolve_guard(resolve_guard(req.scope.version, outer_version), min);
        let cs = normalize_constraints(&req.scope.constraints);
        let scope = if v.is_none() && cs.len() == 0 {
            None
        } else {
            Some(ImportConditions { version: v, constraints: cs })
        };
        let ghost old_gv = groups_view(groups@);
        let ghost k = (krate@, scope_view(scope));
        let ghost x = sym@;
        assert(k == request_key(env, outer_version, imports@[i as int]));
        assert(x == request_symbol(imports@[i as int]));
        add_import(&mut groups, krate, scope, sym);
        proof {
            let nv = groups_view(groups@);
            let reqs = imports@;
            assert forall|m: int| 0 <= m < i + 1 implies #[trigger] groups_hold(
                nv,
                request_key(env, outer_version, reqs[m]),
                request_symbol(reqs[m]),
            ) by {
                if m < i {
                    assert(groups_hold(
                        old_gv,
                        request_key(env, outer_version, reqs[m]),
                        request_symbol(reqs[m]),
                    ));
                }
            }
            assert forall|j: int, y: Seq<char>| 0 <= j < nv.len() && #[trigger] nv[j].1.contains(y) implies exists|m: int|
                0 <= m < i + 1 && request_key(env, outer_version, #[trigger] reqs[m]) == nv[j].0
                    && request_symbol(reqs[m]) == y by {
                if groups_hold(old_gv, nv[j].0, y) {
                    let t = choose|t: int| 0 <= t < old_gv.len() && (#[trigger] old_gv[t]).0 == nv[j].0
                        && old_gv[t].1.contains(y);
                    assert(old_gv[t].1.contains(y));
                    let m = choose|m: int|
                        0 <= m < i && request_key(env, outer_version, #[trigger] reqs[m]) == old_gv[t].0
                            && request_symbol(reqs[m]) == y;
                    assert(request_key(env, outer_version, reqs[m]) == nv[j].0);
                } else {
                    assert(nv[j].0 == k && y == x);
                    assert(request_key(env, outer_version, reqs[i as int]) == nv[j].0);
                }
            }
        }
        i = i + 1;
    }
    Ok(groups)
}

// ---- rendering ----

/// The guards of a gated group: its feature constraints as a compile guard
/// and its documentation twin, then its version guard, if any.
pub open spec fn scope_guard_text(env: &Env, scope: ScopeKey) -> Seq<char> {
    match scope {
        Some((v, cs)) => (if cs.len() > 0 {
            "#[cfg(any("@ + join(cs, ", "@) + ",feature = \"dox\"))]\n"@
                + "#[cfg_attr(feature = \"dox\", doc(cfg("@ + join(cs, ", "@) + ")))]\n"@
        } else {
            Seq::empty()
        }) + opt_line(version_condition_text(env, None, v, false, 0)),
        None => Seq::empty(),
    }
}

/// A group: its guards, then one `use` line listing all its names.
pub open spec fn group_text(env: &Env, g: GroupView) -> Seq<char> {
    scope_guard_text(env, g.0.1) + "use "@ + g.0.0 + "::{"@ + join(g.1, ","@) + "};\n"@
}

pub open spec fn groups_text(env: &Env, gs: Seq<GroupView>) -> Seq<char>
    decreases gs.len(),
{
    if gs.len() == 0 {
        Seq::empty()
    } else {
        groups_text(env, gs.drop_last()) + group_text(env, gs.last())
    }
}

fn write_import_group(w: &mut String, env: &Env, g: &ImportGroup)
    requires
        env.wf(),
    ensures
        final(w)@ == old(w)@ + group_text(env, group_view(*g)),
{
    let ghost w0 = w@;
    if let Some(scope) = &g.scope {
        if scope.constraints.len() > 0 {
            w.append("#[cfg(any(");
            write_joined(w, scope.constraints.as_slice(), ", ");
            w.append(",feature = \"dox\"))]\n");
            w.append("#[cfg_attr(feature = \"dox\", doc(cfg(");
            write_joined(w, scope.constraints.as_slice(), ", ");
            w.append(")))]\n");
        }
        version_condition(w, env, None, scope.version, false, 0);
    }
    let ghost w1 = w@;
    assert(w1 =~= w0 + scope_guard_text(env, scope_view(g.scope)));
    w.append("use ");
    w.append(g.crate_name.as_str());
    w.append("::{");
    write_joined(w, g.names.as_slice(), ",");
    w.append("};\n");
    assert(w@ =~= w0 + group_text(env, group_view(*g)));
}

/// Writes the import block: an empty line, then each group with its guards
/// and its `use` line, groups in key order. Nothing is written when a
/// request has no namespace separator.
pub fn uses(w: &mut String, env: &Env, imports: &[ImportRequest], outer_version: Option<Version>) -> (r:
    Result<(), RenderError>)
    requires
        env.wf(),
    ensures
        r is Ok <==> all_qualified(imports@),
        r is Ok ==> exists|gs: Seq<GroupView>| aggregated(env, outer_version, imports@, gs),
        r is Ok ==> forall|gs: Seq<GroupView>|
            aggregated(env, outer_version, imports@, gs) ==> final(w)@ == old(w)@ + "\n"@
                + #[trigger] groups_text(env, gs),
        r is Err ==> r == Err::<(), RenderError>(RenderError::UnqualifiedImport) && final(w)@ == old(
            w,
        )@,
{
    let groups = match aggregate_imports(env, imports, outer_version) {
        Ok(gs) => gs,
        Err(e) => return Err(e),
    };
    let ghost w0 = w@;
    let ghost gv = groups_view(groups@);
    w.append("\n");
    let mut i: usize = 0;
    while i < groups.len()
        invariant
            env.wf(),
            gv == groups_view(groups@),
            i <= groups@.len(),
            w@ == w0 + "\n"@ + groups_text(env, gv.subrange(0, i as int)),
        decreases groups@.len() - i,
    {
        write_import_group(w, env, &groups[i]);
        proof {
            let p = gv.subrange(0, i + 1);
            assert(p.drop_last() =~= gv.subrange(0, i as int));
            assert(p.last() == group_view(groups@[i as int]));
        }
        i = i + 1;
        assert(w@ =~= w0 + "\n"@ + groups_text(env, gv.subrange(0, i as int)));
    }
    assert(gv.subrange(0, groups@.len() as int) =~= gv);
    proof {
        assert forall|gs: Seq<GroupView>| aggregated(env, outer_version, imports@, gs) implies w@ == w0
            + "\n"@ + #[trigger] groups_text(env, gs) by {
            lemma_aggregation_unique(env, outer_version, imports@, gs, gv);
        }
    }
    Ok(())
}

// ---- laws ----

proof fn lemma_keys_distinct(gs: Seq<GroupView>, i: int, j: int)
    requires
        groups_wf(gs),
        0 <= i < gs.len(),
        0 <= j < gs.len(),
        gs[i].0 == gs[j].0,
    ensures
        i == j,
{
    lemma_key_order();
    let keys = group_keys(gs);
    assert(keys[i] == gs[i].0 && keys[j] == gs[j].0);
    if i < j {
        assert(key_order()(keys[i], keys[j]) && keys[j] == keys[j]);
        assert(key_order()(keys[i], keys[i]));
    } else if j < i {
        assert(key_order()(keys[j], keys[i]) && keys[i] == keys[i]);
        assert(key_order()(keys[j], keys[j]));
    }
}

proof fn lemma_keys_included(
    env: &Env,
    outer: Option<Version>,
    reqs: Seq<ImportRequest>,
    a: Seq<GroupView>,
    b: Seq<GroupView>,
)
    requires
        aggregated(env, outer, reqs, a),
        aggregated(env, outer, reqs, b),
    ensures
        forall|k: GroupKey| group_keys(a).contains(k) ==> group_keys(b).contains(k),
        forall|i: int, j: int, x: Seq<char>|
            0 <= i < a.len() && 0 <= j < b.len() && a[i].0 == b[j].0 && #[trigger] a[i].1.contains(x)
                ==> #[trigger] b[j].1.contains(x),
{
    assert forall|k: GroupKey| group_keys(a).contains(k) implies group_keys(b).contains(k) by {
        let i = choose|i: int| 0 <= i < group_keys(a).len() && group_keys(a)[i] == k;
        assert(a[i].0 == k);
        assert(a[i].1.contains(a[i].1[0]));
        let m = choose|m: int|
            0 <= m < reqs.len() && request_key(env, outer, #[trigger] reqs[m]) == a[i].0 && request_symbol(reqs[m])
                == a[i].1[0];
        assert(groups_hold(b, request_key(env, outer, reqs[m]), request_symbol(reqs[m])));
        let j = choose|j: int| 0 <= j < b.len() && (#[trigger] b[j]).0 == k && b[j].1.contains(a[i].1[0]);
        assert(group_keys(b)[j] == k);
    }
    assert forall|i: int, j: int, x: Seq<char>|
        0 <= i < a.len() && 0 <= j < b.len() && a[i].0 == b[j].0 && #[trigger] a[i].1.contains(x) implies #[trigger] b[j].1.contains(x) by {
        let m = choose|m: int|
            0 <= m < reqs.len() && request_key(env, outer, #[trigger] reqs[m]) == a[i].0 && request_symbol(reqs[m]) == x;
        assert(groups_hold(b, request_key(env, outer, reqs[m]), request_symbol(reqs[m])));
        let t = choose|t: int| 0 <= t < b.len() && (#[trigger] b[t]).0 == a[i].0 && b[t].1.contains(x);
        lemma_keys_distinct(b, t, j);
    }
}

/// The grouping of a set of requests is unique: two groupings of the same
/// requests are equal.
pub proof fn lemma_aggregation_unique(
    env: &Env,
    outer: Option<Version>,
    reqs: Seq<ImportRequest>,
    a: Seq<GroupView>,
    b: Seq<GroupView>,
)
    requires
        aggregated(env, outer, reqs, a),
        aggregated(env, outer, reqs, b),
    ensures
        a == b,
{
    lemma_key_order();
    lemma_str_orders();
    lemma_keys_included(env, outer, reqs, a, b);
    lemma_keys_included(env, outer, reqs, b, a);
    crate::order::lemma_sorted_unique(group_keys(a), group_keys(b), key_order());
    assert(a.len() == group_keys(a).len() && b.len() == group_keys(b).len());
    assert forall|i: int| 0 <= i < a.len() implies a[i] == b[i] by {
        assert(group_keys(a)[i] == a[i].0 && group_keys(b)[i] == b[i].0);
        assert(sorted(a[i].1, str_order()) && a[i].1.len() > 0);
        assert(sorted(b[i].1, str_order()) && b[i].1.len() > 0);
        assert forall|x: Seq<char>| a[i].1.contains(x) <==> b[i].1.contains(x) by {
            if a[i].1.contains(x) {
                assert(b[i].1.contains(x));
            }
            if b[i].1.contains(x) {
                assert(a[i].1.contains(x));
            }
        }
        crate::order::lemma_sorted_unique(a[i].1, b[i].1, str_order());
    }
    assert(a =~= b);
}

/// Rendering imports is deterministic: any two groupings of the same
/// requests render to the same text.
pub proof fn lemma_uses_deterministic(
    env: &Env,
    outer: Option<Version>,
    reqs: Seq<ImportRequest>,
    a: Seq<GroupView>,
    b: Seq<GroupView>,
)
    requires
        aggregated(env, outer, reqs, a),
        aggregated(env, outer, reqs, b),
    ensures
        groups_text(env, a) == groups_text(env, b),
{
    lemma_aggregation_unique(env, outer, reqs, a, b);
}

/// A request without constraints whose version bound is not stricter than
/// the baseline of the main namespace lands in the ungated group of its
/// crate.
pub proof fn lemma_scope_collapses(env: &Env, outer: Option<Version>, r: ImportRequest)
    requires
        r.scope.constraints@.len() == 0,
        r.scope.version is Some,
        env.min_required(None) is Some,
        !version_gt(r.scope.version->0, env.min_required(None)->0),
    ensures
        request_key(env, outer, r).1 is None,
{
    lemma_str_orders();
    let src = views(r.scope.constraints@);
    assert(src =~= Seq::<Seq<char>>::empty());
    assert(crate::order::sorted_set_of(Seq::<Seq<char>>::empty(), src, str_order()));
    lemma_constraint_set(Seq::<Seq<char>>::empty(), src);
}

} // verus!
