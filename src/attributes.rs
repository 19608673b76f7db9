//! Attribute markers: derive lists, doc aliases, hidden documentation and
//! allowed deprecation.
use vstd::prelude::*;
use vstd::string::*;
use crate::env::Derive;
use crate::text::{comment_text, join, tabs, views, write_comment, write_joined, write_tabs};
use crate::version::Version;

verus! {

/// One derive attribute: `#[derive(A, B)]`, or
/// `#[cfg_attr(C, derive(A, B))]` under a predicate.
pub open spec fn derive_attr(d: Derive) -> Seq<char> {
    match d.cfg_condition {
        Some(c) => "#[cfg_attr("@ + c@ + ", derive("@ + join(views(d.names@), ", "@) + "))]"@,
        None => "#[derive("@ + join(views(d.names@), ", "@) + ")]"@,
    }
}

/// One line per derive group, in order.
pub open spec fn derives_text(ds: Seq<Derive>, indent: nat) -> Seq<char>
    decreases ds.len(),
{
    if ds.len() == 0 {
        Seq::empty()
    } else {
        derives_text(ds.drop_last(), indent) + tabs(indent) + derive_attr(ds.last()) + "\n"@
    }
}

pub open spec fn doc_alias_text(name: Seq<char>, comment_prefix: Seq<char>, indent: nat) -> Seq<char> {
    tabs(indent) + comment_prefix + "#[doc(alias = \""@ + name + "\")]\n"@
}

pub open spec fn doc_hidden_text(hidden: bool, comment_prefix: Seq<char>, indent: nat) -> Seq<char> {
    if hidden {
        tabs(indent) + comment_prefix + "#[doc(hidden)]\n"@
    } else {
        Seq::empty()
    }
}

pub open spec fn allow_deprecated_text(allow: Option<Version>, commented: bool, indent: nat) -> Seq<
    char,
> {
    if allow is Some {
        tabs(indent) + comment_text(commented) + "#[allow(deprecated)]\n"@
    } else {
        Seq::empty()
    }
}

/// The lines of `v`, each ended by a line break.
pub open spec fn lines_text(v: Seq<Seq<char>>) -> Seq<char>
    decreases v.len(),
{
    if v.len() == 0 {
        Seq::empty()
    } else {
        lines_text(v.drop_last()) + v.last() + "\n"@
    }
}

/// Writes one derive attribute per group, each on its own line.
pub fn derives(w: &mut String, derives: &[Derive], indent: usize)
    ensures
        final(w)@ == old(w)@ + derives_text(derives@, indent as nat),
{
    let ghost w0 = w@;
    let mut i: usize = 0;
    while i < derives.len()
        invariant
            i <= derives@.len(),
            w@ == w0 + derives_text(derives@.subrange(0, i as int), indent as nat),
        decreases derives@.len() - i,
    {
        let d = &derives[i];
        write_tabs(w, indent);
        match &d.cfg_condition {
            Some(c) => {
                w.append("#[cfg_attr(");
                w.append(c.as_str());
                w.append(", derive(");
                write_joined(w, d.names.as_slice(), ", ");
                w.append("))]");
            },
            None => {
                w.append("#[derive(");
                write_joined(w, d.names.as_slice(), ", ");
                w.append(")]");
            },
        }
        w.append("\n");
        proof {
            let s = derives@.subrange(0, i + 1);
            assert(s.drop_last() =~= derives@.subrange(0, i as int));
            assert(s.last() == *d);
        }
        i = i + 1;
        assert(w@ =~= w0 + derives_text(derives@.subrange(0, i as int), indent as nat));
    }
    assert(derives@.subrange(0, derives@.len() as int) =~= derives@);
}

/// Writes a doc alias marker naming the foreign symbol.
pub fn doc_alias(w: &mut String, name: &str, comment_prefix: &str, indent: usize)
    ensures
        final(w)@ == old(w)@ + doc_alias_text(name@, comment_prefix@, indent as nat),
{
    let ghost w0 = w@;
    write_tabs(w, indent);
    w.append(comment_prefix);
    w.append("#[doc(alias = \"");
    w.append(name);
    w.append("\")]\n");
    assert(w@ =~= w0 + doc_alias_text(name@, comment_prefix@, indent as nat));
}

/// Writes a hidden-documentation marker when `doc_hidden` holds.
pub fn doc_hidden(w: &mut String, doc_hidden: bool, comment_prefix: &str, indent: usize)
    ensures
        final(w)@ == old(w)@ + doc_hidden_text(doc_hidden, comment_prefix@, indent as nat),
{
    let ghost w0 = w@;
    if doc_hidden {
        write_tabs(w, indent);
        w.append(comment_prefix);
        w.append("#[doc(hidden)]\n");
    }
    assert(w@ =~= w0 + doc_hidden_text(doc_hidden, comment_prefix@, indent as nat));
}

/// Writes an allow-deprecated marker when the symbol is allowed to use
/// deprecated items.
pub fn allow_deprecated(w: &mut String, allow_deprecated: Option<Version>, commented: bool, indent: usize)
    ensures
        final(w)@ == old(w)@ + allow_deprecated_text(allow_deprecated, commented, indent as nat),
{
    let ghost w0 = w@;
    if allow_deprecated.is_some() {
        write_tabs(w, indent);
        write_comment(w, commented);
        w.append("#[allow(deprecated)]\n");
    }
    assert(w@ =~= w0 + allow_deprecated_text(allow_deprecated, commented, indent as nat));
}

/// Writes each string on a line of its own.
pub fn write_vec(w: &mut String, v: &[String])
    ensures
        final(w)@ == old(w)@ + lines_text(views(v@)),
{
    let ghost w0 = w@;
    let mut i: usize = 0;
    while i < v.len()
        invariant
            i <= v@.len(),
            w@ == w0 + lines_text(views(v@.subrange(0, i as int))),
        decreases v@.len() - i,
    {
        w.append(v[i].as_str());
        w.append("\n");
        proof {
            let s = views(v@.subrange(0, i + 1));
            assert(s.drop_last() =~= views(v@.subrange(0, i as int)));
            assert(s.last() == v@[i as int]@);
        }
        i = i + 1;
        assert(w@ =~= w0 + lines_text(views(v@.subrange(0, i as int))));
    }
    assert(v@.subrange(0, v@.len() as int) =~= v@);
}

} // verus!
