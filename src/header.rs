//! File headers naming the generator and the inputs, and the `Default`
//! implementation derived from a constructor.
use vstd::prelude::*;
use vstd::string::*;
use crate::conditions::{version_condition, version_condition_text};
use crate::env::Env;
use crate::order::cmp_str;
use crate::text::opt_line;
use crate::version::Version;

verus! {

/// One input description file of the generation pass.
pub struct GirInfo {
    /// The directory it was read from, as displayed.
    pub gir_dir: String,
    pub repository_url: Option<String>,
    pub hash: Option<String>,
}

/// What the headers are made from.
pub struct Config {
    /// Set when versions are recorded in a file of their own rather than in
    /// each header.
    pub single_version_file: Option<String>,
    pub girs_version: Vec<GirInfo>,
    /// The version of the generator itself.
    pub generator_version: String,
}

/// A constructor, as far as a `Default` implementation depends on it.
pub struct FunctionInfo {
    pub name: String,
    pub hidden: bool,
    /// Whether the function is generated at all.
    pub need_generate: bool,
    /// Whether its return value may be null; `None` when it returns nothing.
    pub ret_nullable: Option<bool>,
    /// Whether it takes parameters in the bindings.
    pub has_parameters: bool,
    pub version: Option<Version>,
}

pub open spec fn info_no_version_text(i: GirInfo) -> Seq<char> {
    "// from "@ + i.gir_dir@ + match i.repository_url {
        Some(u) => " ("@ + u@ + ")"@,
        None => Seq::empty(),
    } + "\n"@
}

pub open spec fn infos_no_version_text(is: Seq<GirInfo>) -> Seq<char>
    decreases is.len(),
{
    if is.len() == 0 {
        Seq::empty()
    } else {
        infos_no_version_text(is.drop_last()) + info_no_version_text(is.last())
    }
}

/// The header without the generator's version: the generator, one line per
/// input file, and the warning against editing.
pub open spec fn no_version_header_text(conf: Config) -> Seq<char> {
    "// This file was generated by gir (https://github.com/gtk-rs/gir)\n"@ + infos_no_version_text(
        conf.girs_version@,
    ) + "// DO NOT EDIT"@ + "\n"@
}

pub open spec fn info_text(i: GirInfo, prefix: Seq<char>) -> Seq<char> {
    match (i.repository_url, i.hash) {
        (Some(u), Some(h)) => prefix + "from "@ + i.gir_dir@ + " ("@ + u@ + " @ "@ + h@ + ")\n"@,
        (None, Some(h)) => prefix + "from "@ + i.gir_dir@ + " (@ "@ + h@ + ")\n"@,
        _ => prefix + "from "@ + i.gir_dir@ + "\n"@,
    }
}

pub open spec fn infos_text(is: Seq<GirInfo>, prefix: Seq<char>) -> Seq<char>
    decreases is.len(),
{
    if is.len() == 0 {
        Seq::empty()
    } else {
        infos_text(is.drop_last(), prefix) + info_text(is.last(), prefix)
    }
}

/// The generator with its version, then one line per input file with its
/// repository and revision where known, each line led by `prefix`.
pub open spec fn version_file_text(conf: Config, prefix: Seq<char>) -> Seq<char> {
    prefix + "Generated by gir (https://github.com/gtk-rs/gir @ "@ + conf.generator_version@ + ")\n"@
        + infos_text(conf.girs_version@, prefix)
}

pub open spec fn start_comments_text(conf: Config) -> Seq<char> {
    if conf.single_version_file is Some {
        no_version_header_text(conf)
    } else {
        version_file_text(conf, "// "@) + "// DO NOT EDIT"@ + "\n"@
    }
}

/// Writes the header of a generated file.
pub fn start_comments(w: &mut String, conf: &Config)
    ensures
        final(w)@ == old(w)@ + start_comments_text(*conf),
{
    if conf.single_version_file.is_some() {
        start_comments_no_version(w, conf);
    } else {
        let ghost w0 = w@;
        single_version_file(w, conf, "// ");
        w.append("// DO NOT EDIT");
        w.append("\n");
        assert(w@ =~= w0 + start_comments_text(*conf));
    }
}

/// Writes the header that names the inputs but not the generator's version.
pub fn start_comments_no_version(w: &mut String, conf: &Config)
    ensures
        final(w)@ == old(w)@ + no_version_header_text(*conf),
{
    let ghost w0 = w@;
    w.append("// This file was generated by gir (https://github.com/gtk-rs/gir)\n");
    let ghost w1 = w@;
    let is = &conf.girs_version;
    let mut k: usize = 0;
    while k < is.len()
        invariant
            k <= is@.len(),
            w@ == w1 + infos_no_version_text(is@.subrange(0, k as int)),
        decreases is@.len() - k,
    {
        let info = &is[k];
        w.append("// from ");
        w.append(info.gir_dir.as_str());
        if let Some(u) = &info.repository_url {
            w.append(" (");
            w.append(u.as_str());
            w.append(")");
        }
        w.append("\n");
        proof {
            let p = is@.subrange(0, k + 1);
            assert(p.drop_last() =~= is@.subrange(0, k as int));
            assert(p.last() == *info);
        }
        k = k + 1;
        assert(w@ =~= w1 + infos_no_version_text(is@.subrange(0, k as int)));
    }
    assert(is@.subrange(0, is@.len() as int) =~= is@);
    w.append("// DO NOT EDIT");
    w.append("\n");
    assert(w@ =~= w0 + no_version_header_text(*conf));
}

/// Writes the generator with its version and the inputs, each line led by
/// `prefix`.
pub fn single_version_file(w: &mut String, conf: &Config, prefix: &str)
    ensures
        final(w)@ == old(w)@ + version_file_text(*conf, prefix@),
{
    let ghost w0 = w@;
    w.append(prefix);
    w.append("Generated by gir (https://github.com/gtk-rs/gir @ ");
    w.append(conf.generator_version.as_str());
    w.append(")\n");
    let ghost w1 = w@;
    let is = &conf.girs_version;
    let mut k: usize = 0;
    while k < is.len()
        invariant
            k <= is@.len(),
            w@ == w1 + infos_text(is@.subrange(0, k as int), prefix@),
        decreases is@.len() - k,
    {
        let info = &is[k];
        w.append(prefix);
        w.append("from ");
        w.append(info.gir_dir.as_str());
        match (&info.repository_url, &info.hash) {
            (Some(u), Some(h)) => {
                w.append(" (");
                w.append(u.as_str());
                w.append(" @ ");
                w.append(h.as_str());
                w.append(")\n");
            },
            (None, Some(h)) => {
                w.append(" (@ ");
                w.append(h.as_str());
                w.append(")\n");
            },
            _ => {
                w.append("\n");
            },
        }
        proof {
            let p = is@.subrange(0, k + 1);
            assert(p.drop_last() =~= is@.subrange(0, k as int));
            assert(p.last() == *info);
        }
        k = k + 1;
        assert(w@ =~= w1 + infos_text(is@.subrange(0, k as int), prefix@));
    }
    assert(is@.subrange(0, is@.len() as int) =~= is@);
    assert(w@ =~= w0 + version_file_text(*conf, prefix@));
}

/// A constructor that can stand behind `Default`: visible, generated, named
/// `new`, and returning a value that is never null.
pub open spec fn default_candidate(f: FunctionInfo) -> bool {
    !f.hidden && f.need_generate && f.name@ == "new"@ && f.ret_nullable == Some(false)
}

/// The first such constructor, in order.
pub open spec fn first_candidate(fs: Seq<FunctionInfo>) -> Option<FunctionInfo>
    decreases fs.len(),
{
    if fs.len() == 0 {
        None
    } else if default_candidate(fs[0]) {
        Some(fs[0])
    } else {
        first_candidate(fs.drop_first())
    }
}

pub open spec fn default_impl_text(name: Seq<char>, body: Seq<char>) -> Seq<char> {
    "impl Default for "@ + name + " {\n                     fn default() -> Self {\n                         "@
        + body + "\n                     }\n                 }"@ + "\n"@
}

/// `Default` through the constructor when it takes no parameters, through
/// the object builder when it takes some and a builder exists; nothing
/// otherwise. The implementation carries the constructor's version guard.
pub open spec fn default_from_new_text(env: &Env, name: Seq<char>, fs: Seq<FunctionInfo>, has_builder: bool) -> Seq<
    char,
> {
    match first_candidate(fs) {
        Some(f) => if !f.has_parameters {
            "\n"@ + opt_line(version_condition_text(env, None, f.version, false, 0)) + default_impl_text(
                name,
                "Self::new()"@,
            )
        } else if has_builder {
            "\n"@ + opt_line(version_condition_text(env, None, f.version, false, 0)) + default_impl_text(
                name,
                "glib::object::Object::new::<Self>(&[])"@,
            )
        } else {
            Seq::empty()
        },
        None => Seq::empty(),
    }
}

fn is_default_candidate(f: &FunctionInfo) -> (r: bool)
    ensures
        r == default_candidate(*f),
{
    let nonnull = match f.ret_nullable {
        Some(n) => !n,
        None => false,
    };
    !f.hidden && f.need_generate && nonnull && cmp_str(f.name.as_str(), "new") == 0
}

fn write_default_impl(w: &mut String, name: &str, body: &str)
    ensures
        final(w)@ == old(w)@ + default_impl_text(name@, body@),
{
    let ghost w0 = w@;
    w.append("impl Default for ");
    w.append(name);
    w.append(" {\n                     fn default() -> Self {\n                         ");
    w.append(body);
    w.append("\n                     }\n                 }");
    w.append("\n");
    assert(w@ =~= w0 + default_impl_text(name@, body@));
}

/// Writes a `Default` implementation for `name` from its constructor `new`,
/// when it has one that fits.
pub fn declare_default_from_new(
    w: &mut String,
    env: &Env,
    name: &str,
    functions: &[FunctionInfo],
    has_builder: bool,
)
    requires
        env.wf(),
    ensures
        final(w)@ == old(w)@ + default_from_new_text(env, name@, functions@, has_builder),
{
    let mut k: usize = 0;
    let mut found: Option<usize> = None;
    assert(functions@.subrange(0, functions@.len() as int) =~= functions@);
    while k < functions.len()
        invariant_except_break
            found is None,
        invariant
            k <= functions@.len(),
            first_candidate(functions@) == first_candidate(
                functions@.subrange(k as int, functions@.len() as int),
            ),
        ensures
            match found {
                Some(i) => i < functions@.len() && first_candidate(functions@) == Some(
                    functions@[i as int],
                ),
                None => first_candidate(functions@) is None,
            },
        decreases functions@.len() - k,
    {
        let ghost rest = functions@.subrange(k as int, functions@.len() as int);
        assert(rest[0] == functions@[k as int]);
        if is_default_candidate(&functions[k]) {
            found = Some(k);
            break;
        }
        assert(rest.drop_first() =~= functions@.subrange(k + 1, functions@.len() as int));
        k = k + 1;
    }
    let ghost w0 = w@;
    if let Some(i) = found {
        let f = &functions[i];
        if !f.has_parameters {
            w.append("\n");
            version_condition(w, env, None, f.version, false, 0);
            write_default_impl(w, name, "Self::new()");
        } else if has_builder {
            w.append("\n");
            version_condition(w, env, None, f.version, false, 0);
            write_default_impl(w, name, "glib::object::Object::new::<Self>(&[])");
        }
    }
    assert(w@ =~= w0 + default_from_new_text(env, name@, functions@, has_builder));
}

} // verus!
