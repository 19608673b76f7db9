//! Library versions and the decision whether a symbol needs a version guard.
use vstd::prelude::*;
use vstd::string::*;
use crate::text::{decimal, opt_view, write_decimal};

verus! {

/// A version of the foreign library: major, minor and micro numbers.
#[derive(Clone, Copy, Debug, PartialEq, Eq, Structural, PartialOrd, Ord, Hash)]
pub struct Version {
    pub major: u16,
    pub minor: u16,
    pub micro: u16,
}

/// Strict lexicographic order on (major, minor, micro).
pub open spec fn version_gt(a: Version, b: Version) -> bool {
    a.major > b.major || (a.major == b.major && (a.minor > b.minor || (a.minor == b.minor
        && a.micro > b.micro)))
}

/// Whether `v` is strictly newer than the baseline; an absent baseline
/// constrains nothing, so every version is newer than it.
pub open spec fn newer_than_baseline(v: Version, baseline: Option<Version>) -> bool {
    match baseline {
        Some(b) => version_gt(v, b),
        None => true,
    }
}

/// The version a guard must test, if any.
pub open spec fn guard_of(version: Option<Version>, baseline: Option<Version>) -> Option<Version> {
    match version {
        Some(v) => if newer_than_baseline(v, baseline) { Some(v) } else { None },
        None => None,
    }
}

/// `v` with micro number 0 renders as `vA_B`, otherwise as `vA_B_C`.
pub open spec fn feature_text(v: Version) -> Seq<char> {
    if v.micro == 0 {
        "v"@ + decimal(v.major as nat) + "_"@ + decimal(v.minor as nat)
    } else {
        "v"@ + decimal(v.major as nat) + "_"@ + decimal(v.minor as nat) + "_"@ + decimal(
            v.micro as nat,
        )
    }
}

/// The cfg predicate of a version: `feature = "vA_B"`, or with the
/// namespace's identifier and an underscore before the feature name.
pub open spec fn cfg_text(v: Version, prefix: Option<Seq<char>>) -> Seq<char> {
    match prefix {
        Some(p) => "feature = \""@ + p + "_"@ + feature_text(v) + "\""@,
        None => "feature = \""@ + feature_text(v) + "\""@,
    }
}

/// `A.B` when the micro number is 0, otherwise `A.B.C`.
pub open spec fn dotted_text(v: Version) -> Seq<char> {
    if v.micro == 0 {
        decimal(v.major as nat) + "."@ + decimal(v.minor as nat)
    } else {
        decimal(v.major as nat) + "."@ + decimal(v.minor as nat) + "."@ + decimal(v.micro as nat)
    }
}

impl Version {
    pub fn new(major: u16, minor: u16, micro: u16) -> (r: Version)
        ensures
            r == (Version { major, minor, micro }),
    {
        Version { major, minor, micro }
    }

    /// Whether `self` is strictly newer than `other`.
    pub fn is_newer_than(&self, other: &Version) -> (r: bool)
        ensures
            r == version_gt(*self, *other),
    {
        self.major > other.major || (self.major == other.major && (self.minor > other.minor || (
        self.minor == other.minor && self.micro > other.micro)))
    }

    /// `value` if it is stricter than `other`; an absent `other` keeps `value`.
    pub fn if_stricter_than(value: Option<Version>, other: Option<Version>) -> (r: Option<
        Version,
    >)
        ensures
            r == guard_of(value, other),
    {
        resolve_guard(value, other)
    }

    /// Appends the feature name of this version.
    pub fn write_feature(&self, w: &mut String)
        ensures
            final(w)@ == old(w)@ + feature_text(*self),
    {
        let ghost w0 = w@;
        w.append("v");
        write_decimal(w, self.major);
        w.append("_");
        write_decimal(w, self.minor);
        if self.micro != 0 {
            w.append("_");
            write_decimal(w, self.micro);
        }
        assert(w@ =~= w0 + feature_text(*self));
    }

    /// The feature name of this version.
    pub fn to_feature(&self) -> (r: String)
        ensures
            r@ == feature_text(*self),
    {
        let mut s = String::new();
        self.write_feature(&mut s);
        assert(s@ =~= feature_text(*self));
        s
    }

    /// Appends the cfg predicate of this version.
    pub fn write_cfg(&self, w: &mut String, prefix: Option<&str>)
        ensures
            final(w)@ == old(w)@ + cfg_text(*self, opt_view(prefix)),
    {
        let ghost w0 = w@;
        w.append("feature = \"");
        match prefix {
            Some(p) => {
                w.append(p);
                w.append("_");
            },
            None => {},
        }
        self.write_feature(w);
        w.append("\"");
        assert(w@ =~= w0 + cfg_text(*self, opt_view(prefix)));
    }

    /// The cfg predicate of this version, such as `feature = "v2_4"`.
    pub fn to_cfg(&self, prefix: Option<&str>) -> (r: String)
        ensures
            r@ == cfg_text(*self, opt_view(prefix)),
    {
        let mut s = String::new();
        self.write_cfg(&mut s, prefix);
        assert(s@ =~= cfg_text(*self, opt_view(prefix)));
        s
    }

    /// Appends the dotted notation of this version.
    pub fn write_dotted(&self, w: &mut String)
        ensures
            final(w)@ == old(w)@ + dotted_text(*self),
    {
        let ghost w0 = w@;
        write_decimal(w, self.major);
        w.append(".");
        write_decimal(w, self.minor);
        if self.micro != 0 {
            w.append(".");
            write_decimal(w, self.micro);
        }
        assert(w@ =~= w0 + dotted_text(*self));
    }

    /// The dotted notation of this version, such as `2.4` or `2.4.1`.
    pub fn to_string(&self) -> (r: String)
        ensures
            r@ == dotted_text(*self),
    {
        let mut s = String::new();
        self.write_dotted(&mut s);
        assert(s@ =~= dotted_text(*self));
        s
    }
}

/// Decides whether a symbol introduced in `version` needs a guard under
/// `baseline`: it does when the version is present and strictly newer than
/// the baseline, and an absent baseline guarantees nothing.
pub fn resolve_guard(version: Option<Version>, baseline: Option<Version>) -> (r: Option<Version>)
    ensures
        r == guard_of(version, baseline),
        r is Some <==> (version is Some && newer_than_baseline(version->0, baseline)),
        r is Some ==> r == version,
{
    match version {
        Some(v) => match baseline {
            Some(b) => if v.is_newer_than(&b) { Some(v) } else { None },
            None => Some(v),
        },
        None => None,
    }
}

} // verus!
