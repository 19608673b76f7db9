//! Text primitives: indentation, decimal numbers, joining and escaping.
use vstd::prelude::*;
use vstd::string::*;

verus! {

/// Relies on `String::push`: the character is appended at the end.
#[verifier::external_body]
pub(crate) fn push_char(s: &mut String, c: char)
    ensures
        final(s)@ == old(s)@.push(c),
{
    s.push(c);
}

/// `n` tab characters.
pub open spec fn tabs(n: nat) -> Seq<char> {
    Seq::new(n, |i: int| '\t')
}

/// Appends `n` tab characters.
pub fn write_tabs(w: &mut String, n: usize)
    ensures
        final(w)@ == old(w)@ + tabs(n as nat),
{
    let ghost w0 = w@;
    let mut i: usize = 0;
    while i < n
        invariant
            i <= n,
            w@ == w0 + tabs(i as nat),
        decreases n - i,
    {
        push_char(w, '\t');
        i = i + 1;
        assert(w@ =~= w0 + tabs(i as nat));
    }
    assert(w@ =~= w0 + tabs(n as nat));
}

/// The character of a decimal digit.
pub open spec fn digit_of(d: nat) -> char {
    if d == 0 { '0' }
    else if d == 1 { '1' }
    else if d == 2 { '2' }
    else if d == 3 { '3' }
    else if d == 4 { '4' }
    else if d == 5 { '5' }
    else if d == 6 { '6' }
    else if d == 7 { '7' }
    else if d == 8 { '8' }
    else { '9' }
}

/// The decimal notation of `n`, without leading zeros.
pub open spec fn decimal(n: nat) -> Seq<char>
    decreases n,
{
    if n < 10 {
        seq![digit_of(n)]
    } else {
        decimal(n / 10).push(digit_of(n % 10))
    }
}

fn digit_char(d: u16) -> (c: char)
    requires
        d < 10,
    ensures
        c == digit_of(d as nat),
{
    match d {
        0 => '0',
        1 => '1',
        2 => '2',
        3 => '3',
        4 => '4',
        5 => '5',
        6 => '6',
        7 => '7',
        8 => '8',
        _ => '9',
    }
}

/// Appends the decimal notation of `n`.
pub fn write_decimal(w: &mut String, n: u16)
    ensures
        final(w)@ == old(w)@ + decimal(n as nat),
    decreases n,
{
    let ghost w0 = w@;
    if n >= 10 {
        write_decimal(w, n / 10);
    }
    push_char(w, digit_char(n % 10));
    assert(w@ =~= w0 + decimal(n as nat));
}

/// A character as it stands inside double quotes.
pub open spec fn escaped_char(c: char) -> Seq<char> {
    if c == '"' || c == '\\' {
        seq!['\\', c]
    } else {
        seq![c]
    }
}

/// `s` with a backslash put before each double quote and each backslash.
pub open spec fn escaped(s: Seq<char>) -> Seq<char>
    decreases s.len(),
{
    if s.len() == 0 {
        Seq::empty()
    } else {
        escaped(s.drop_last()) + escaped_char(s.last())
    }
}

/// Escapes a string so that it can be placed inside double quotes: each
/// double quote and each backslash gets one backslash before it, every other
/// character stays as it is, and the empty string stays empty.
pub fn escape_string(s: &str) -> (r: String)
    ensures
        r@ == escaped(s@),
        s@.len() == 0 ==> r@.len() == 0,
{
    let n = s.unicode_len();
    let mut es = String::new();
    let mut i: usize = 0;
    while i < n
        invariant
            n == s@.len(),
            i <= n,
            es@ == escaped(s@.subrange(0, i as int)),
        decreases n - i,
    {
        let c = s.get_char(i);
        if c == '"' || c == '\\' {
            push_char(&mut es, '\\');
        }
        push_char(&mut es, c);
        proof {
            let p = s@.subrange(0, i + 1);
            assert(p.drop_last() =~= s@.subrange(0, i as int));
        }
        i = i + 1;
        assert(es@ =~= escaped(s@.subrange(0, i as int)));
    }
    assert(s@.subrange(0, n as int) =~= s@);
    es
}

} // verus!

verus! {

/// The view of an optional string.
pub open spec fn opt_view(s: Option<&str>) -> Option<Seq<char>> {
    match s {
        Some(t) => Some(t@),
        None => None,
    }
}

} // verus!

verus! {

/// The marker that neutralises a rendered line.
pub open spec fn comment_text(commented: bool) -> Seq<char> {
    if commented {
        "//"@
    } else {
        Seq::empty()
    }
}

/// An optional line with its line break; nothing when absent.
pub open spec fn opt_line(s: Option<Seq<char>>) -> Seq<char> {
    match s {
        Some(t) => t.push('\n'),
        None => Seq::empty(),
    }
}

pub fn write_comment(w: &mut String, commented: bool)
    ensures
        final(w)@ == old(w)@ + comment_text(commented),
{
    let ghost w0 = w@;
    if commented {
        w.append("//");
    }
    assert(w@ =~= w0 + comment_text(commented));
}

/// Appends `s` and a line break.
pub fn write_line(w: &mut String, s: &str)
    ensures
        final(w)@ == old(w)@ + s@.push('\n'),
{
    let ghost w0 = w@;
    w.append(s);
    push_char(w, '\n');
    assert(w@ =~= w0 + s@.push('\n'));
}

/// Appends an optional line.
pub fn write_opt_line(w: &mut String, s: Option<String>)
    ensures
        final(w)@ == old(w)@ + opt_line(
            match s {
                Some(t) => Some(t@),
                None => None,
            },
        ),
{
    let ghost w0 = w@;
    if let Some(t) = s {
        write_line(w, t.as_str());
    }
    assert(w@ =~= w0 + opt_line(
        match s {
            Some(t) => Some(t@),
            None => None,
        },
    ));
}

/// The view of an optional owned string.
pub open spec fn opt_string_view(s: Option<String>) -> Option<Seq<char>> {
    match s {
        Some(t) => Some(t@),
        None => None,
    }
}

} // verus!

verus! {

/// The views of a sequence of strings.
pub open spec fn views(v: Seq<String>) -> Seq<Seq<char>> {
    v.map_values(|s: String| s@)
}

/// The parts joined with `sep` between each two of them.
pub open spec fn join(parts: Seq<Seq<char>>, sep: Seq<char>) -> Seq<char>
    decreases parts.len(),
{
    if parts.len() == 0 {
        Seq::empty()
    } else if parts.len() == 1 {
        parts[0]
    } else {
        join(parts.drop_last(), sep) + sep + parts.last()
    }
}

/// Appends the strings joined with `sep`.
pub fn write_joined(w: &mut String, parts: &[String], sep: &str)
    ensures
        final(w)@ == old(w)@ + join(views(parts@), sep@),
{
    let ghost w0 = w@;
    let mut i: usize = 0;
    while i < parts.len()
        invariant
            i <= parts@.len(),
            w@ == w0 + join(views(parts@.subrange(0, i as int)), sep@),
        decreases parts@.len() - i,
    {
        let ghost before = views(parts@.subrange(0, i as int));
        if i > 0 {
            w.append(sep);
        }
        w.append(parts[i].as_str());
        proof {
            let after = views(parts@.subrange(0, i + 1));
            assert(after.drop_last() =~= before);
            assert(after.last() == parts@[i as int]@);
        }
        i = i + 1;
        assert(w@ =~= w0 + join(views(parts@.subrange(0, i as int)), sep@));
    }
    assert(parts@.subrange(0, parts@.len() as int) =~= parts@);
}

} // verus!
