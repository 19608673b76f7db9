//! Lexicographic order on strings and on lists of strings, with the proof
//! that it is a strict total order.
use vstd::prelude::*;

verus! {

/// Lexicographic order on sequences, from an order on their elements; a
/// proper prefix comes first.
pub open spec fn lex_lt<T>(a: Seq<T>, b: Seq<T>, lt: spec_fn(T, T) -> bool) -> bool
    decreases a.len(),
{
    if a.len() == 0 {
        b.len() > 0
    } else if b.len() == 0 {
        false
    } else if a[0] == b[0] {
        lex_lt(a.drop_first(), b.drop_first(), lt)
    } else {
        lt(a[0], b[0])
    }
}

/// Irreflexive, transitive and total on distinct values.
pub open spec fn strict_total<T>(lt: spec_fn(T, T) -> bool) -> bool {
    &&& forall|x: T| !(#[trigger] lt(x, x))
    &&& forall|x: T, y: T| x != y ==> #[trigger] lt(x, y) || lt(y, x)
    &&& forall|x: T, y: T, z: T| #[trigger] lt(x, y) && #[trigger] lt(y, z) ==> lt(x, z)
}

/// Order of characters by code point.
pub open spec fn char_order() -> spec_fn(char, char) -> bool {
    |x: char, y: char| (x as int) < (y as int)
}

/// Lexicographic order of strings by code point.
pub open spec fn str_lt(a: Seq<char>, b: Seq<char>) -> bool {
    lex_lt(a, b, char_order())
}

pub open spec fn str_order() -> spec_fn(Seq<char>, Seq<char>) -> bool {
    |x: Seq<char>, y: Seq<char>| str_lt(x, y)
}

/// Lexicographic order of lists of strings.
pub open spec fn strs_lt(a: Seq<Seq<char>>, b: Seq<Seq<char>>) -> bool {
    lex_lt(a, b, str_order())
}

pub proof fn lemma_lex_irreflexive<T>(a: Seq<T>, lt: spec_fn(T, T) -> bool)
    requires
        strict_total(lt),
    ensures
        !lex_lt(a, a, lt),
    decreases a.len(),
{
    if a.len() > 0 {
        lemma_lex_irreflexive(a.drop_first(), lt);
    }
}

pub proof fn lemma_lex_total<T>(a: Seq<T>, b: Seq<T>, lt: spec_fn(T, T) -> bool)
    requires
        strict_total(lt),
        a != b,
    ensures
        lex_lt(a, b, lt) || lex_lt(b, a, lt),
    decreases a.len(),
{
    if a.len() > 0 && b.len() > 0 {
        if a[0] == b[0] {
            if a.drop_first() == b.drop_first() {
                assert(a =~= seq![a[0]] + a.drop_first());
                assert(b =~= seq![b[0]] + b.drop_first());
            } else {
                lemma_lex_total(a.drop_first(), b.drop_first(), lt);
            }
        } else {
            assert(lt(a[0], b[0]) || lt(b[0], a[0]));
        }
    } else if a.len() == 0 && b.len() == 0 {
        assert(a =~= b);
    }
}

pub proof fn lemma_lex_transitive<T>(a: Seq<T>, b: Seq<T>, c: Seq<T>, lt: spec_fn(T, T) -> bool)
    requires
        strict_total(lt),
        lex_lt(a, b, lt),
        lex_lt(b, c, lt),
    ensures
        lex_lt(a, c, lt),
    decreases a.len(),
{
    if a.len() > 0 {
        assert(b.len() > 0);
        assert(c.len() > 0);
        if a[0] == b[0] && b[0] == c[0] {
            lemma_lex_transitive(a.drop_first(), b.drop_first(), c.drop_first(), lt);
        } else if a[0] == b[0] {
            assert(lt(b[0], c[0]));
            assert(!lt(c[0], c[0]));
        } else if b[0] == c[0] {
            assert(lt(a[0], b[0]));
            assert(!lt(a[0], a[0]));
        } else {
            assert(lt(a[0], b[0]) && lt(b[0], c[0]));
            assert(lt(a[0], c[0]));
            assert(!lt(a[0], a[0]));
        }
    } else {
        assert(c.len() > 0);
    }
}

/// A strict total order on elements gives one on sequences of them.
pub proof fn lemma_lex_strict_total<T>(lt: spec_fn(T, T) -> bool)
    requires
        strict_total(lt),
    ensures
        strict_total(|a: Seq<T>, b: Seq<T>| lex_lt(a, b, lt)),
{
    let l = |a: Seq<T>, b: Seq<T>| lex_lt(a, b, lt);
    assert forall|x: Seq<T>| !(#[trigger] l(x, x)) by {
        lemma_lex_irreflexive(x, lt);
    }
    assert forall|x: Seq<T>, y: Seq<T>| x != y implies #[trigger] l(x, y) || l(y, x) by {
        lemma_lex_total(x, y, lt);
    }
    assert forall|x: Seq<T>, y: Seq<T>, z: Seq<T>| #[trigger] l(x, y) && #[trigger] l(y, z) implies l(
        x,
        z,
    ) by {
        lemma_lex_transitive(x, y, z, lt);
    }
}

pub proof fn lemma_char_order()
    ensures
        strict_total(char_order()),
{
    assert forall|x: char, y: char| x != y implies #[trigger] char_order()(x, y) || char_order()(
        y,
        x,
    ) by {
        assert((x as int) != (y as int));
    }
}

/// Both string orders are strict total orders.
pub proof fn lemma_str_orders()
    ensures
        strict_total(str_order()),
        strict_total(|a: Seq<Seq<char>>, b: Seq<Seq<char>>| lex_lt(a, b, str_order())),
{
    lemma_char_order();
    lemma_lex_strict_total(char_order());
    assert(str_order() =~= (|a: Seq<char>, b: Seq<char>| lex_lt(a, b, char_order())));
    lemma_lex_strict_total(str_order());
}

/// Past a common prefix, the order is that of what follows it.
pub proof fn lemma_lex_skip<T>(a: Seq<T>, b: Seq<T>, i: int, lt: spec_fn(T, T) -> bool)
    requires
        0 <= i <= a.len(),
        i <= b.len(),
        forall|k: int| 0 <= k < i ==> a[k] == b[k],
    ensures
        lex_lt(a, b, lt) == lex_lt(a.subrange(i, a.len() as int), b.subrange(i, b.len() as int), lt),
    decreases i,
{
    if i == 0 {
        assert(a.subrange(0, a.len() as int) =~= a);
        assert(b.subrange(0, b.len() as int) =~= b);
    } else {
        assert(a[0] == b[0]);
        lemma_lex_skip(a.drop_first(), b.drop_first(), i - 1, lt);
        assert(a.drop_first().subrange(i - 1, a.len() - 1) =~= a.subrange(i, a.len() as int));
        assert(b.drop_first().subrange(i - 1, b.len() - 1) =~= b.subrange(i, b.len() as int));
    }
}

/// The outcome of a comparison: negative, zero or positive as `a` comes
/// before, equals or comes after `b`.
pub open spec fn cmp_result<T>(r: i8, a: Seq<T>, b: Seq<T>, lt: spec_fn(T, T) -> bool) -> bool {
    &&& (r < 0 <==> lex_lt(a, b, lt))
    &&& (r == 0 <==> a == b)
    &&& (r > 0 <==> lex_lt(b, a, lt))
}

proof fn lemma_cmp_at<T>(a: Seq<T>, b: Seq<T>, i: int, lt: spec_fn(T, T) -> bool, r: i8)
    requires
        strict_total(lt),
        0 <= i <= a.len(),
        i <= b.len(),
        forall|k: int| 0 <= k < i ==> a[k] == b[k],
        i == a.len() || i == b.len() || a[i] != b[i],
        i < a.len() && i < b.len() ==> (r < 0 <==> lt(a[i], b[i])) && (r > 0 <==> lt(b[i], a[i]))
            && r != 0,
        i == a.len() && i == b.len() ==> r == 0,
        i == a.len() && i < b.len() ==> r < 0,
        i < a.len() && i == b.len() ==> r > 0,
    ensures
        cmp_result(r, a, b, lt),
{
    lemma_lex_skip(a, b, i, lt);
    assert forall|k: int| 0 <= k < i implies b[k] == a[k] by {}
    lemma_lex_skip(b, a, i, lt);
    let sa = a.subrange(i, a.len() as int);
    let sb = b.subrange(i, b.len() as int);
    if i == a.len() && i == b.len() {
        assert(a =~= b);
        lemma_lex_irreflexive(a, lt);
    } else {
        assert(a != b) by {
            if i < a.len() && i < b.len() {
                assert(a[i] != b[i]);
            }
        }
        if i < a.len() && i < b.len() {
            assert(sa[0] == a[i] && sb[0] == b[i]);
            assert(!lt(a[i], b[i]) || !lt(b[i], a[i])) by {
                if lt(a[i], b[i]) && lt(b[i], a[i]) {
                    assert(lt(a[i], a[i]));
                }
            }
        }
    }
}

/// Compares two strings by code point.
pub fn cmp_str(a: &str, b: &str) -> (r: i8)
    ensures
        cmp_result(r, a@, b@, char_order()),
{
    proof {
        lemma_char_order();
    }
    let n = a.unicode_len();
    let m = b.unicode_len();
    let mut i: usize = 0;
    while i < n && i < m
        invariant
            n == a@.len(),
            m == b@.len(),
            i <= n,
            i <= m,
            forall|k: int| 0 <= k < i ==> a@[k] == b@[k],
        decreases n - i,
    {
        let x = a.get_char(i);
        let y = b.get_char(i);
        if x != y {
            let r: i8 = if (x as u32) < (y as u32) {
                -1
            } else {
                1
            };
            proof {
                lemma_cmp_at(a@, b@, i as int, char_order(), r);
            }
            return r;
        }
        i = i + 1;
    }
    let r: i8 = if n == m {
        0
    } else if i == n {
        -1
    } else {
        1
    };
    proof {
        lemma_cmp_at(a@, b@, i as int, char_order(), r);
    }
    r
}

/// Compares two lists of strings lexicographically.
pub fn cmp_strs(a: &[String], b: &[String]) -> (r: i8)
    ensures
        cmp_result(r, crate::text::views(a@), crate::text::views(b@), str_order()),
{
    let ghost va = crate::text::views(a@);
    let ghost vb = crate::text::views(b@);
    proof {
        lemma_str_orders();
    }
    let mut i: usize = 0;
    while i < a.len() && i < b.len()
        invariant
            va == crate::text::views(a@),
            vb == crate::text::views(b@),
            strict_total(str_order()),
            i <= a@.len(),
            i <= b@.len(),
            forall|k: int| 0 <= k < i ==> va[k] == vb[k],
        decreases a@.len() - i,
    {
        let c = cmp_str(a[i].as_str(), b[i].as_str());
        if c != 0 {
            let r: i8 = if c < 0 {
                -1
            } else {
                1
            };
            proof {
                assert(va[i as int] == a@[i as int]@ && vb[i as int] == b@[i as int]@);
                lemma_cmp_at(va, vb, i as int, str_order(), r);
            }
            return r;
        }
        i = i + 1;
    }
    let r: i8 = if a.len() == b.len() {
        0
    } else if i == a.len() {
        -1
    } else {
        1
    };
    proof {
        lemma_cmp_at(va, vb, i as int, str_order(), r);
    }
    r
}

/// Every element comes strictly before the ones after it.
pub open spec fn sorted<T>(s: Seq<T>, lt: spec_fn(T, T) -> bool) -> bool {
    forall|i: int, j: int| 0 <= i < j < s.len() ==> #[trigger] lt(s[i], s[j]) && #[trigger] s[j] == s[j]
}

/// `s` lists exactly the elements of `src`, in strictly increasing order.
pub open spec fn sorted_set_of<T>(s: Seq<T>, src: Seq<T>, lt: spec_fn(T, T) -> bool) -> bool {
    &&& sorted(s, lt)
    &&& forall|x: T| s.contains(x) <==> src.contains(x)
}

/// Inserting where everything before is smaller and everything after is
/// larger keeps a sequence sorted.
pub proof fn lemma_insert_sorted<T>(s: Seq<T>, pos: int, x: T, lt: spec_fn(T, T) -> bool)
    requires
        strict_total(lt),
        sorted(s, lt),
        0 <= pos <= s.len(),
        forall|j: int| 0 <= j < pos ==> lt(#[trigger] s[j], x),
        pos < s.len() ==> lt(x, s[pos]),
    ensures
        sorted(s.insert(pos, x), lt),
{
    let t = s.insert(pos, x);
    assert forall|i: int, j: int| 0 <= i < j < t.len() implies #[trigger] lt(t[i], t[j]) && #[trigger] t[j]
        == t[j] by {
        if i < pos && j == pos {
        } else if i < pos && j > pos {
            assert(t[j] == s[j - 1]);
            assert(lt(s[i], s[j - 1]) && s[j - 1] == s[j - 1]);
        } else if i == pos {
            assert(t[j] == s[j - 1]);
            if j - 1 > pos {
                assert(lt(s[pos], s[j - 1]) && s[j - 1] == s[j - 1]);
            }
        } else if i < pos {
            assert(lt(s[i], s[j]) && s[j] == s[j]);
        } else {
            assert(lt(s[i - 1], s[j - 1]) && s[j - 1] == s[j - 1]);
        }
    }
}

/// Two sorted sequences with the same elements are equal.
pub proof fn lemma_sorted_unique<T>(a: Seq<T>, b: Seq<T>, lt: spec_fn(T, T) -> bool)
    requires
        strict_total(lt),
        sorted(a, lt),
        sorted(b, lt),
        forall|x: T| a.contains(x) <==> b.contains(x),
    ensures
        a == b,
    decreases a.len(),
{
    if a.len() == 0 {
        if b.len() > 0 {
            assert(b.contains(b[0]));
        }
        assert(a =~= b);
    } else {
        assert(a.contains(a[0]));
        assert(b.len() > 0);
        assert(b.contains(b[0]));
        let j = choose|j: int| 0 <= j < b.len() && b[j] == a[0];
        let k = choose|k: int| 0 <= k < a.len() && a[k] == b[0];
        if a[0] != b[0] {
            assert(j > 0 && k > 0);
            assert(lt(b[0], b[j]) && b[j] == b[j]);
            assert(lt(a[0], a[k]) && a[k] == a[k]);
            assert(lt(a[0], a[0]));
        }
        let ta = a.drop_first();
        let tb = b.drop_first();
        assert(sorted(ta, lt)) by {
            assert forall|i: int, m: int| 0 <= i < m < ta.len() implies #[trigger] lt(ta[i], ta[m])
                && #[trigger] ta[m] == ta[m] by {
                assert(lt(a[i + 1], a[m + 1]) && a[m + 1] == a[m + 1]);
            }
        }
        assert(sorted(tb, lt)) by {
            assert forall|i: int, m: int| 0 <= i < m < tb.len() implies #[trigger] lt(tb[i], tb[m])
                && #[trigger] tb[m] == tb[m] by {
                assert(lt(b[i + 1], b[m + 1]) && b[m + 1] == b[m + 1]);
            }
        }
        assert forall|x: T| ta.contains(x) <==> tb.contains(x) by {
            if ta.contains(x) {
                let i = choose|i: int| 0 <= i < ta.len() && ta[i] == x;
                assert(a[i + 1] == x);
                assert(lt(a[0], a[i + 1]) && a[i + 1] == a[i + 1]);
                assert(x != a[0]);
                assert(a.contains(x));
                let m = choose|m: int| 0 <= m < b.len() && b[m] == x;
                assert(m != 0);
                assert(tb[m - 1] == x);
            }
            if tb.contains(x) {
                let i = choose|i: int| 0 <= i < tb.len() && tb[i] == x;
                assert(b[i + 1] == x);
                assert(lt(b[0], b[i + 1]) && b[i + 1] == b[i + 1]);
                assert(x != b[0]);
                assert(b.contains(x));
                let m = choose|m: int| 0 <= m < a.len() && a[m] == x;
                assert(m != 0);
                assert(ta[m - 1] == x);
            }
        }
        lemma_sorted_unique(ta, tb, lt);
        assert(a =~= seq![a[0]] + ta);
        assert(b =~= seq![b[0]] + tb);
    }
}

/// Adds a string to a sorted set of strings.
pub fn insert_str(set: &mut Vec<String>, s: String)
    requires
        sorted(crate::text::views(old(set)@), str_order()),
    ensures
        sorted(crate::text::views(final(set)@), str_order()),
        forall|x: Seq<char>| #[trigger] crate::text::views(final(set)@).contains(x) <==> (
        crate::text::views(old(set)@).contains(x) || x == s@),
{
    proof {
        lemma_str_orders();
    }
    let ghost v0 = crate::text::views(set@);
    let mut i: usize = 0;
    let mut c: i8 = -1;
    while i < set.len()
        invariant
            v0 == crate::text::views(set@),
            i <= set@.len(),
            strict_total(str_order()),
            sorted(v0, str_order()),
            forall|j: int| 0 <= j < i ==> str_lt(#[trigger] v0[j], s@),
        ensures
            i <= set@.len(),
            forall|j: int| 0 <= j < i ==> str_lt(#[trigger] v0[j], s@),
            i < set@.len() ==> c >= 0 && cmp_result(c, v0[i as int], s@, char_order()),
        decreases set@.len() - i,
    {
        c = cmp_str(set[i].as_str(), s.as_str());
        assert(v0[i as int] == set@[i as int]@);
        if c >= 0 {
            break;
        }
        i = i + 1;
    }
    if i < set.len() && c == 0 {
        assert(v0[i as int] == s@);
        assert(v0.contains(s@));
        return;
    }
    let ghost sv = s@;
    set.insert(i, s);
    proof {
        if (i as int) < v0.len() {
            assert(str_lt(sv, v0[i as int]));
            assert(str_order()(sv, v0[i as int]));
        }
        assert forall|j: int| 0 <= j < i implies str_order()(#[trigger] v0[j], sv) by {}
        lemma_insert_sorted(v0, i as int, sv, str_order());
        assert(crate::text::views(set@) =~= v0.insert(i as int, sv));
        assert forall|x: Seq<char>| #[trigger] crate::text::views(set@).contains(x) <==> (v0.contains(x)
            || x == sv) by {
            let t = v0.insert(i as int, sv);
            if t.contains(x) {
                let k = choose|k: int| 0 <= k < t.len() && t[k] == x;
                if k < i {
                    assert(v0[k] == x);
                } else if k > i {
                    assert(v0[k - 1] == x);
                }
            }
            if v0.contains(x) {
                let k = choose|k: int| 0 <= k < v0.len() && v0[k] == x;
                if k < i {
                    assert(t[k] == x);
                } else {
                    assert(t[k + 1] == x);
                }
            }
            if x == sv {
                assert(t[i as int] == x);
            }
        }
    }
}

} // verus!
