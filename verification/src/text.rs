//! Helpers on texts and lists of texts.

use vstd::prelude::*;
use vstd::string::*;
use crate::json::str_eq;

verus! {

/// The content of a list of texts.
pub open spec fn texts_view(v: Vec<String>) -> Seq<Seq<char>> {
    v@.map_values(|s: String| s@)
}

/// The content of a list of borrowed texts.
pub open spec fn str_refs_view(v: Seq<&str>) -> Seq<Seq<char>> {
    v.map_values(|s: &str| s@)
}

/// `s` without any occurrence of `x`, the others kept in order.
pub open spec fn remove_all(s: Seq<Seq<char>>, x: Seq<char>) -> Seq<Seq<char>>
    decreases s.len(),
{
    if s.len() == 0 {
        s
    } else if s.last() == x {
        remove_all(s.drop_last(), x)
    } else {
        remove_all(s.drop_last(), x).push(s.last())
    }
}

/// The first `i + 1` elements contain exactly the first `i` and the `i`-th.
pub proof fn lemma_take_one_more<A>(s: Seq<A>, i: int)
    requires
        0 <= i < s.len(),
    ensures
        forall|x: A| #[trigger] s.take(i + 1).contains(x) <==> (s.take(i).contains(x) || x == s[i]),
{
    assert forall|x: A| #[trigger] s.take(i + 1).contains(x) <==> (s.take(i).contains(x) || x == s[i]) by {
        if s.take(i + 1).contains(x) {
            let t = s.take(i + 1);
            let j = choose|j: int| 0 <= j < i + 1 && t[j] == x;
            if j < i { assert(s.take(i)[j] == x); }
        }
        if s.take(i).contains(x) {
            let t = s.take(i);
            let j = choose|j: int| 0 <= j < i && t[j] == x;
            assert(s.take(i + 1)[j] == x);
        }
        if x == s[i] {
            assert(s.take(i + 1)[i] == x);
        }
    }
}

/// `a` joined with `b`.
pub fn concat2(a: &str, b: &str) -> (r: String)
    ensures
        r@ == a@ + b@,
{
    String::from_str(a).concat(b)
}

/// `a`, `b` and `c` joined.
pub fn join3(a: &str, b: &str, c: &str) -> (r: String)
    ensures
        r@ == a@ + b@ + c@,
{
    String::from_str(a).concat(b).concat(c)
}

/// A copy of an optional text.
pub fn clone_opt_text(o: &Option<String>) -> (r: Option<String>)
    ensures
        r == *o,
{
    match o {
        Some(s) => Some(s.clone()),
        None => None,
    }
}

/// A copy of a list of texts.
pub fn clone_texts(v: &Vec<String>) -> (r: Vec<String>)
    ensures
        r@ == v@,
{
    let mut r: Vec<String> = Vec::new();
    let mut i: usize = 0;
    while i < v.len()
        invariant
            i <= v@.len(),
            r@ == v@.take(i as int),
        decreases v@.len() - i,
    {
        r.push(v[i].clone());
        assert(v@.take(i + 1) =~= v@.take(i as int).push(v@[i as int]));
        i = i + 1;
    }
    assert(v@.take(v@.len() as int) =~= v@);
    r
}

/// A copy of a list of texts without any occurrence of `x`.
pub fn without(v: &Vec<String>, x: &str) -> (r: Vec<String>)
    ensures
        texts_view(r) == remove_all(texts_view(*v), x@),
{
    let mut r: Vec<String> = Vec::new();
    let mut i: usize = 0;
    while i < v.len()
        invariant
            i <= v@.len(),
            texts_view(r) == remove_all(texts_view(*v).take(i as int), x@),
        decreases v@.len() - i,
    {
        let ghost before = r@;
        assert(texts_view(*v).take(i + 1).drop_last() =~= texts_view(*v).take(i as int));
        assert(texts_view(*v).take(i + 1).last() == v@[i as int]@);
        if !str_eq(v[i].as_str(), x) {
            r.push(v[i].clone());
            assert(r@ =~= before.push(r@[r@.len() - 1]));
            assert(texts_view(r) =~= remove_all(texts_view(*v).take(i as int), x@).push(v@[i as int]@));
        }
        i = i + 1;
    }
    assert(texts_view(*v).take(v@.len() as int) =~= texts_view(*v));
    r
}

/// The dot-separated segments of a text (one empty segment for an empty text).
pub open spec fn split_dots(s: Seq<char>) -> Seq<Seq<char>>
    decreases s.len(),
{
    if s.len() == 0 {
        seq![Seq::empty()]
    } else {
        let r = split_dots(s.drop_last());
        if s.last() == '.' {
            r.push(Seq::empty())
        } else {
            r.update(r.len() - 1, r.last().push(s.last()))
        }
    }
}

/// Whether a text has no dot.
pub open spec fn dot_free(s: Seq<char>) -> bool {
    forall|i: int| 0 <= i < s.len() ==> s[i] != '.'
}

/// Splitting never gives no segment.
pub proof fn lemma_split_dots_nonempty(s: Seq<char>)
    ensures
        split_dots(s).len() > 0,
    decreases s.len(),
{
    if s.len() > 0 {
        lemma_split_dots_nonempty(s.drop_last());
    }
}

/// A dot-free text followed by a dot and a dot-free text splits into the
/// segments of the first and then the second.
pub proof fn lemma_split_dots_append(a: Seq<char>, b: Seq<char>)
    requires
        dot_free(b),
    ensures
        split_dots(a + seq!['.'] + b) == split_dots(a).push(b),
        split_dots(b) == seq![b],
    decreases b.len(),
{
    let x = a + seq!['.'] + b;
    if b.len() == 0 {
        assert(b =~= Seq::<char>::empty());
        assert(x.drop_last() =~= a);
        assert(x.last() == '.');
        assert(split_dots(x) == split_dots(a).push(Seq::<char>::empty()));
        assert(split_dots(b) == seq![Seq::<char>::empty()]);
    } else {
        let b0 = b.drop_last();
        assert(dot_free(b0));
        assert(b[b.len() - 1] != '.');
        lemma_split_dots_append(a, b0);
        lemma_split_dots_nonempty(a);
        assert(x.drop_last() =~= a + seq!['.'] + b0);
        assert(x.last() == b.last());
        assert(b0.push(b.last()) =~= b);
        let r = split_dots(a).push(b0);
        assert(r.last() == b0);
        assert(split_dots(x) == r.update(r.len() - 1, b0.push(b.last())));
        assert(r.update(r.len() - 1, b) =~= split_dots(a).push(b));
        assert(split_dots(b) == seq![b0].update(0, b0.push(b.last())));
        assert(seq![b0].update(0, b) =~= seq![b]);
    }
}

/// The dot-separated segments of a text.
pub fn split_on_dots(s: &str) -> (r: Vec<String>)
    ensures
        texts_view(r) == split_dots(s@),
{
    let n = s.unicode_len();
    let mut r: Vec<String> = Vec::new();
    let mut start: usize = 0;
    let mut i: usize = 0;
    assert(s@.subrange(0, 0) =~= Seq::<char>::empty());
    assert(texts_view(r) =~= Seq::<Seq<char>>::empty());
    assert(texts_view(r).push(s@.subrange(0, 0)) =~= seq![Seq::<char>::empty()]);
    while i < n
        invariant
            n == s@.len(),
            start <= i <= n,
            texts_view(r).push(s@.subrange(start as int, i as int)) == split_dots(s@.subrange(0, i as int)),
        decreases n - i,
    {
        let c = s.get_char(i);
        let ghost pre = s@.subrange(0, i as int);
        assert(s@.subrange(0, i + 1).drop_last() =~= pre);
        assert(s@.subrange(0, i + 1).last() == c);
        if c == '.' {
            let ghost before = r@;
            r.push(String::from_str(s.substring_char(start, i)));
            assert(texts_view(r) =~= texts_view_of(before).push(s@.subrange(start as int, i as int)));
            start = i + 1;
            assert(s@.subrange(start as int, i + 1) =~= Seq::<char>::empty());
        } else {
            assert(s@.subrange(start as int, i + 1) =~= s@.subrange(start as int, i as int).push(c));
            assert(texts_view(r).push(s@.subrange(start as int, i + 1)) =~=
                texts_view(r).push(s@.subrange(start as int, i as int)).update(texts_view(r).len() as int, s@.subrange(start as int, i as int).push(c)));
        }
        i = i + 1;
    }
    r.push(String::from_str(s.substring_char(start, n)));
    assert(s@.subrange(0, n as int) =~= s@);
    r
}

/// The content of a sequence of texts.
pub open spec fn texts_view_of(v: Seq<String>) -> Seq<Seq<char>> {
    v.map_values(|s: String| s@)
}

/// The `len` characters of `s` from position `i`.
pub open spec fn window(s: Seq<char>, i: int, len: int) -> Seq<char> {
    s.subrange(i, i + len)
}

/// Whether `t` occurs in `s`.
pub open spec fn has_substring(s: Seq<char>, t: Seq<char>) -> bool {
    exists|i: int| 0 <= i && i + t.len() <= s.len() && #[trigger] window(s, i, t.len() as int) == t
}

/// Whether `t` occurs in `s` (`str::contains`).
pub fn text_contains(s: &str, t: &str) -> (b: bool)
    ensures
        b == has_substring(s@, t@),
{
    let n = s.unicode_len();
    let m = t.unicode_len();
    if m > n {
        return false;
    }
    let mut i: usize = 0;
    while i <= n - m
        invariant
            n == s@.len(),
            m == t@.len(),
            m <= n,
            i <= n - m + 1,
            forall|k: int| 0 <= k < i ==> #[trigger] window(s@, k, m as int) != t@,
        decreases n - m + 1 - i,
    {
        let mut j: usize = 0;
        let mut same = true;
        while j < m
            invariant
                n == s@.len(),
                m == t@.len(),
                i + m <= n,
                j <= m,
                same == (forall|q: int| 0 <= q < j ==> s@[i + q] == t@[q]),
            decreases m - j,
        {
            if s.get_char(i + j) != t.get_char(j) {
                same = false;
            }
            j = j + 1;
        }
        if same {
            assert(window(s@, i as int, m as int) =~= t@);
            return true;
        }
        assert(window(s@, i as int, m as int) != t@) by {
            let q = choose|q: int| 0 <= q < m && s@[i + q] != t@[q];
            assert(window(s@, i as int, m as int)[q] == s@[i + q]);
        }
        i = i + 1;
    }
    assert forall|k: int| 0 <= k && k + m <= n implies #[trigger] window(s@, k, m as int) != t@ by {
        assert(k < i);
    }
    false
}

} // verus!
