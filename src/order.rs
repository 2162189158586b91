//! A strict total order on file names (code-point lexicographic) and sorted,
//! duplicate-free name lists built with it.
use vstd::prelude::*;

verus! {

/// `a` comes strictly before `b`, character by character; a proper prefix
/// comes first.
pub open spec fn lex_lt(a: Seq<char>, b: Seq<char>) -> bool
    decreases a.len(),
{
    if a.len() == 0 {
        b.len() > 0
    } else if b.len() == 0 {
        false
    } else if a[0] != b[0] {
        (a[0] as int) < (b[0] as int)
    } else {
        lex_lt(a.drop_first(), b.drop_first())
    }
}

/// Every name comes strictly before each later one: sorted, without duplicates.
pub open spec fn strictly_sorted(s: Seq<Seq<char>>) -> bool {
    forall|i: int, j: int| 0 <= i < j < s.len() ==> #[trigger] lex_lt(s[i], s[j])
}

/// The character sequences of a list of strings.
pub open spec fn views(s: Seq<String>) -> Seq<Seq<char>> {
    s.map_values(|x: String| x@)
}

pub proof fn lemma_lex_irreflexive(a: Seq<char>)
    ensures
        !lex_lt(a, a),
    decreases a.len(),
{
    if a.len() > 0 {
        lemma_lex_irreflexive(a.drop_first());
    }
}

pub proof fn lemma_lex_transitive(a: Seq<char>, b: Seq<char>, c: Seq<char>)
    requires
        lex_lt(a, b),
        lex_lt(b, c),
    ensures
        lex_lt(a, c),
    decreases a.len(),
{
    if a.len() > 0 && b.len() > 0 && c.len() > 0 && a[0] == b[0] && b[0] == c[0] {
        lemma_lex_transitive(a.drop_first(), b.drop_first(), c.drop_first());
    }
}

pub proof fn lemma_lex_total(a: Seq<char>, b: Seq<char>)
    requires
        a != b,
    ensures
        lex_lt(a, b) || lex_lt(b, a),
    decreases a.len(),
{
    if a.len() > 0 && b.len() > 0 && a[0] == b[0] {
        if a.drop_first() == b.drop_first() {
            assert(a =~= seq![a[0]] + a.drop_first());
            assert(b =~= seq![b[0]] + b.drop_first());
        } else {
            lemma_lex_total(a.drop_first(), b.drop_first());
        }
    } else if a.len() > 0 && b.len() > 0 {
        assert((a[0] as int) != (b[0] as int));
    } else if a.len() == 0 && b.len() == 0 {
        assert(a =~= b);
    }
}

/// Two strictly sorted lists that hold the same names are the same list.
pub proof fn lemma_sorted_unique(a: Seq<Seq<char>>, b: Seq<Seq<char>>)
    requires
        strictly_sorted(a),
        strictly_sorted(b),
        a.to_set() == b.to_set(),
    ensures
        a == b,
    decreases a.len(),
{
    if a.len() == 0 {
        if b.len() > 0 {
            assert(b.to_set().contains(b[0]));
        }
        assert(a =~= b);
    } else {
        assert(a.to_set().contains(a[0]));
        if b.len() == 0 {
            assert(b.to_set().contains(a[0]));
        }
        assert(b.contains(a[0]));
        assert(b.to_set().contains(b[0]));
        assert(a.contains(b[0]));
        let i = choose|i: int| 0 <= i < a.len() && a[i] == b[0];
        let j = choose|j: int| 0 <= j < b.len() && b[j] == a[0];
        if a[0] != b[0] {
            assert(i > 0 && j > 0);
            assert(lex_lt(a[0], a[i]));
            assert(lex_lt(b[0], b[j]));
            lemma_lex_transitive(a[0], b[0], a[0]);
            lemma_lex_irreflexive(a[0]);
        }
        let ta = a.drop_first();
        let tb = b.drop_first();
        assert forall|x: Seq<char>| ta.to_set().contains(x) <==> tb.to_set().contains(x) by {
            if ta.to_set().contains(x) {
                let k = choose|k: int| 0 <= k < ta.len() && ta[k] == x;
                assert(a[k + 1] == x);
                assert(lex_lt(a[0], x));
                lemma_lex_irreflexive(x);
                assert(a.to_set().contains(x));
                assert(b.contains(x));
                let m = choose|m: int| 0 <= m < b.len() && b[m] == x;
                assert(m != 0);
                assert(tb[m - 1] == x);
                assert(tb.contains(x));
            }
            if tb.to_set().contains(x) {
                let k = choose|k: int| 0 <= k < tb.len() && tb[k] == x;
                assert(b[k + 1] == x);
                assert(lex_lt(b[0], x));
                lemma_lex_irreflexive(x);
                assert(b.to_set().contains(x));
                assert(a.contains(x));
                let m = choose|m: int| 0 <= m < a.len() && a[m] == x;
                assert(m != 0);
                assert(ta[m - 1] == x);
                assert(ta.contains(x));
            }
        }
        assert(ta.to_set() =~= tb.to_set());
        lemma_sorted_unique(ta, tb);
        assert(a =~= seq![a[0]] + ta);
        assert(b =~= seq![b[0]] + tb);
    }
}

/// A strictly sorted list has as many entries as distinct names.
pub proof fn lemma_sorted_len(a: Seq<Seq<char>>)
    requires
        strictly_sorted(a),
    ensures
        a.to_set().len() == a.len(),
{
    assert forall|i: int, j: int| 0 <= i < a.len() && 0 <= j < a.len() && i != j implies a[i]
        != a[j] by {
        if i < j {
            assert(lex_lt(a[i], a[j]));
        } else {
            assert(lex_lt(a[j], a[i]));
        }
        lemma_lex_irreflexive(a[i]);
    }
    assert(a.no_duplicates());
    a.unique_seq_to_set();
}

/// Compares two names in the order of `lex_lt`.
pub fn lex_less(a: &str, b: &str) -> (r: bool)
    ensures
        r == lex_lt(a@, b@),
{
    let la = a.unicode_len();
    let lb = b.unicode_len();
    let mut i: usize = 0;
    assert(a@.skip(0) =~= a@);
    assert(b@.skip(0) =~= b@);
    while i < la && i < lb
        invariant
            la == a@.len(),
            lb == b@.len(),
            i <= la,
            i <= lb,
            lex_lt(a@, b@) == lex_lt(a@.skip(i as int), b@.skip(i as int)),
        decreases la - i,
    {
        let ca = a.get_char(i);
        let cb = b.get_char(i);
        if ca != cb {
            return (ca as u32) < (cb as u32);
        }
        assert(a@.skip(i as int).drop_first() =~= a@.skip(i + 1));
        assert(b@.skip(i as int).drop_first() =~= b@.skip(i + 1));
        i = i + 1;
    }
    i == la && i < lb
}


/// Adds `x` to a strictly sorted list at its place, unless the list holds it
/// already.
pub fn insert_sorted(v: &mut Vec<String>, x: String)
    requires
        strictly_sorted(views(old(v)@)),
    ensures
        strictly_sorted(views(final(v)@)),
        views(final(v)@).to_set() == views(old(v)@).to_set().insert(x@),
{
    let ghost s = views(v@);
    let n = v.len();
    let mut i: usize = 0;
    let mut found_place = false;
    while !found_place && i < n
        invariant
            n == v.len(),
            i <= n,
            v@ == old(v)@,
            s == views(v@),
            forall|k: int| 0 <= k < i ==> #[trigger] lex_lt(s[k], x@),
            found_place ==> i < n && !lex_lt(s[i as int], x@),
        decreases n - i + (if found_place { 0int } else { 1int }),
    {
        if lex_less(v[i].as_str(), x.as_str()) {
            i = i + 1;
        } else {
            found_place = true;
        }
    }
    if i < n && v[i] == x {
        assert(s[i as int] == x@);
        assert(s.to_set().insert(x@) =~= s.to_set());
    } else {
        let ghost xv = x@;
        v.insert(i, x);
        let ghost t = views(v@);
        assert(t =~= s.insert(i as int, xv));
        proof {
            if i < n {
                lemma_lex_total(s[i as int], xv);
            }
        }
        assert forall|p: int, q: int| 0 <= p < q < t.len() implies #[trigger] lex_lt(t[p], t[q]) by {
            if q < i {
            } else if q == i {
            } else if p < i {
                assert(lex_lt(s[p], s[q - 1]));
            } else if p == i {
                if q - 1 > i {
                    assert(lex_lt(s[i as int], s[q - 1]));
                    lemma_lex_transitive(xv, s[i as int], s[q - 1]);
                }
            } else {
                assert(lex_lt(s[p - 1], s[q - 1]));
            }
        }
        assert forall|y: Seq<char>| t.to_set().contains(y) <==> s.to_set().insert(xv).contains(y) by {
            if t.contains(y) {
                let k = choose|k: int| 0 <= k < t.len() && t[k] == y;
                if k < i {
                    assert(s[k] == y);
                } else if k > i {
                    assert(s[k - 1] == y);
                }
            }
            if s.contains(y) {
                let k = choose|k: int| 0 <= k < s.len() && s[k] == y;
                if k < i {
                    assert(t[k] == y);
                } else {
                    assert(t[k + 1] == y);
                }
            }
            if y == xv {
                assert(t[i as int] == y);
            }
        }
        assert(t.to_set() =~= s.to_set().insert(xv));
    }
}

} // verus!
