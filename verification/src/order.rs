//! The order of texts: character by character, by code point, a text
//! before every longer text it begins. This is the order in which strings
//! sort.

use vstd::prelude::*;

verus! {

/// `a` comes strictly before `b`.
pub open spec fn precedes(a: Seq<char>, b: Seq<char>) -> bool
    decreases a.len(),
{
    if a.len() == 0 {
        b.len() > 0
    } else if b.len() == 0 {
        false
    } else if a[0] == b[0] {
        precedes(a.drop_first(), b.drop_first())
    } else {
        (a[0] as u32) < (b[0] as u32)
    }
}

/// No text comes before an earlier one.
pub open spec fn ordered(s: Seq<Seq<char>>) -> bool {
    forall|i: int, j: int| 0 <= i < j < s.len() ==> !precedes(s[j], s[i])
}

/// `x` put into an ascending run, behind every text that does not come
/// after it.
pub open spec fn put(x: Seq<char>, sorted: Seq<Seq<char>>) -> Seq<Seq<char>>
    decreases sorted.len(),
{
    if sorted.len() == 0 || precedes(x, sorted[0]) {
        seq![x] + sorted
    } else {
        seq![sorted[0]] + put(x, sorted.drop_first())
    }
}

/// The texts in ascending order.
pub open spec fn ascending(s: Seq<Seq<char>>) -> Seq<Seq<char>>
    decreases s.len(),
{
    if s.len() == 0 {
        Seq::empty()
    } else {
        put(s.last(), ascending(s.drop_last()))
    }
}

/// The order is transitive.
pub proof fn lemma_precedes_transitive(a: Seq<char>, b: Seq<char>, c: Seq<char>)
    requires
        precedes(a, b),
        precedes(b, c),
    ensures
        precedes(a, c),
    decreases a.len(),
{
    if a.len() > 0 && b.len() > 0 && c.len() > 0 {
        if a[0] == b[0] && b[0] == c[0] {
            lemma_precedes_transitive(a.drop_first(), b.drop_first(), c.drop_first());
        }
    }
}

/// No text comes before itself, and of two texts at most one comes before
/// the other.
pub proof fn lemma_precedes_asymmetric(a: Seq<char>, b: Seq<char>)
    ensures
        !(precedes(a, b) && precedes(b, a)),
    decreases a.len(),
{
    if a.len() > 0 && b.len() > 0 && a[0] == b[0] {
        lemma_precedes_asymmetric(a.drop_first(), b.drop_first());
    }
}

proof fn lemma_codes_differ(x: char, y: char)
    ensures
        x != y ==> (x as u32) != (y as u32),
{
}

/// Two texts of which neither comes before the other are the same text.
pub proof fn lemma_precedes_total(a: Seq<char>, b: Seq<char>)
    requires
        !precedes(a, b),
        !precedes(b, a),
    ensures
        a == b,
    decreases a.len(),
{
    if a.len() == 0 || b.len() == 0 {
        assert(a =~= b);
    } else {
        lemma_codes_differ(a[0], b[0]);
        lemma_precedes_total(a.drop_first(), b.drop_first());
        assert(a =~= seq![a[0]] + a.drop_first());
        assert(b =~= seq![b[0]] + b.drop_first());
    }
}

proof fn lemma_put_at(x: Seq<char>, s: Seq<Seq<char>>, at: int)
    requires
        0 <= at <= s.len(),
        forall|k: int| 0 <= k < at ==> !precedes(x, s[k]),
        at < s.len() ==> precedes(x, s[at]),
    ensures
        put(x, s) == s.insert(at, x),
    decreases at,
{
    if at == 0 {
        assert(seq![x] + s =~= s.insert(0, x));
    } else {
        let t = s.drop_first();
        assert forall|k: int| 0 <= k < at - 1 implies !precedes(x, t[k]) by {
            assert(t[k] == s[k + 1]);
        }
        lemma_put_at(x, t, at - 1);
        assert(seq![s[0]] + t.insert(at - 1, x) =~= s.insert(at, x));
    }
}

proof fn lemma_put_props(x: Seq<char>, s: Seq<Seq<char>>)
    requires
        ordered(s),
    ensures
        ordered(put(x, s)),
        put(x, s).len() == s.len() + 1,
        put(x, s).to_multiset() == s.to_multiset().insert(x),
    decreases s.len(),
{
    broadcast use vstd::seq_lib::group_to_multiset_ensures;

    if s.len() == 0 || precedes(x, s[0]) {
        let r = seq![x] + s;
        assert(r =~= s.insert(0, x));
        assert forall|i: int, j: int| 0 <= i < j < r.len() implies !precedes(r[j], r[i]) by {
            if i > 0 {
                assert(r[i] == s[i - 1] && r[j] == s[j - 1]);
            } else {
                assert(r[j] == s[j - 1]);
                if precedes(s[j - 1], x) {
                    lemma_precedes_transitive(s[j - 1], x, s[0]);
                    if j - 1 == 0 {
                        lemma_precedes_asymmetric(s[0], s[0]);
                    }
                }
            }
        }
    } else {
        let t = s.drop_first();
        assert(ordered(t)) by {
            assert forall|i: int, j: int| 0 <= i < j < t.len() implies !precedes(t[j], t[i]) by {
                assert(t[i] == s[i + 1] && t[j] == s[j + 1]);
            }
        }
        lemma_put_props(x, t);
        let p = put(x, t);
        let r = seq![s[0]] + p;
        assert forall|i: int, j: int| 0 <= i < j < r.len() implies !precedes(r[j], r[i]) by {
            if i > 0 {
                assert(r[i] == p[i - 1] && r[j] == p[j - 1]);
            } else {
                assert(r[j] == p[j - 1]);
                assert(p.to_multiset().count(p[j - 1]) > 0);
                if p[j - 1] != x {
                    assert(t.to_multiset().count(p[j - 1]) > 0);
                    assert(t.contains(p[j - 1]));
                    let k = choose|k: int| 0 <= k < t.len() && t[k] == p[j - 1];
                    assert(t[k] == s[k + 1]);
                }
            }
        }
        assert(r =~= p.insert(0, s[0]));
        assert(s =~= t.insert(0, s[0]));
        assert(r.to_multiset() =~= s.to_multiset().insert(x));
    }
}

/// The ascending order of some texts is ordered and holds exactly those
/// texts, each as often as it was given.
pub proof fn lemma_ascending_props(s: Seq<Seq<char>>)
    ensures
        ordered(ascending(s)),
        ascending(s).len() == s.len(),
        ascending(s).to_multiset() == s.to_multiset(),
    decreases s.len(),
{
    broadcast use vstd::seq_lib::group_to_multiset_ensures;

    if s.len() == 0 {
        assert(s =~= Seq::empty());
    } else {
        lemma_ascending_props(s.drop_last());
        lemma_put_props(s.last(), ascending(s.drop_last()));
        assert(s =~= s.drop_last().push(s.last()));
    }
}

/// Whether `a` comes strictly before `b`.
pub fn comes_before(a: &Vec<char>, b: &Vec<char>) -> (r: bool)
    ensures
        r == precedes(a@, b@),
{
    let mut i: usize = 0;
    proof {
        assert(a@.skip(0) =~= a@);
        assert(b@.skip(0) =~= b@);
    }
    while i < a.len() && i < b.len() && a[i] == b[i]
        invariant
            i <= a.len(),
            i <= b.len(),
            precedes(a@, b@) == precedes(a@.skip(i as int), b@.skip(i as int)),
        decreases a.len() - i,
    {
        proof {
            assert(a@.skip(i as int).drop_first() =~= a@.skip(i + 1));
            assert(b@.skip(i as int).drop_first() =~= b@.skip(i + 1));
        }
        i += 1;
    }
    if i == a.len() {
        i < b.len()
    } else if i == b.len() {
        false
    } else {
        (a[i] as u32) < (b[i] as u32)
    }
}

/// Sorts the texts in ascending order.
pub fn sort(texts: Vec<Vec<char>>) -> (out: Vec<Vec<char>>)
    ensures
        crate::text::rows(out@) == ascending(crate::text::rows(texts@)),
{
    let ghost all = crate::text::rows(texts@);
    let mut out: Vec<Vec<char>> = Vec::new();
    proof {
        assert(all.take(0) =~= Seq::empty());
        assert(crate::text::rows(out@) =~= Seq::empty());
    }
    for x in it: texts
        invariant
            all == crate::text::rows(it.seq()),
            crate::text::rows(out@) == ascending(all.take(it.index() as int)),
    {
        let ghost sorted = crate::text::rows(out@);
        let ghost n = it.index() as int;
        let mut at: usize = 0;
        while at < out.len() && !comes_before(&x, &out[at])
            invariant
                at <= out.len(),
                sorted == crate::text::rows(out@),
                forall|k: int| 0 <= k < at ==> !precedes(x@, sorted[k]),
            decreases out.len() - at,
        {
            at += 1;
        }
        proof {
            lemma_put_at(x@, sorted, at as int);
            assert(all[n] == x@);
            assert(all.take(n + 1).drop_last() =~= all.take(n));
            assert(all.take(n + 1).last() == x@);
            assert(crate::text::rows(out@.insert(at as int, x)) =~= sorted.insert(at as int, x@));
        }
        out.insert(at, x);
    }
    proof {
        assert(all.take(all.len() as int) =~= all);
    }
    out
}

} // verus!
