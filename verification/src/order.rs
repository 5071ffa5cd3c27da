//! Lexicographic ordering of character sequences, and sorting of string
//! vectors by it. The plexus hash sorts activation descriptor lines with
//! this order so that the hash depends only on the set of lines.

use vstd::prelude::*;
use vstd::relations::{sorted_by, total_ordering};
use vstd::seq_lib::lemma_sorted_unique;
use vstd::string::*;

verus! {

/// Lexicographic "less or equal" on character sequences, by code point.
pub open spec fn lex_leq(a: Seq<char>, b: Seq<char>) -> bool
    decreases a.len(),
{
    if a.len() == 0 {
        true
    } else if b.len() == 0 {
        false
    } else if a[0] != b[0] {
        (a[0] as int) < (b[0] as int)
    } else {
        lex_leq(a.drop_first(), b.drop_first())
    }
}

/// The order as a function value, for `sorted_by` and the sorting lemmas.
pub open spec fn lex_leq_fn() -> spec_fn(Seq<char>, Seq<char>) -> bool {
    |a: Seq<char>, b: Seq<char>| lex_leq(a, b)
}

proof fn lemma_lex_refl(a: Seq<char>)
    ensures
        lex_leq(a, a),
    decreases a.len(),
{
    if a.len() > 0 {
        lemma_lex_refl(a.drop_first());
    }
}

proof fn lemma_lex_antisym(a: Seq<char>, b: Seq<char>)
    requires
        lex_leq(a, b),
        lex_leq(b, a),
    ensures
        a == b,
    decreases a.len(),
{
    if a.len() == 0 {
        assert(b.len() == 0);
        assert(a =~= b);
    } else {
        assert(b.len() > 0);
        assert(a[0] == b[0]);
        lemma_lex_antisym(a.drop_first(), b.drop_first());
        assert(a.drop_first().len() == b.drop_first().len());
        assert(a.len() == b.len());
        assert forall|i: int| 0 <= i < a.len() implies a[i] == b[i] by {
            if i > 0 {
                assert(a[i] == a.subrange(1, a.len() as int)[i - 1]);
                assert(b[i] == b.subrange(1, b.len() as int)[i - 1]);
                assert(a.subrange(1, a.len() as int) == b.subrange(1, b.len() as int));
            }
        }
        assert(a =~= b);
    }
}

proof fn lemma_lex_trans(a: Seq<char>, b: Seq<char>, c: Seq<char>)
    requires
        lex_leq(a, b),
        lex_leq(b, c),
    ensures
        lex_leq(a, c),
    decreases a.len(),
{
    if a.len() > 0 && b.len() > 0 && c.len() > 0 && a[0] == b[0] && b[0] == c[0] {
        lemma_lex_trans(a.drop_first(), b.drop_first(), c.drop_first());
    }
}

proof fn lemma_lex_total(a: Seq<char>, b: Seq<char>)
    ensures
        lex_leq(a, b) || lex_leq(b, a),
    decreases a.len(),
{
    if a.len() > 0 && b.len() > 0 {
        if a[0] == b[0] {
            lemma_lex_total(a.drop_first(), b.drop_first());
        } else {
            assert(a[0] as int != b[0] as int);
        }
    }
}

/// The lexicographic order is a total order.
pub proof fn lemma_lex_total_ordering()
    ensures
        total_ordering(lex_leq_fn()),
{
    let leq = lex_leq_fn();
    assert forall|x: Seq<char>| #[trigger] leq(x, x) by {
        lemma_lex_refl(x);
    }
    assert forall|x: Seq<char>, y: Seq<char>| #[trigger] leq(x, y) && #[trigger] leq(y, x)
        implies x == y by {
        lemma_lex_antisym(x, y);
    }
    assert forall|x: Seq<char>, y: Seq<char>, z: Seq<char>|
        #[trigger] leq(x, y) && #[trigger] leq(y, z) implies leq(x, z) by {
        lemma_lex_trans(x, y, z);
    }
    assert forall|x: Seq<char>, y: Seq<char>| #[trigger] leq(x, y) || #[trigger] leq(y, x) by {
        lemma_lex_total(x, y);
    }
}

/// Whether `a` comes no later than `b` in lexicographic order.
pub fn str_lex_leq(a: &str, b: &str) -> (r: bool)
    ensures
        r == lex_leq(a@, b@),
{
    let an = a.unicode_len();
    let bn = b.unicode_len();
    let mut i: usize = 0;
    proof {
        assert(a@.skip(0) =~= a@);
        assert(b@.skip(0) =~= b@);
    }
    loop
        invariant
            an == a@.len(),
            bn == b@.len(),
            0 <= i <= an,
            0 <= i <= bn,
            lex_leq(a@, b@) == lex_leq(a@.skip(i as int), b@.skip(i as int)),
        decreases an - i,
    {
        if i == an {
            assert(a@.skip(i as int).len() == 0);
            return true;
        }
        if i == bn {
            assert(b@.skip(i as int).len() == 0);
            assert(a@.skip(i as int).len() > 0);
            return false;
        }
        let ca = a.get_char(i);
        let cb = b.get_char(i);
        assert(a@.skip(i as int)[0] == a@[i as int]);
        assert(b@.skip(i as int)[0] == b@[i as int]);
        if ca != cb {
            proof {
                assert(ca as int == ca as u32 as int);
                assert(cb as int == cb as u32 as int);
            }
            return (ca as u32) < (cb as u32);
        }
        proof {
            assert(a@.skip(i as int).drop_first() =~= a@.skip(i + 1));
            assert(b@.skip(i as int).drop_first() =~= b@.skip(i + 1));
        }
        i = i + 1;
    }
}

/// Sorts the strings lexicographically; the result holds exactly the same
/// strings.
pub fn sort_strings(v: &Vec<String>) -> (r: Vec<String>)
    ensures
        r.deep_view().to_multiset() == v.deep_view().to_multiset(),
        sorted_by(r.deep_view(), lex_leq_fn()),
{
    broadcast use vstd::seq_lib::to_multiset_insert;
    broadcast use vstd::seq_lib::group_to_multiset_ensures;

    let ghost leq = lex_leq_fn();
    let mut out: Vec<String> = Vec::new();
    let mut k: usize = 0;
    proof {
        assert(v.deep_view().take(0) =~= Seq::<Seq<char>>::empty());
        assert(out.deep_view() =~= Seq::<Seq<char>>::empty());
        assert(out.deep_view().to_multiset() =~= v.deep_view().take(0).to_multiset());
    }
    while k < v.len()
        invariant
            0 <= k <= v.len(),
            out.len() == k,
            out.deep_view().to_multiset() == v.deep_view().take(k as int).to_multiset(),
            sorted_by(out.deep_view(), lex_leq_fn()),
        decreases v.len() - k,
    {
        let x = v[k].clone();
        let ghost before = out.deep_view();
        let mut pos: usize = 0;
        while pos < out.len() && str_lex_leq(out[pos].as_str(), x.as_str())
            invariant
                0 <= pos <= out.len(),
                out.deep_view() == before,
                forall|j: int| 0 <= j < pos ==> lex_leq(#[trigger] before[j], x@),
            decreases out.len() - pos,
        {
            pos = pos + 1;
        }
        proof {
            if pos < out.len() {
                assert(!lex_leq(before[pos as int], x@));
                lemma_lex_total(before[pos as int], x@);
                assert(lex_leq(x@, before[pos as int]));
            }
            assert forall|j: int| pos <= j < out.len() implies lex_leq(x@, #[trigger] before[j]) by {
                lemma_lex_total(before[pos as int], x@);
                if j > pos {
                    assert(lex_leq_fn()(before[pos as int], before[j]));
                    lemma_lex_trans(x@, before[pos as int], before[j]);
                }
            }
        }
        out.insert(pos, x);
        proof {
            let after = out.deep_view();
            let xv = v.deep_view()[k as int];
            assert(after =~~= before.insert(pos as int, xv));
            vstd::seq_lib::to_multiset_insert(before, pos as int, xv);
            assert(after.to_multiset() == before.to_multiset().insert(xv));
            assert(v.deep_view().take(k + 1) =~= v.deep_view().take(k as int).push(xv));
            vstd::seq_lib::to_multiset_build(v.deep_view().take(k as int), xv);
            assert(v.deep_view().take(k + 1).to_multiset() == v.deep_view().take(
                k as int,
            ).to_multiset().insert(xv));
            assert forall|i: int, j: int| 0 <= i < j < after.len() implies #[trigger] lex_leq_fn()(
                after[i],
                after[j],
            ) by {
                lemma_lex_refl(after[i]);
            }
        }
        k = k + 1;
    }
    proof {
        assert(v.deep_view().take(v.len() as int) =~= v.deep_view());
    }
    out
}

/// Two string vectors holding the same strings sort to the same sequence.
pub proof fn lemma_sort_same_multiset(x: Seq<Seq<char>>, y: Seq<Seq<char>>)
    requires
        x.to_multiset() == y.to_multiset(),
        sorted_by(x, lex_leq_fn()),
        sorted_by(y, lex_leq_fn()),
    ensures
        x == y,
{
    lemma_lex_total_ordering();
    lemma_sorted_unique(x, y, lex_leq_fn());
}

} // verus!
