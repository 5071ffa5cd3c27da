//! Character-sequence utilities shared by the handle grammar, the hash
//! rendering and the wire codec: first-occurrence searches with their
//! characterizing lemmas, and verified string equality.

use vstd::prelude::*;

verus! {

/// Index of the first occurrence of `c` in `s`, if any.
pub open spec fn find_first(s: Seq<char>, c: char) -> Option<int>
    decreases s.len(),
{
    if s.len() == 0 {
        None
    } else if s[0] == c {
        Some(0)
    } else {
        match find_first(s.drop_first(), c) {
            Some(i) => Some(i + 1),
            None => None,
        }
    }
}

/// `find_first` returns the least index holding `c`, or `None` when `c` is
/// absent.
pub proof fn lemma_find_first(s: Seq<char>, c: char)
    ensures
        match find_first(s, c) {
            Some(i) => 0 <= i < s.len() && s[i] == c && forall|j: int| 0 <= j < i ==> s[j] != c,
            None => forall|j: int| 0 <= j < s.len() ==> s[j] != c,
        },
    decreases s.len(),
{
    if s.len() > 0 && s[0] != c {
        let s1 = s.drop_first();
        lemma_find_first(s1, c);
        assert(forall|j: int| 0 <= j < s1.len() ==> s1[j] == s[j + 1]);
        match find_first(s1, c) {
            Some(i) => {
                assert forall|j: int| 0 <= j < i + 1 implies s[j] != c by {
                    if j > 0 {
                        assert(s1[j - 1] == s[j]);
                    }
                }
            },
            None => {
                assert forall|j: int| 0 <= j < s.len() implies s[j] != c by {
                    if j > 0 {
                        assert(s1[j - 1] == s[j]);
                    }
                }
            },
        }
    }
}

/// Searching `a + [c] + b` finds the marker at `a.len()` when `a` itself is
/// free of `c`.
pub proof fn lemma_find_first_marker(a: Seq<char>, c: char, b: Seq<char>)
    requires
        !a.contains(c),
    ensures
        find_first(a + seq![c] + b, c) == Some(a.len() as int),
    decreases a.len(),
{
    let s = a + seq![c] + b;
    if a.len() == 0 {
        assert(s[0] == c);
    } else {
        assert(s[0] == a[0]);
        assert(s[0] != c);
        assert(!a.drop_first().contains(c)) by {
            assert(forall|i: int|
                0 <= i < a.drop_first().len() ==> a.drop_first()[i] == a[i + 1]);
        }
        lemma_find_first_marker(a.drop_first(), c, b);
        assert(s.drop_first() =~= a.drop_first() + seq![c] + b);
    }
}

/// Index of the first occurrence of the two-character run `cc` in `s`.
pub open spec fn find_double(s: Seq<char>, c: char) -> Option<int>
    decreases s.len(),
{
    if s.len() < 2 {
        None
    } else if s[0] == c && s[1] == c {
        Some(0)
    } else {
        match find_double(s.drop_first(), c) {
            Some(i) => Some(i + 1),
            None => None,
        }
    }
}

/// `find_double` returns the least index starting a `cc` run, or `None` when
/// no such run exists.
pub proof fn lemma_find_double(s: Seq<char>, c: char)
    ensures
        match find_double(s, c) {
            Some(i) => 0 <= i && i + 1 < s.len() && s[i] == c && s[i + 1] == c && forall|j: int|
                0 <= j < i ==> !((#[trigger] s[j]) == c && s[j + 1] == c),
            None => forall|j: int|
                0 <= j && j + 1 < s.len() ==> !((#[trigger] s[j]) == c && s[j + 1] == c),
        },
    decreases s.len(),
{
    if s.len() >= 2 && !(s[0] == c && s[1] == c) {
        let s1 = s.drop_first();
        lemma_find_double(s1, c);
        assert(forall|j: int| 0 <= j < s1.len() ==> s1[j] == s[j + 1]);
        match find_double(s1, c) {
            Some(i) => {
                assert forall|j: int| 0 <= j < i + 1 implies !((#[trigger] s[j]) == c && s[j + 1]
                    == c) by {
                    if j > 0 {
                        assert(s1[j - 1] == s[j]);
                        assert(s1[j] == s[j + 1]);
                    }
                }
            },
            None => {
                assert forall|j: int|
                    0 <= j && j + 1 < s.len() implies !((#[trigger] s[j]) == c && s[j + 1]
                    == c) by {
                    if j > 0 {
                        assert(s1[j - 1] == s[j]);
                        assert(s1[j] == s[j + 1]);
                    }
                }
            },
        }
    }
}

/// No `cc` run crosses or precedes the separator of `a + [c, c] + b` when `a`
/// has no `cc` run and does not end in `c`.
pub proof fn lemma_find_double_marker(a: Seq<char>, c: char, b: Seq<char>)
    requires
        find_double(a, c) is None,
        a.len() > 0 ==> a.last() != c,
    ensures
        find_double(a + seq![c, c] + b, c) == Some(a.len() as int),
    decreases a.len(),
{
    let s = a + seq![c, c] + b;
    if a.len() == 0 {
        assert(s[0] == c && s[1] == c);
    } else {
        lemma_find_double(a, c);
        assert(s[0] == a[0]);
        assert(s[1] == if a.len() == 1 { c } else { a[1] });
        if a.len() == 1 {
            assert(a.last() == a[0]);
            assert(s[0] != c);
        } else {
            assert(!(s[0] == c && s[1] == c));
        }
        let a1 = a.drop_first();
        assert(find_double(a1, c) is None) by {
            lemma_find_double(a, c);
            lemma_find_double(a1, c);
            match find_double(a1, c) {
                Some(i) => {
                    assert(a1[i] == a[i + 1]);
                    assert(a1[i + 1] == a[i + 2]);
                    assert(a[i + 1] == c && a[i + 2] == c);
                },
                None => {},
            }
        }
        assert(a1.len() > 0 ==> a1.last() == a.last());
        lemma_find_double_marker(a1, c, b);
        assert(s.drop_first() =~= a1 + seq![c, c] + b);
    }
}

/// Index of the first occurrence of `c` in `s`, searched by scanning.
pub fn find_char_index(s: &str, c: char) -> (r: Option<usize>)
    ensures
        match r {
            Some(i) => find_first(s@, c) == Some(i as int),
            None => find_first(s@, c) is None,
        },
{
    let n = s.unicode_len();
    let mut i: usize = 0;
    let mut found: Option<usize> = None;
    while i < n
        invariant
            n == s@.len(),
            0 <= i <= n,
            found is None,
            forall|j: int| 0 <= j < i ==> s@[j] != c,
        decreases n - i,
    {
        if s.get_char(i) == c {
            found = Some(i);
            proof {
                lemma_find_first(s@, c);
            }
            return found;
        }
        i = i + 1;
    }
    proof {
        lemma_find_first(s@, c);
    }
    None
}

/// Index of the first `cc` run in `s`, searched by scanning.
pub fn find_double_index(s: &str, c: char) -> (r: Option<usize>)
    ensures
        match r {
            Some(i) => find_double(s@, c) == Some(i as int),
            None => find_double(s@, c) is None,
        },
{
    let n = s.unicode_len();
    if n < 2 {
        proof {
            lemma_find_double(s@, c);
        }
        return None;
    }
    let mut i: usize = 0;
    while i < n - 1
        invariant
            n == s@.len(),
            n >= 2,
            0 <= i <= n - 1,
            forall|j: int| 0 <= j < i ==> !((#[trigger] s@[j]) == c && s@[j + 1] == c),
        decreases n - i,
    {
        if s.get_char(i) == c && s.get_char(i + 1) == c {
            proof {
                lemma_find_double(s@, c);
            }
            return Some(i);
        }
        i = i + 1;
    }
    proof {
        lemma_find_double(s@, c);
    }
    None
}

/// True when the two strings hold the same characters.
pub fn str_eq(a: &str, b: &str) -> (r: bool)
    ensures
        r <==> a@ == b@,
{
    let an = a.unicode_len();
    let bn = b.unicode_len();
    if an != bn {
        assert(a@ != b@);
        return false;
    }
    let mut i: usize = 0;
    while i < an
        invariant
            an == a@.len(),
            an == b@.len(),
            0 <= i <= an,
            forall|j: int| 0 <= j < i ==> a@[j] == b@[j],
        decreases an - i,
    {
        if a.get_char(i) != b.get_char(i) {
            return false;
        }
        i = i + 1;
    }
    proof {
        assert(a@ =~= b@);
    }
    true
}

/// The parts joined with `c` between consecutive parts.
pub open spec fn join_char(parts: Seq<Seq<char>>, c: char) -> Seq<char>
    decreases parts.len(),
{
    if parts.len() == 0 {
        Seq::empty()
    } else if parts.len() == 1 {
        parts[0]
    } else {
        parts[0] + seq![c] + join_char(parts.drop_first(), c)
    }
}

/// Joining one more part appends a separator and the part.
pub proof fn lemma_join_char_push(parts: Seq<Seq<char>>, c: char, last: Seq<char>)
    requires
        parts.len() > 0,
    ensures
        join_char(parts.push(last), c) == join_char(parts, c) + seq![c] + last,
    decreases parts.len(),
{
    if parts.len() == 1 {
        assert(parts.push(last)[0] == parts[0]);
        assert(parts.push(last).drop_first() =~~= seq![last]);
        assert(join_char(seq![last], c) == last);
        assert(join_char(parts.push(last), c) =~= parts[0] + seq![c] + last);
        assert(join_char(parts, c) + seq![c] + last =~= parts[0] + seq![c] + last);
    } else {
        lemma_join_char_push(parts.drop_first(), c, last);
        assert(parts.push(last).drop_first() =~~= parts.drop_first().push(last));
        assert(parts.push(last)[0] == parts[0]);
        assert(join_char(parts.push(last), c) =~= parts[0] + seq![c] + (join_char(
            parts.drop_first(),
            c,
        ) + seq![c] + last));
        assert(join_char(parts, c) + seq![c] + last =~= parts[0] + seq![c] + (join_char(
            parts.drop_first(),
            c,
        ) + seq![c] + last));
    }
}

/// Joins the strings with the separator between consecutive entries.
pub fn join_strings(v: &Vec<String>, sep: char) -> (r: String)
    ensures
        r@ == join_char(v.deep_view(), sep),
{
    let mut out = String::new();
    if v.len() == 0 {
        proof {
            assert(out@ =~= join_char(v.deep_view(), sep));
        }
        return out;
    }
    out.append(v[0].as_str());
    proof {
        assert(v.deep_view().take(1) =~= seq![v.deep_view()[0]]);
        assert(out@ =~= join_char(v.deep_view().take(1), sep));
    }
    let mut i: usize = 1;
    while i < v.len()
        invariant
            1 <= i <= v.len(),
            v.len() == v.deep_view().len(),
            out@ == join_char(v.deep_view().take(i as int), sep),
        decreases v.len() - i,
    {
        push_char(&mut out, sep);
        out.append(v[i].as_str());
        proof {
            lemma_join_char_push(v.deep_view().take(i as int), sep, v.deep_view()[i as int]);
            assert(v.deep_view().take(i as int).push(v.deep_view()[i as int]) =~~= v.deep_view()
                .take(i + 1));
            assert(v.deep_view()[i as int] == v@[i as int]@);
        }
        i = i + 1;
    }
    proof {
        assert(v.deep_view().take(v.len() as int) =~~= v.deep_view());
    }
    out
}

/// A pushed sequence holds exactly the old elements and the new one.
pub proof fn lemma_push_contains<A>(s: Seq<A>, e: A, x: A)
    ensures
        s.push(e).contains(x) <==> (s.contains(x) || e == x),
{
    let p = s.push(e);
    if p.contains(x) {
        let k = choose|k: int| 0 <= k < p.len() && p[k] == x;
        if k < s.len() {
            assert(s[k] == x);
        } else {
            assert(e == x);
        }
    }
    if s.contains(x) {
        let k = choose|k: int| 0 <= k < s.len() && s[k] == x;
        assert(p[k] == x);
    }
    if e == x {
        assert(p[s.len() as int] == x);
    }
}

/// Relies on `String::push`: appends the character to the end of the string.
#[verifier::external_body]
pub fn push_char(s: &mut String, c: char)
    ensures
        final(s)@ == old(s)@.push(c),
{
    s.push(c)
}

} // verus!
