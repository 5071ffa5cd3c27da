//! Durable string references to activation-owned data.
//!
//! A handle renders as `plugin@version::method[:meta...]`: exactly one `@`
//! separates the plugin from the version, exactly one `::` separates the
//! version from the method, and any remaining parts are colon-separated
//! metadata. `parse` inverts `display` on every well-formed handle.

use vstd::prelude::*;
use vstd::string::*;

use crate::strutil::{
    find_char_index, find_double, find_double_index, find_first, lemma_find_double,
    lemma_find_double_marker, lemma_find_first, lemma_find_first_marker,
};

verus! {

/// The mathematical content of a handle.
#[verifier::ext_equal]
pub struct HandleView {
    pub plugin: Seq<char>,
    pub version: Seq<char>,
    pub method: Seq<char>,
    pub meta: Seq<Seq<char>>,
}

/// Reference to external data: plugin, plugin version, creating method and
/// free-form metadata parts.
#[derive(Debug, Clone, PartialEq, Eq)]
pub struct Handle {
    /// Plugin identifier, e.g. `cone`.
    pub plugin: String,
    /// Plugin version, e.g. `1.0.0`.
    pub version: String,
    /// Method that produced the handle, e.g. `chat`.
    pub method: String,
    /// Metadata parts; entries may be empty.
    pub meta: Vec<String>,
}

impl View for Handle {
    type V = HandleView;

    open spec fn view(&self) -> HandleView {
        HandleView {
            plugin: self.plugin@,
            version: self.version@,
            method: self.method@,
            meta: self.meta.deep_view(),
        }
    }
}

/// The textual form of a metadata list: one `:`-prefixed entry per part.
pub open spec fn meta_text(meta: Seq<Seq<char>>) -> Seq<char>
    decreases meta.len(),
{
    if meta.len() == 0 {
        Seq::empty()
    } else {
        seq![':'] + meta[0] + meta_text(meta.drop_first())
    }
}

/// The textual form of a handle.
pub open spec fn handle_text(h: HandleView) -> Seq<char> {
    h.plugin + seq!['@'] + h.version + seq![':', ':'] + h.method + meta_text(h.meta)
}

/// A handle whose fields keep clear of the separators, so that its text
/// parses back to it: non-empty plugin without `@`, non-empty version without
/// a `::` run and not ending in `:`, non-empty method without `:`, and
/// metadata entries without `:`.
pub open spec fn valid_handle(h: HandleView) -> bool {
    &&& h.plugin.len() > 0 && !h.plugin.contains('@')
    &&& h.version.len() > 0 && find_double(h.version, ':') is None && h.version.last() != ':'
    &&& h.method.len() > 0 && !h.method.contains(':')
    &&& forall|i: int| 0 <= i < h.meta.len() ==> !(#[trigger] h.meta[i]).contains(':')
}

/// Splitting a character sequence at every `:`; always at least one part.
pub open spec fn split_colons(s: Seq<char>) -> Seq<Seq<char>>
    decreases s.len(),
{
    if s.len() == 0 {
        seq![Seq::<char>::empty()]
    } else {
        let rest = split_colons(s.drop_first());
        if s[0] == ':' {
            seq![Seq::<char>::empty()] + rest
        } else {
            seq![seq![s[0]] + rest[0]] + rest.drop_first()
        }
    }
}

/// What parsing a handle text yields: the part before the first `@`, the part
/// before the first `::` of the remainder, and the colon-separated tail.
/// `None` when a separator is missing or a mandatory part is empty.
pub open spec fn parse_text(s: Seq<char>) -> Option<HandleView> {
    match find_first(s, '@') {
        None => None,
        Some(a) => {
            let plugin = s.take(a);
            let rest = s.skip(a + 1);
            match find_double(rest, ':') {
                None => None,
                Some(v) => {
                    let version = rest.take(v);
                    let parts = split_colons(rest.skip(v + 2));
                    let method = parts[0];
                    let meta = parts.drop_first();
                    if plugin.len() > 0 && version.len() > 0 && method.len() > 0 {
                        Some(HandleView { plugin, version, method, meta })
                    } else {
                        None
                    }
                },
            }
        },
    }
}

proof fn lemma_split_colons_free(a: Seq<char>)
    requires
        !a.contains(':'),
    ensures
        split_colons(a) == seq![a],
    decreases a.len(),
{
    if a.len() > 0 {
        let a1 = a.drop_first();
        assert(a[0] != ':');
        assert(!a1.contains(':')) by {
            assert(forall|i: int| 0 <= i < a1.len() ==> a1[i] == a[i + 1]);
        }
        lemma_split_colons_free(a1);
        assert(seq![a[0]] + a1 =~= a);
        assert(split_colons(a) =~~= seq![a]);
    } else {
        assert(a =~= Seq::<char>::empty());
        assert(split_colons(a) =~~= seq![a]);
    }
}

proof fn lemma_split_colons_marker(a: Seq<char>, b: Seq<char>)
    requires
        !a.contains(':'),
    ensures
        split_colons(a + seq![':'] + b) == seq![a] + split_colons(b),
    decreases a.len(),
{
    let s = a + seq![':'] + b;
    if a.len() == 0 {
        assert(s[0] == ':');
        assert(s.drop_first() =~= b);
        assert(a =~= Seq::<char>::empty());
        assert(split_colons(s) =~~= seq![a] + split_colons(b));
    } else {
        assert(s[0] == a[0]);
        assert(s[0] != ':');
        let a1 = a.drop_first();
        assert(!a1.contains(':')) by {
            assert(forall|i: int| 0 <= i < a1.len() ==> a1[i] == a[i + 1]);
        }
        lemma_split_colons_marker(a1, b);
        assert(s.drop_first() =~= a1 + seq![':'] + b);
        assert(split_colons(s.drop_first()) == seq![a1] + split_colons(b));
        assert((seq![a1] + split_colons(b))[0] == a1);
        assert(seq![s[0]] + a1 =~= a);
        assert((seq![a1] + split_colons(b)).drop_first() =~= split_colons(b));
        assert(split_colons(s) =~~= seq![a] + split_colons(b));
    }
}

proof fn lemma_split_meta(m: Seq<char>, meta: Seq<Seq<char>>)
    requires
        !m.contains(':'),
        forall|i: int| 0 <= i < meta.len() ==> !(#[trigger] meta[i]).contains(':'),
    ensures
        split_colons(m + meta_text(meta)) == seq![m] + meta,
    decreases meta.len(),
{
    if meta.len() == 0 {
        assert(m + meta_text(meta) =~= m);
        lemma_split_colons_free(m);
        assert(seq![m] + meta =~= seq![m]);
    } else {
        let rest = meta.drop_first();
        let tail = meta[0] + meta_text(rest);
        assert(m + meta_text(meta) =~= m + seq![':'] + tail);
        lemma_split_colons_marker(m, tail);
        assert(forall|i: int| 0 <= i < rest.len() ==> rest[i] == meta[i + 1]);
        lemma_split_meta(meta[0], rest);
        assert(split_colons(tail) == seq![meta[0]] + rest);
        assert(seq![m] + (seq![meta[0]] + rest) =~~= seq![m] + meta);
    }
}

/// The handle grammar round-trips: parsing the text of any well-formed
/// handle yields that handle back, so `display` never produces a string that
/// `parse` rejects.
pub proof fn lemma_parse_display_round_trip(h: HandleView)
    requires
        valid_handle(h),
    ensures
        parse_text(handle_text(h)) == Some(h),
{
    let s = handle_text(h);
    let rest = h.version + seq![':', ':'] + h.method + meta_text(h.meta);
    assert(s =~= h.plugin + seq!['@'] + rest);
    lemma_find_first_marker(h.plugin, '@', rest);
    assert(find_first(s, '@') == Some(h.plugin.len() as int));
    assert(s.take(h.plugin.len() as int) =~= h.plugin);
    assert(s.skip(h.plugin.len() as int + 1) =~= rest);

    let tail = h.method + meta_text(h.meta);
    lemma_find_double_marker(h.version, ':', tail);
    assert(rest =~= h.version + seq![':', ':'] + tail);
    assert(find_double(rest, ':') == Some(h.version.len() as int));
    assert(rest.take(h.version.len() as int) =~= h.version);
    assert(rest.skip(h.version.len() as int + 2) =~= tail);

    lemma_split_meta(h.method, h.meta);
    assert(split_colons(tail) == seq![h.method] + h.meta);
    assert((seq![h.method] + h.meta)[0] == h.method);
    assert((seq![h.method] + h.meta).drop_first() =~= h.meta);

    assert(parse_text(s) matches Some(p) && p =~~= h);
}

impl Handle {
    /// A handle with the given plugin, version and method, and no metadata.
    pub fn new(plugin: &str, version: &str, method: &str) -> (r: Self)
        ensures
            r@.plugin == plugin@,
            r@.version == version@,
            r@.method == method@,
            r@.meta == Seq::<Seq<char>>::empty(),
    {
        let h = Handle {
            plugin: plugin.to_owned(),
            version: version.to_owned(),
            method: method.to_owned(),
            meta: Vec::new(),
        };
        proof {
            assert(h@.meta =~= Seq::<Seq<char>>::empty());
        }
        h
    }

    /// Replaces the metadata list.
    pub fn with_meta(self, meta: Vec<String>) -> (r: Self)
        ensures
            r@.plugin == self@.plugin,
            r@.version == self@.version,
            r@.method == self@.method,
            r@.meta == meta.deep_view(),
    {
        Handle { meta, ..self }
    }

    /// Appends one metadata entry.
    pub fn push_meta(self, item: &str) -> (r: Self)
        ensures
            r@.plugin == self@.plugin,
            r@.version == self@.version,
            r@.method == self@.method,
            r@.meta == self@.meta.push(item@),
    {
        let mut meta = self.meta;
        let ghost before = meta.deep_view();
        meta.push(item.to_owned());
        proof {
            assert(meta.deep_view() =~~= before.push(item@));
        }
        Handle { meta, ..self }
    }

    /// Whether every field keeps clear of the separators, so that
    /// `parse(display())` returns this handle.
    pub open spec fn well_formed(&self) -> bool {
        valid_handle(self@)
    }

    /// The textual form `plugin@version::method[:meta...]`.
    pub fn display(&self) -> (r: String)
        ensures
            r@ == handle_text(self@),
    {
        let mut out = self.plugin.clone();
        proof {
            reveal_strlit("@");
            reveal_strlit("::");
            reveal_strlit(":");
            assert("@"@ =~= seq!['@']);
            assert("::"@ =~= seq![':', ':']);
            assert(":"@ =~= seq![':']);
        }
        out.append("@");
        out.append(self.version.as_str());
        out.append("::");
        out.append(self.method.as_str());
        let ghost head = self@.plugin + seq!['@'] + self@.version + seq![':', ':'] + self@.method;
        proof {
            assert(out@ =~= head + meta_text(self@.meta.take(0)));
        }
        let mut i: usize = 0;
        while i < self.meta.len()
            invariant
                0 <= i <= self.meta.len(),
                self@.meta.len() == self.meta.len(),
                out@ == head + meta_text(self@.meta.take(i as int)),
            decreases self.meta.len() - i,
        {
            proof {
                reveal_strlit(":");
                assert(":"@ =~= seq![':']);
            }
            out.append(":");
            out.append(self.meta[i].as_str());
            proof {
                assert(self.meta.deep_view()[i as int] == self.meta@[i as int]@);
                lemma_meta_text_push(self@.meta.take(i as int), self@.meta[i as int]);
                assert(self@.meta.take(i as int).push(self@.meta[i as int]) =~~= self@.meta.take(
                    i + 1,
                ));
            }
            i = i + 1;
        }
        proof {
            assert(self@.meta.take(self.meta.len() as int) =~~= self@.meta);
            assert(out@ =~= handle_text(self@));
        }
        out
    }

    /// Parses `plugin@version::method[:meta...]`; fails exactly when an `@`
    /// or `::` separator is missing or the plugin, version or method part is
    /// empty.
    pub fn parse(s: &str) -> (r: Result<Handle, String>)
        ensures
            match r {
                Ok(h) => parse_text(s@) == Some(h@),
                Err(_) => parse_text(s@) is None,
            },
    {
        let n = s.unicode_len();
        let at = match find_char_index(s, '@') {
            Some(i) => i,
            None => {
                return Err(missing_part_message("@", s));
            },
        };
        proof {
            lemma_find_first(s@, '@');
        }
        let rest = s.substring_char(at + 1, n);
        proof {
            assert(rest@ =~= s@.skip(at + 1));
        }
        let restn = rest.unicode_len();
        let v = match find_double_index(rest, ':') {
            Some(v) => v,
            None => {
                return Err(missing_part_message("::", s));
            },
        };
        proof {
            lemma_find_double(rest@, ':');
        }
        let tail = rest.substring_char(v + 2, restn);
        proof {
            assert(tail@ =~= rest@.skip(v + 2));
        }
        let mut parts = split_on_colon(tail);
        let method = parts.remove(0);
        let ghost split = split_colons(tail@);
        proof {
            assert(method@ == split[0]);
            assert(parts.deep_view() =~~= split.drop_first());
        }
        if at == 0 || v == 0 || method.as_str().unicode_len() == 0 {
            return Err(missing_part_message("plugin, version or method", s));
        }
        let plugin = s.substring_char(0, at).to_owned();
        let version = rest.substring_char(0, v).to_owned();
        proof {
            assert(plugin@ =~= s@.take(at as int));
            assert(version@ =~= rest@.take(v as int));
        }
        let h = Handle { plugin, version, method, meta: parts };
        proof {
            assert(parse_text(s@) matches Some(p) && p =~~= h@);
        }
        Ok(h)
    }
}

proof fn lemma_meta_text_push(meta: Seq<Seq<char>>, last: Seq<char>)
    ensures
        meta_text(meta.push(last)) == meta_text(meta) + seq![':'] + last,
    decreases meta.len(),
{
    if meta.len() == 0 {
        assert(meta_text(Seq::<Seq<char>>::empty()) == Seq::<char>::empty());
        assert(meta.push(last).drop_first() =~~= Seq::<Seq<char>>::empty());
        assert(meta.push(last)[0] == last);
        assert(meta_text(meta.push(last)) =~= seq![':'] + last);
        assert(meta_text(meta) + seq![':'] + last =~= seq![':'] + last);
    } else {
        lemma_meta_text_push(meta.drop_first(), last);
        assert(meta.push(last).drop_first() =~~= meta.drop_first().push(last));
        assert(meta.push(last)[0] == meta[0]);
        assert(meta_text(meta.push(last)) =~= seq![':'] + meta[0] + (meta_text(meta.drop_first())
            + seq![':'] + last));
        assert(meta_text(meta) + seq![':'] + last =~= seq![':'] + meta[0] + (meta_text(
            meta.drop_first(),
        ) + seq![':'] + last));
    }
}

/// The parts of `s` between its colons, left to right.
fn split_on_colon(s: &str) -> (r: Vec<String>)
    ensures
        r.deep_view() == split_colons(s@),
        r.len() >= 1,
{
    let n = s.unicode_len();
    let mut parts: Vec<String> = Vec::new();
    let mut start: usize = 0;
    let mut k: usize = 0;
    proof {
        assert(s@.skip(0) =~= s@);
        assert(parts.deep_view() + split_colons(s@) =~~= split_colons(s@));
    }
    while k < n
        invariant
            n == s@.len(),
            0 <= start <= k <= n,
            split_colons(s@) == parts.deep_view() + split_colons(s@.skip(start as int)),
            forall|j: int| start <= j < k ==> s@[j] != ':',
        decreases n - k,
    {
        if s.get_char(k) == ':' {
            let seg = s.substring_char(start, k).to_owned();
            let ghost before = parts.deep_view();
            parts.push(seg);
            proof {
                let segv = s@.subrange(start as int, k as int);
                assert(seg@ == segv);
                assert(!segv.contains(':')) by {
                    assert(forall|j: int| 0 <= j < segv.len() ==> segv[j] == s@[start + j]);
                }
                lemma_split_colons_marker(segv, s@.skip(k + 1));
                assert(s@.skip(start as int) =~= segv + seq![':'] + s@.skip(k + 1));
                assert(parts.deep_view() =~~= before.push(segv));
                assert(parts.deep_view() + split_colons(s@.skip(k + 1)) =~~= before + (seq![segv]
                    + split_colons(s@.skip(k + 1))));
            }
            start = k + 1;
        }
        k = k + 1;
    }
    let seg = s.substring_char(start, n).to_owned();
    let ghost before = parts.deep_view();
    parts.push(seg);
    proof {
        let segv = s@.subrange(start as int, n as int);
        assert(seg@ == segv);
        assert(!segv.contains(':')) by {
            assert(forall|j: int| 0 <= j < segv.len() ==> segv[j] == s@[start + j]);
        }
        assert(s@.skip(start as int) =~= segv);
        lemma_split_colons_free(segv);
        assert(parts.deep_view() =~~= before.push(segv));
        assert(before + split_colons(segv) =~~= before.push(segv));
        assert(parts.deep_view() =~~= split_colons(s@));
    }
    parts
}

/// An error message naming the part of the handle grammar that was missing.
fn missing_part_message(what: &str, s: &str) -> (r: String)
{
    let mut out = String::new();
    out.append("invalid handle, missing ");
    out.append(what);
    out.append(": ");
    out.append(s);
    out
}

} // verus!
