//! Wrapping activation event streams into envelope streams.
//!
//! Activations yield typed events; the caller wraps each one into a `Data`
//! envelope and closes the stream with exactly one terminal item. Streams
//! are handled here as the finite sequences of items they deliver; the
//! transport layer drives them item by item with the same functions.

use vstd::prelude::*;

use crate::envelope::{
    is_terminal_item, item_with_hop, ItemView, MetadataView, PlexusStreamItem, StreamMetadata,
};

verus! {

/// Envelope sequences produced by the adapter: every item up to the last is
/// non-terminal, and the last one is terminal — so the stream holds exactly
/// one terminal item, in final position.
pub open spec fn well_framed(items: Seq<ItemView>) -> bool {
    &&& items.len() > 0
    &&& is_terminal_item(items.last())
    &&& forall|i: int| 0 <= i < items.len() - 1 ==> !is_terminal_item(#[trigger] items[i])
}

/// Wraps each serialized event into a `Data` envelope with the given content
/// type, provenance and hash. No terminal item is added.
pub fn wrap_stream(
    events: Vec<String>,
    content_type: &str,
    provenance: Vec<String>,
    plexus_hash: &str,
) -> (r: Vec<PlexusStreamItem>)
    ensures
        r.len() == events.len(),
        forall|i: int|
            0 <= i < events.len() ==> (#[trigger] r@[i]@ matches ItemView::Data {
                metadata,
                content_type: ct,
                content,
            } && metadata.provenance == provenance.deep_view() && metadata.plexus_hash
                == plexus_hash@ && ct == content_type@ && content == events.deep_view()[i]),
        forall|i: int| 0 <= i < r.len() ==> !is_terminal_item(#[trigger] r@[i]@),
{
    let mut out: Vec<PlexusStreamItem> = Vec::new();
    let mut k: usize = 0;
    while k < events.len()
        invariant
            0 <= k <= events.len(),
            out.len() == k,
            forall|i: int|
                0 <= i < k ==> (#[trigger] out@[i]@ matches ItemView::Data {
                    metadata,
                    content_type: ct,
                    content,
                } && metadata.provenance == provenance.deep_view() && metadata.plexus_hash
                    == plexus_hash@ && ct == content_type@ && content == events.deep_view()[i]),
            forall|i: int| 0 <= i < k ==> !is_terminal_item(#[trigger] out@[i]@),
        decreases events.len() - k,
    {
        let metadata = StreamMetadata::new(provenance.clone(), plexus_hash.to_owned());
        let item = PlexusStreamItem::data(
            metadata,
            content_type.to_owned(),
            events[k].clone(),
        );
        proof {
            assert(events.deep_view()[k as int] == events@[k as int]@);
        }
        out.push(item);
        k = k + 1;
    }
    out
}

/// Wraps each serialized event into a `Data` envelope and appends one `Done`
/// envelope, yielding a well-framed stream: exactly one terminal item, last.
pub fn wrap_stream_with_done(
    events: Vec<String>,
    content_type: &str,
    provenance: Vec<String>,
    plexus_hash: &str,
) -> (r: Vec<PlexusStreamItem>)
    ensures
        r.len() == events.len() + 1,
        forall|i: int|
            0 <= i < events.len() ==> (#[trigger] r@[i]@ matches ItemView::Data {
                metadata,
                content_type: ct,
                content,
            } && metadata.provenance == provenance.deep_view() && metadata.plexus_hash
                == plexus_hash@ && ct == content_type@ && content == events.deep_view()[i]),
        r@.last()@ matches ItemView::Done { metadata } && metadata.provenance
            == provenance.deep_view() && metadata.plexus_hash == plexus_hash@,
        well_framed(r.deep_view()),
{
    let metadata = StreamMetadata::new(provenance.clone(), plexus_hash.to_owned());
    let mut out = wrap_stream(events, content_type, provenance, plexus_hash);
    out.push(PlexusStreamItem::done(metadata));
    proof {
        let v = out.deep_view();
        assert(forall|i: int| 0 <= i < v.len() ==> v[i] == out@[i]@);
        assert(is_terminal_item(v.last()));
        assert(forall|i: int| 0 <= i < v.len() - 1 ==> !is_terminal_item(#[trigger] v[i]));
    }
    out
}

/// A single-item stream holding one `Error` envelope without a code.
pub fn error_stream(
    message: String,
    provenance: Vec<String>,
    plexus_hash: &str,
    recoverable: bool,
) -> (r: Vec<PlexusStreamItem>)
    ensures
        r.len() == 1,
        r@[0]@ matches ItemView::Error { metadata, message: m, code, recoverable: rec }
            && metadata.provenance == provenance.deep_view() && metadata.plexus_hash
            == plexus_hash@ && m == message@ && code is None && rec == recoverable,
{
    let metadata = StreamMetadata::new(provenance, plexus_hash.to_owned());
    let mut out: Vec<PlexusStreamItem> = Vec::new();
    out.push(PlexusStreamItem::error(metadata, message, None, recoverable));
    out
}

/// A single-item stream holding one `Error` envelope with a code.
pub fn error_stream_with_code(
    message: String,
    code: String,
    provenance: Vec<String>,
    plexus_hash: &str,
    recoverable: bool,
) -> (r: Vec<PlexusStreamItem>)
    ensures
        r.len() == 1,
        r@[0]@ matches ItemView::Error { metadata, message: m, code: c, recoverable: rec }
            && metadata.provenance == provenance.deep_view() && metadata.plexus_hash
            == plexus_hash@ && m == message@ && c == Some(code@) && rec == recoverable,
{
    let metadata = StreamMetadata::new(provenance, plexus_hash.to_owned());
    let mut out: Vec<PlexusStreamItem> = Vec::new();
    out.push(PlexusStreamItem::error(metadata, message, Some(code), recoverable));
    out
}

/// A single-item stream holding one `Done` envelope.
pub fn done_stream(provenance: Vec<String>, plexus_hash: &str) -> (r: Vec<PlexusStreamItem>)
    ensures
        r.len() == 1,
        r@[0]@ matches ItemView::Done { metadata } && metadata.provenance
            == provenance.deep_view() && metadata.plexus_hash == plexus_hash@,
{
    let metadata = StreamMetadata::new(provenance, plexus_hash.to_owned());
    let mut out: Vec<PlexusStreamItem> = Vec::new();
    out.push(PlexusStreamItem::done(metadata));
    out
}

/// A single-item stream holding one `Progress` envelope.
pub fn progress_stream(
    message: String,
    percentage: Option<u8>,
    provenance: Vec<String>,
    plexus_hash: &str,
) -> (r: Vec<PlexusStreamItem>)
    ensures
        r.len() == 1,
        r@[0]@ matches ItemView::Progress { metadata, message: m, percentage: p }
            && metadata.provenance == provenance.deep_view() && metadata.plexus_hash
            == plexus_hash@ && m == message@ && p == percentage,
{
    let metadata = StreamMetadata::new(provenance, plexus_hash.to_owned());
    let mut out: Vec<PlexusStreamItem> = Vec::new();
    out.push(PlexusStreamItem::progress(metadata, message, percentage));
    out
}

/// Extends the provenance of every item of a child stream by one hop: each
/// enveloped item gains exactly one entry at the end of its provenance, and
/// no provenance ever shrinks.
pub fn extend_hop(items: &mut Vec<PlexusStreamItem>, hop: &str)
    ensures
        final(items).len() == old(items).len(),
        forall|i: int|
            0 <= i < old(items).len() ==> final(items)@[i]@ == item_with_hop(
                #[trigger] old(items)@[i]@,
                hop@,
            ),
{
    let n = items.len();
    let mut k: usize = 0;
    while k < n
        invariant
            0 <= k <= n,
            n == items.len(),
            n == old(items).len(),
            forall|i: int|
                0 <= i < k ==> items@[i]@ == item_with_hop(#[trigger] old(items)@[i]@, hop@),
            forall|i: int| k <= i < n ==> items@[i] == #[trigger] old(items)@[i],
        decreases n - k,
    {
        let item = &mut items[k];
        item.push_hop(hop);
        k = k + 1;
    }
}

/// Appends a synthetic `Done` envelope when the stream does not already end
/// in a terminal item, so the terminal invariant holds on the wire even if
/// the child violated it.
pub fn ensure_terminal(
    items: &mut Vec<PlexusStreamItem>,
    provenance: Vec<String>,
    plexus_hash: &str,
)
    ensures
        old(items).len() > 0 && is_terminal_item(old(items)@.last()@) ==> final(items)@ == old(
            items,
        )@,
        !(old(items).len() > 0 && is_terminal_item(old(items)@.last()@)) ==> {
            &&& final(items).len() == old(items).len() + 1
            &&& forall|i: int|
                0 <= i < old(items).len() ==> final(items)@[i] == #[trigger] old(items)@[i]
            &&& is_terminal_item(final(items)@.last()@)
        },
        final(items).len() > 0 && is_terminal_item(final(items)@.last()@),
{
    let n = items.len();
    let needs_done = if n == 0 {
        true
    } else {
        !items[n - 1].is_terminal()
    };
    if needs_done {
        let metadata = StreamMetadata::new(provenance, plexus_hash.to_owned());
        items.push(PlexusStreamItem::done(metadata));
    } else {
        proof {
            assert(items@ =~= old(items)@);
        }
    }
}

} // verus!
