//! The stream envelope: the one type that crosses the wire.
//!
//! Every activation event is wrapped into an envelope carrying metadata:
//! the provenance (the hop names the call passed through), the plexus hash,
//! and a timestamp. A stream is closed by exactly one terminal envelope,
//! `Done` or a non-recoverable `Error`.

use vstd::prelude::*;

verus! {

/// The mathematical content of envelope metadata.
#[verifier::ext_equal]
pub struct MetadataView {
    pub provenance: Seq<Seq<char>>,
    pub plexus_hash: Seq<char>,
    pub timestamp: int,
}

/// Metadata attached by the wrapping layer to every envelope.
#[derive(Debug, Clone, PartialEq, Eq)]
pub struct StreamMetadata {
    /// Call path through the system, e.g. `["plexus", "health"]`.
    pub provenance: Vec<String>,
    /// Hash of the plexus configuration, for cache invalidation.
    pub plexus_hash: String,
    /// Seconds since the Unix epoch when the envelope was built.
    pub timestamp: i64,
}

impl View for StreamMetadata {
    type V = MetadataView;

    open spec fn view(&self) -> MetadataView {
        MetadataView {
            provenance: self.provenance.deep_view(),
            plexus_hash: self.plexus_hash@,
            timestamp: self.timestamp as int,
        }
    }
}

/// Relies on `chrono::Utc::now` and `DateTime::timestamp`: the current time
/// as non-leap seconds since the Unix epoch. Nothing is promised of the
/// value; it depends on the clock.
#[verifier::external_body]
fn unix_now_seconds() -> i64 {
    chrono::Utc::now().timestamp()
}

impl StreamMetadata {
    /// Metadata carrying the given provenance and hash, stamped with the
    /// current clock reading.
    pub fn new(provenance: Vec<String>, plexus_hash: String) -> (r: Self)
        ensures
            r@.provenance == provenance.deep_view(),
            r@.plexus_hash == plexus_hash@,
    {
        StreamMetadata { provenance, plexus_hash, timestamp: unix_now_seconds() }
    }

    /// Appends one hop name to the provenance, keeping everything already
    /// there: the provenance grows by exactly one entry and never shrinks.
    pub fn push_hop(&mut self, hop: &str)
        ensures
            final(self)@.provenance == old(self)@.provenance.push(hop@),
            final(self)@.plexus_hash == old(self)@.plexus_hash,
            final(self)@.timestamp == old(self)@.timestamp,
    {
        let ghost before = self.provenance.deep_view();
        self.provenance.push(hop.to_owned());
        proof {
            assert(self.provenance.deep_view() =~~= before.push(hop@));
        }
    }
}

/// The mathematical content of a stream envelope.
#[verifier::ext_equal]
pub enum ItemView {
    Data { metadata: MetadataView, content_type: Seq<char>, content: Seq<char> },
    Progress { metadata: MetadataView, message: Seq<char>, percentage: Option<u8> },
    Error {
        metadata: MetadataView,
        message: Seq<char>,
        code: Option<Seq<char>>,
        recoverable: bool,
    },
    Done { metadata: MetadataView },
    Request { request_id: Seq<char>, request_data: Seq<char>, timeout_ms: u64 },
}

/// The uniform stream envelope. `content` and `request_data` hold the JSON
/// text of the payload, which the routing layer carries without reading.
#[derive(Debug, Clone, PartialEq, Eq)]
pub enum PlexusStreamItem {
    /// An activation event, opaque to the router.
    Data { metadata: StreamMetadata, content_type: String, content: String },
    /// Human-facing progress; the percentage, when present, is 0 to 100.
    Progress { metadata: StreamMetadata, message: String, percentage: Option<u8> },
    /// A failure inside the stream; non-recoverable errors are terminal.
    Error { metadata: StreamMetadata, message: String, code: Option<String>, recoverable: bool },
    /// Terminal success marker.
    Done { metadata: StreamMetadata },
    /// A server-initiated request, answered out of band under `request_id`.
    Request { request_id: String, request_data: String, timeout_ms: u64 },
}

impl View for PlexusStreamItem {
    type V = ItemView;

    open spec fn view(&self) -> ItemView {
        match self {
            PlexusStreamItem::Data { metadata, content_type, content } => ItemView::Data {
                metadata: metadata@,
                content_type: content_type@,
                content: content@,
            },
            PlexusStreamItem::Progress { metadata, message, percentage } => ItemView::Progress {
                metadata: metadata@,
                message: message@,
                percentage: *percentage,
            },
            PlexusStreamItem::Error { metadata, message, code, recoverable } => ItemView::Error {
                metadata: metadata@,
                message: message@,
                code: code.deep_view(),
                recoverable: *recoverable,
            },
            PlexusStreamItem::Done { metadata } => ItemView::Done { metadata: metadata@ },
            PlexusStreamItem::Request { request_id, request_data, timeout_ms } => {
                ItemView::Request {
                    request_id: request_id@,
                    request_data: request_data@,
                    timeout_ms: *timeout_ms,
                }
            },
        }
    }
}

impl DeepView for PlexusStreamItem {
    type V = ItemView;

    open spec fn deep_view(&self) -> ItemView {
        self.view()
    }
}

/// Terminal envelopes close a stream: `Done`, or an `Error` that is not
/// recoverable.
pub open spec fn is_terminal_item(item: ItemView) -> bool {
    match item {
        ItemView::Done { .. } => true,
        ItemView::Error { recoverable, .. } => !recoverable,
        _ => false,
    }
}

impl PlexusStreamItem {
    /// Builds a `Data` envelope.
    pub fn data(metadata: StreamMetadata, content_type: String, content: String) -> (r: Self)
        ensures
            r@ == (ItemView::Data {
                metadata: metadata@,
                content_type: content_type@,
                content: content@,
            }),
    {
        PlexusStreamItem::Data { metadata, content_type, content }
    }

    /// Builds a `Progress` envelope.
    pub fn progress(metadata: StreamMetadata, message: String, percentage: Option<u8>) -> (r: Self)
        ensures
            r@ == (ItemView::Progress {
                metadata: metadata@,
                message: message@,
                percentage: percentage,
            }),
    {
        PlexusStreamItem::Progress { metadata, message, percentage }
    }

    /// Builds an `Error` envelope.
    pub fn error(
        metadata: StreamMetadata,
        message: String,
        code: Option<String>,
        recoverable: bool,
    ) -> (r: Self)
        ensures
            r@ == (ItemView::Error {
                metadata: metadata@,
                message: message@,
                code: code.deep_view(),
                recoverable: recoverable,
            }),
    {
        PlexusStreamItem::Error { metadata, message, code, recoverable }
    }

    /// Builds a `Done` envelope.
    pub fn done(metadata: StreamMetadata) -> (r: Self)
        ensures
            r@ == (ItemView::Done { metadata: metadata@ }),
    {
        PlexusStreamItem::Done { metadata }
    }

    /// Whether this envelope closes its stream.
    pub fn is_terminal(&self) -> (r: bool)
        ensures
            r == is_terminal_item(self@),
    {
        match self {
            PlexusStreamItem::Done { .. } => true,
            PlexusStreamItem::Error { recoverable, .. } => !*recoverable,
            _ => false,
        }
    }

    /// Extends the provenance of an enveloped item by one hop, never
    /// replacing what the child recorded. A `Request` carries no metadata
    /// and passes through unchanged.
    pub fn push_hop(&mut self, hop: &str)
        ensures
            item_with_hop(old(self)@, hop@) == final(self)@,
    {
        match self {
            PlexusStreamItem::Data { metadata, .. } => metadata.push_hop(hop),
            PlexusStreamItem::Progress { metadata, .. } => metadata.push_hop(hop),
            PlexusStreamItem::Error { metadata, .. } => metadata.push_hop(hop),
            PlexusStreamItem::Done { metadata } => metadata.push_hop(hop),
            PlexusStreamItem::Request { .. } => (),
        }
        proof {
            assert(item_with_hop(old(self)@, hop@) =~~= self@);
        }
    }
}

/// Metadata with one hop appended.
pub open spec fn meta_with_hop(m: MetadataView, hop: Seq<char>) -> MetadataView {
    MetadataView { provenance: m.provenance.push(hop), ..m }
}

/// An envelope after its provenance gained one hop; the provenance length
/// grows by exactly one on every enveloped variant.
pub open spec fn item_with_hop(item: ItemView, hop: Seq<char>) -> ItemView {
    match item {
        ItemView::Data { metadata, content_type, content } => ItemView::Data {
            metadata: meta_with_hop(metadata, hop),
            content_type,
            content,
        },
        ItemView::Progress { metadata, message, percentage } => ItemView::Progress {
            metadata: meta_with_hop(metadata, hop),
            message,
            percentage,
        },
        ItemView::Error { metadata, message, code, recoverable } => ItemView::Error {
            metadata: meta_with_hop(metadata, hop),
            message,
            code,
            recoverable,
        },
        ItemView::Done { metadata } => ItemView::Done { metadata: meta_with_hop(metadata, hop) },
        ItemView::Request { request_id, request_data, timeout_ms } => ItemView::Request {
            request_id,
            request_data,
            timeout_ms,
        },
    }
}

/// Extending by a hop grows the provenance of every enveloped item by
/// exactly one entry and keeps all earlier entries, so provenance never
/// shrinks; a `Request` carries no provenance and is unchanged.
pub proof fn lemma_hop_extends_provenance(item: ItemView, hop: Seq<char>)
    ensures
        match item_with_hop(item, hop) {
            ItemView::Data { metadata, .. } => (item matches ItemView::Data { metadata: m, .. }
                && metadata.provenance.len() == m.provenance.len() + 1 && metadata.provenance.take(
                m.provenance.len() as int,
            ) == m.provenance),
            ItemView::Progress { metadata, .. } => (item matches ItemView::Progress {
                metadata: m,
                ..
            } && metadata.provenance.len() == m.provenance.len() + 1 && metadata.provenance.take(
                m.provenance.len() as int,
            ) == m.provenance),
            ItemView::Error { metadata, .. } => (item matches ItemView::Error { metadata: m, .. }
                && metadata.provenance.len() == m.provenance.len() + 1 && metadata.provenance.take(
                m.provenance.len() as int,
            ) == m.provenance),
            ItemView::Done { metadata } => (item matches ItemView::Done { metadata: m }
                && metadata.provenance.len() == m.provenance.len() + 1 && metadata.provenance.take(
                m.provenance.len() as int,
            ) == m.provenance),
            ItemView::Request { .. } => item_with_hop(item, hop) == item,
        },
{
    match item {
        ItemView::Data { metadata, .. } => {
            assert(metadata.provenance.push(hop).take(metadata.provenance.len() as int)
                =~= metadata.provenance);
        },
        ItemView::Progress { metadata, .. } => {
            assert(metadata.provenance.push(hop).take(metadata.provenance.len() as int)
                =~= metadata.provenance);
        },
        ItemView::Error { metadata, .. } => {
            assert(metadata.provenance.push(hop).take(metadata.provenance.len() as int)
                =~= metadata.provenance);
        },
        ItemView::Done { metadata } => {
            assert(metadata.provenance.push(hop).take(metadata.provenance.len() as int)
                =~= metadata.provenance);
        },
        ItemView::Request { .. } => {
        },
    }
}

} // verus!
