//! The bidirectional channel: server-to-client requests over the outbound
//! stream, correlated by request id.
//!
//! A running method may interrogate its caller (confirm, prompt, select).
//! Each outgoing request gets a fresh id, enters the pending registry, and
//! leaves it exactly once — on the response or on the timeout. The waiting
//! itself is transport work; what is decided here is what enters the wire,
//! what the registry holds, and what every possible answer means.

use vstd::prelude::*;
use vstd::string::*;

use crate::envelope::{ItemView, PlexusStreamItem};
use crate::jsontext::{dec_u64, json_string, u64_to_dec, write_json_string};
use crate::strutil::push_char;

verus! {

/// One choice offered by a `Select` request.
#[derive(Debug, Clone, PartialEq, Eq)]
pub struct SelectOption {
    pub value: String,
    pub label: String,
    pub description: Option<String>,
}

/// The mathematical content of a select option.
#[verifier::ext_equal]
pub struct OptionView {
    pub value: Seq<char>,
    pub label: Seq<char>,
    pub description: Option<Seq<char>>,
}

impl View for SelectOption {
    type V = OptionView;

    open spec fn view(&self) -> OptionView {
        OptionView {
            value: self.value@,
            label: self.label@,
            description: self.description.deep_view(),
        }
    }
}

impl DeepView for SelectOption {
    type V = OptionView;

    open spec fn deep_view(&self) -> OptionView {
        self.view()
    }
}

impl SelectOption {
    /// An option with a value and a label and no description.
    pub fn new(value: &str, label: &str) -> (r: Self)
        ensures
            r@.value == value@,
            r@.label == label@,
            r@.description is None,
    {
        SelectOption { value: value.to_owned(), label: label.to_owned(), description: None }
    }

    /// The same option with a description.
    pub fn with_description(self, description: &str) -> (r: Self)
        ensures
            r@.value == self@.value,
            r@.label == self@.label,
            r@.description == Some(description@),
    {
        SelectOption { description: Some(description.to_owned()), ..self }
    }
}

/// A server-to-client request of the standard channel.
#[derive(Debug, Clone, PartialEq, Eq)]
pub enum StandardRequest {
    /// A yes/no question.
    Confirm { message: String, default: Option<bool> },
    /// A free-text question.
    Prompt { message: String, default: Option<String>, placeholder: Option<String> },
    /// A choice among options.
    Select { message: String, options: Vec<SelectOption>, multi_select: bool },
}

/// The mathematical content of a standard request.
#[verifier::ext_equal]
pub enum RequestView {
    Confirm { message: Seq<char>, default: Option<bool> },
    Prompt { message: Seq<char>, default: Option<Seq<char>>, placeholder: Option<Seq<char>> },
    Select { message: Seq<char>, options: Seq<OptionView>, multi_select: bool },
}

impl View for StandardRequest {
    type V = RequestView;

    open spec fn view(&self) -> RequestView {
        match self {
            StandardRequest::Confirm { message, default } => RequestView::Confirm {
                message: message@,
                default: *default,
            },
            StandardRequest::Prompt { message, default, placeholder } => RequestView::Prompt {
                message: message@,
                default: default.deep_view(),
                placeholder: placeholder.deep_view(),
            },
            StandardRequest::Select { message, options, multi_select } => RequestView::Select {
                message: message@,
                options: options.deep_view(),
                multi_select: *multi_select,
            },
        }
    }
}

/// A client answer on the standard channel. `Cancelled` is a legitimate
/// answer, not a transport failure.
#[derive(Debug, Clone, PartialEq, Eq)]
pub enum StandardResponse {
    Confirmed(bool),
    Text(String),
    Selected(Vec<String>),
    Cancelled,
}

/// Bidirectional failures.
#[derive(Debug, Clone, PartialEq, Eq)]
pub enum BidirError {
    /// The transport cannot carry server-to-client requests.
    NotSupported,
    /// The client cancelled the request.
    Cancelled,
    /// No response arrived within the given milliseconds.
    Timeout(u64),
    /// The response did not decode to the expected shape.
    TypeMismatch { expected: String, got: String },
    /// The request id is not pending.
    UnknownRequest,
    /// The transport failed.
    Transport(String),
}

/// The JSON text of a boolean.
pub open spec fn bool_text(b: bool) -> Seq<char> {
    if b {
        "true"@
    } else {
        "false"@
    }
}

/// The JSON text of one select option.
pub open spec fn option_json(o: OptionView) -> Seq<char> {
    "{\"value\":"@ + json_string(o.value) + ",\"label\":"@ + json_string(o.label) + (match o
        .description {
        Some(d) => ",\"description\":"@ + json_string(d),
        None => Seq::<char>::empty(),
    }) + "}"@
}

/// The JSON text of a list of select options.
pub open spec fn options_json(opts: Seq<OptionView>) -> Seq<char>
    decreases opts.len(),
{
    if opts.len() == 0 {
        Seq::empty()
    } else if opts.len() == 1 {
        option_json(opts[0])
    } else {
        option_json(opts[0]) + seq![','] + options_json(opts.drop_first())
    }
}

/// The JSON text of a standard request: a `type`-tagged object with the
/// variant's fields, optional fields left out when absent.
pub open spec fn request_json(r: RequestView) -> Seq<char> {
    match r {
        RequestView::Confirm { message, default } => "{\"type\":\"confirm\",\"message\":"@
            + json_string(message) + (match default {
            Some(b) => ",\"default\":"@ + bool_text(b),
            None => Seq::<char>::empty(),
        }) + "}"@,
        RequestView::Prompt { message, default, placeholder } => {
            "{\"type\":\"prompt\",\"message\":"@ + json_string(message) + (match default {
                Some(d) => ",\"default\":"@ + json_string(d),
                None => Seq::<char>::empty(),
            }) + (match placeholder {
                Some(p) => ",\"placeholder\":"@ + json_string(p),
                None => Seq::<char>::empty(),
            }) + "}"@
        },
        RequestView::Select { message, options, multi_select } => {
            "{\"type\":\"select\",\"message\":"@ + json_string(message) + ",\"options\":["@
                + options_json(options) + "],\"multi_select\":"@ + bool_text(multi_select) + "}"@
        },
    }
}

proof fn lemma_options_json_push(opts: Seq<OptionView>, o: OptionView)
    requires
        opts.len() > 0,
    ensures
        options_json(opts.push(o)) == options_json(opts) + seq![','] + option_json(o),
    decreases opts.len(),
{
    if opts.len() == 1 {
        assert(opts.push(o)[0] == opts[0]);
        assert(opts.push(o).drop_first() =~~= seq![o]);
        assert(options_json(seq![o]) == option_json(o));
        assert(options_json(opts.push(o)) =~= options_json(opts) + seq![','] + option_json(o));
    } else {
        lemma_options_json_push(opts.drop_first(), o);
        assert(opts.push(o)[0] == opts[0]);
        assert(opts.push(o).drop_first() =~~= opts.drop_first().push(o));
        assert(options_json(opts.push(o)) =~= option_json(opts[0]) + seq![','] + (options_json(
            opts.drop_first(),
        ) + seq![','] + option_json(o)));
        assert(options_json(opts) + seq![','] + option_json(o) =~= option_json(opts[0]) + seq![',']
            + (options_json(opts.drop_first()) + seq![','] + option_json(o)));
    }
}

/// Appends the JSON text of one select option.
fn write_option(out: &mut String, o: &SelectOption)
    ensures
        final(out)@ == old(out)@ + option_json(o@),
{
    out.append("{\"value\":");
    write_json_string(out, o.value.as_str());
    out.append(",\"label\":");
    write_json_string(out, o.label.as_str());
    match &o.description {
        Some(d) => {
            out.append(",\"description\":");
            write_json_string(out, d.as_str());
        },
        None => (),
    }
    out.append("}");
    proof {
        assert(out@ =~= old(out)@ + option_json(o@));
    }
}

/// Renders a standard request as JSON text.
pub fn encode_standard_request(req: &StandardRequest) -> (r: String)
    ensures
        r@ == request_json(req@),
{
    let mut out = String::new();
    match req {
        StandardRequest::Confirm { message, default } => {
            out.append("{\"type\":\"confirm\",\"message\":");
            write_json_string(&mut out, message.as_str());
            match default {
                Some(b) => {
                    out.append(",\"default\":");
                    if *b {
                        out.append("true");
                    } else {
                        out.append("false");
                    }
                },
                None => (),
            }
            out.append("}");
            proof {
                assert(out@ =~= request_json(req@));
            }
        },
        StandardRequest::Prompt { message, default, placeholder } => {
            out.append("{\"type\":\"prompt\",\"message\":");
            write_json_string(&mut out, message.as_str());
            match default {
                Some(d) => {
                    out.append(",\"default\":");
                    write_json_string(&mut out, d.as_str());
                },
                None => (),
            }
            match placeholder {
                Some(p) => {
                    out.append(",\"placeholder\":");
                    write_json_string(&mut out, p.as_str());
                },
                None => (),
            }
            out.append("}");
            proof {
                assert(out@ =~= request_json(req@));
            }
        },
        StandardRequest::Select { message, options, multi_select } => {
            out.append("{\"type\":\"select\",\"message\":");
            write_json_string(&mut out, message.as_str());
            out.append(",\"options\":[");
            let ghost head = out@;
            let mut k: usize = 0;
            while k < options.len()
                invariant
                    0 <= k <= options.len(),
                    options.deep_view().len() == options.len(),
                    out@ == head + options_json(options.deep_view().take(k as int)),
                decreases options.len() - k,
            {
                if k > 0 {
                    push_char(&mut out, ',');
                }
                write_option(&mut out, &options[k]);
                proof {
                    let dv = options.deep_view();
                    assert(dv[k as int] == options@[k as int]@);
                    if k == 0 {
                        assert(dv.take(1) =~~= seq![dv[0]]);
                        assert(options_json(dv.take(1)) == option_json(dv[0]));
                        assert(out@ =~= head + options_json(dv.take(1)));
                    } else {
                        lemma_options_json_push(dv.take(k as int), dv[k as int]);
                        assert(dv.take(k as int).push(dv[k as int]) =~~= dv.take(k + 1));
                        assert(out@ =~= head + options_json(dv.take(k + 1)));
                    }
                }
                k = k + 1;
            }
            proof {
                assert(options.deep_view().take(options.len() as int) =~~= options.deep_view());
            }
            out.append("],\"multi_select\":");
            if *multi_select {
                out.append("true");
            } else {
                out.append("false");
            }
            out.append("}");
            proof {
                assert(out@ =~= request_json(req@));
            }
        },
    }
    out
}

/// The ids of requests awaiting a response.
#[derive(Debug)]
pub struct PendingRegistry {
    ids: Vec<String>,
}

impl View for PendingRegistry {
    type V = Seq<Seq<char>>;

    closed spec fn view(&self) -> Seq<Seq<char>> {
        self.ids.deep_view()
    }
}

impl PendingRegistry {
    /// An empty registry.
    pub fn new() -> (r: Self)
        ensures
            r@ == Seq::<Seq<char>>::empty(),
    {
        let r = PendingRegistry { ids: Vec::new() };
        proof {
            assert(r@ =~~= Seq::<Seq<char>>::empty());
        }
        r
    }

    /// Whether `id` is pending.
    pub fn is_request_pending(&self, id: &str) -> (r: bool)
        ensures
            r <==> self@.contains(id@),
    {
        let mut i: usize = 0;
        while i < self.ids.len()
            invariant
                0 <= i <= self.ids.len(),
                forall|j: int| 0 <= j < i ==> #[trigger] self@[j] != id@,
            decreases self.ids.len() - i,
        {
            if crate::strutil::str_eq(self.ids[i].as_str(), id) {
                proof {
                    assert(self@[i as int] == id@);
                }
                return true;
            }
            i = i + 1;
        }
        proof {
            assert(forall|j: int| 0 <= j < self@.len() ==> #[trigger] self@[j] != id@);
        }
        false
    }

    /// Records `id` as pending.
    pub fn insert(&mut self, id: String)
        ensures
            final(self)@ == old(self)@.push(id@),
            final(self)@.contains(id@),
    {
        let ghost before = self@;
        self.ids.push(id);
        proof {
            assert(self@ =~~= before.push(self.ids@[self.ids@.len() - 1]@));
            assert(self@[self@.len() - 1] == self@[self@.len() - 1]);
        }
    }

    /// Removes every entry for `id`; afterwards `id` is pending no more and
    /// every other id is exactly as pending as before.
    pub fn remove(&mut self, id: &str) -> (r: bool)
        ensures
            r <==> old(self)@.contains(id@),
            !r ==> final(self)@ == old(self)@,
            !final(self)@.contains(id@),
            forall|x: Seq<char>| x != id@ ==> (final(self)@.contains(x) <==> old(self)@.contains(x)),
    {
        broadcast use vstd::seq_lib::group_seq_properties;

        let ghost idv = id@;
        let mut out: Vec<String> = Vec::new();
        let mut found = false;
        let mut i: usize = 0;
        proof {
            assert(out.deep_view() =~~= Seq::<Seq<char>>::empty());
            assert(old(self)@.take(0) =~~= Seq::<Seq<char>>::empty());
        }
        while i < self.ids.len()
            invariant
                idv == id@,
                0 <= i <= self.ids.len(),
                self@ == old(self)@,
                self.ids.len() == self@.len(),
                forall|j: int| 0 <= j < out.deep_view().len() ==> #[trigger] out.deep_view()[j] != idv,
                forall|x: Seq<char>|
                    x != idv ==> (out.deep_view().contains(x) <==> old(self)@.take(
                        i as int,
                    ).contains(x)),
                !found ==> out.deep_view() == old(self)@.take(i as int),
                found <==> exists|j: int| 0 <= j < i && #[trigger] old(self)@[j] == idv,
            decreases self.ids.len() - i,
        {
            let ghost taken = old(self)@.take(i as int);
            let ghost elem = self@[i as int];
            let ghost dvb = out.deep_view();
            proof {
                assert(elem == self.ids@[i as int]@);
            }
            let same = crate::strutil::str_eq(self.ids[i].as_str(), id);
            proof {
                assert(same <==> self.ids@[i as int]@ == id@);
            }
            if same {
                found = true;
                proof {
                    assert(elem == idv);
                    assert(taken.push(elem) =~~= old(self)@.take(i + 1));
                    assert forall|x: Seq<char>| x != idv implies (dvb.contains(x) <==> old(
                        self,
                    )@.take(i + 1).contains(x)) by {
                        crate::strutil::lemma_push_contains(taken, elem, x);
                    }
                }
            } else {
                out.push(self.ids[i].clone());
                proof {
                    assert(elem != idv);
                    assert(out.deep_view() =~~= dvb.push(elem));
                    assert(taken.push(elem) =~~= old(self)@.take(i + 1));
                    assert forall|x: Seq<char>| x != idv implies (out.deep_view().contains(x)
                        <==> old(self)@.take(i + 1).contains(x)) by {
                        crate::strutil::lemma_push_contains(dvb, elem, x);
                        crate::strutil::lemma_push_contains(taken, elem, x);
                    }
                    if !found {
                        assert(out.deep_view() =~~= old(self)@.take(i + 1));
                    }
                }
            }
            i = i + 1;
        }
        proof {
            assert(old(self)@.take(self@.len() as int) =~~= old(self)@);
            if found {
                let j = choose|j: int| 0 <= j < self@.len() && #[trigger] old(self)@[j] == idv;
                assert(old(self)@.contains(idv));
            }
            assert forall|x: Seq<char>| out.deep_view().contains(x) implies x != idv by {
                let k = choose|k: int|
                    0 <= k < out.deep_view().len() && out.deep_view()[k] == x;
            }
        }
        self.ids = out;
        found
    }
}

/// The mathematical content of a bidirectional channel.
#[verifier::ext_equal]
pub struct ChannelView {
    pub is_bidirectional: bool,
    pub provenance: Seq<Seq<char>>,
    pub plexus_hash: Seq<char>,
    pub pending: Seq<Seq<char>>,
}

/// The server side of a bidirectional conversation: whether the transport
/// supports it, the call's provenance and hash, and the pending registry.
/// The transport drives the waiting; the channel decides what is sent and
/// what each answer means.
#[derive(Debug)]
pub struct BidirChannel {
    is_bidirectional: bool,
    provenance: Vec<String>,
    plexus_hash: String,
    pending: PendingRegistry,
}

impl View for BidirChannel {
    type V = ChannelView;

    closed spec fn view(&self) -> ChannelView {
        ChannelView {
            is_bidirectional: self.is_bidirectional,
            provenance: self.provenance.deep_view(),
            plexus_hash: self.plexus_hash@,
            pending: self.pending@,
        }
    }
}

impl BidirChannel {
    /// A channel over a transport that does or does not support
    /// server-to-client requests, with no request pending.
    pub fn new(is_bidirectional: bool, provenance: Vec<String>, plexus_hash: String) -> (r: Self)
        ensures
            r@.is_bidirectional == is_bidirectional,
            r@.provenance == provenance.deep_view(),
            r@.plexus_hash == plexus_hash@,
            r@.pending == Seq::<Seq<char>>::empty(),
    {
        BidirChannel {
            is_bidirectional,
            provenance,
            plexus_hash,
            pending: PendingRegistry::new(),
        }
    }

    /// Whether the transport supports server-to-client requests.
    pub fn is_bidirectional(&self) -> (r: bool)
        ensures
            r == self@.is_bidirectional,
    {
        self.is_bidirectional
    }

    /// The call path this channel belongs to.
    pub fn provenance(&self) -> (r: &Vec<String>)
        ensures
            r.deep_view() == self@.provenance,
    {
        &self.provenance
    }

    /// The plexus hash this channel carries.
    pub fn plexus_hash(&self) -> (r: &str)
        ensures
            r@ == self@.plexus_hash,
    {
        self.plexus_hash.as_str()
    }

    /// Whether `id` awaits a response on this channel.
    pub fn is_request_pending(&self, id: &str) -> (r: bool)
        ensures
            r <==> self@.pending.contains(id@),
    {
        self.pending.is_request_pending(id)
    }

    /// Opens a request: on a bidirectional transport the id becomes pending
    /// and the returned envelope carries the id, the request rendered as
    /// JSON, and the timeout; on any other transport nothing changes and
    /// the request fails `NotSupported`.
    pub fn begin_request(&mut self, req: &StandardRequest, timeout_ms: u64, request_id: String)
        -> (r: Result<PlexusStreamItem, BidirError>)
        ensures
            !old(self)@.is_bidirectional ==> r == Err::<PlexusStreamItem, BidirError>(
                BidirError::NotSupported,
            ) && final(self)@ == old(self)@,
            old(self)@.is_bidirectional ==> {
                &&& r matches Ok(item) && item@ == (ItemView::Request {
                    request_id: request_id@,
                    request_data: request_json(req@),
                    timeout_ms: timeout_ms,
                })
                &&& final(self)@.pending == old(self)@.pending.push(request_id@)
                &&& final(self)@.pending.contains(request_id@)
                &&& final(self)@.is_bidirectional == old(self)@.is_bidirectional
                &&& final(self)@.provenance == old(self)@.provenance
                &&& final(self)@.plexus_hash == old(self)@.plexus_hash
            },
    {
        if !self.is_bidirectional {
            proof {
                assert(self@ =~~= old(self)@);
            }
            return Err(BidirError::NotSupported);
        }
        let data = encode_standard_request(req);
        self.pending.insert(request_id.clone());
        Ok(PlexusStreamItem::Request { request_id, request_data: data, timeout_ms })
    }

    /// Delivers a response: an id that is not pending fails
    /// `UnknownRequest` and changes nothing; a pending id leaves the
    /// registry either way, with `TypeMismatch` when the payload did not
    /// decode and the decoded response otherwise.
    pub fn handle_response(&mut self, id: &str, response: Option<StandardResponse>) -> (r: Result<
        StandardResponse,
        BidirError,
    >)
        ensures
            !old(self)@.pending.contains(id@) ==> r == Err::<StandardResponse, BidirError>(
                BidirError::UnknownRequest,
            ) && final(self)@ == old(self)@,
            old(self)@.pending.contains(id@) ==> {
                &&& !final(self)@.pending.contains(id@)
                &&& forall|x: Seq<char>|
                    x != id@ ==> (final(self)@.pending.contains(x) <==> old(
                        self,
                    )@.pending.contains(x))
                &&& match response {
                    Some(v) => r == Ok::<StandardResponse, BidirError>(v),
                    None => r matches Err(BidirError::TypeMismatch { .. }),
                }
                &&& final(self)@.is_bidirectional == old(self)@.is_bidirectional
                &&& final(self)@.provenance == old(self)@.provenance
                &&& final(self)@.plexus_hash == old(self)@.plexus_hash
            },
    {
        let was_pending = self.pending.remove(id);
        if !was_pending {
            proof {
                assert(self@ =~~= old(self)@);
            }
            return Err(BidirError::UnknownRequest);
        }
        proof {
            assert(!self@.pending.contains(id@));
        }
        match response {
            Some(v) => Ok(v),
            None => Err(
                BidirError::TypeMismatch {
                    expected: "StandardResponse".to_owned(),
                    got: "unrecognized payload".to_owned(),
                },
            ),
        }
    }

    /// Closes a request on timeout: the id leaves the registry (it may
    /// already be gone when the response raced the clock) and the caller
    /// gets `Timeout` with the waited milliseconds.
    pub fn expire_request(&mut self, id: &str, timeout_ms: u64) -> (r: BidirError)
        ensures
            r == BidirError::Timeout(timeout_ms),
            !final(self)@.pending.contains(id@),
            forall|x: Seq<char>|
                x != id@ ==> (final(self)@.pending.contains(x) <==> old(self)@.pending.contains(x)),
            final(self)@.is_bidirectional == old(self)@.is_bidirectional,
            final(self)@.provenance == old(self)@.provenance,
            final(self)@.plexus_hash == old(self)@.plexus_hash,
    {
        let _ = self.pending.remove(id);
        BidirError::Timeout(timeout_ms)
    }
}

/// Reads a confirm answer: the boolean on `Confirmed`, `Cancelled` on a
/// cancellation, and `TypeMismatch` on any other response shape.
pub fn confirm_response(res: StandardResponse) -> (r: Result<bool, BidirError>)
    ensures
        match res {
            StandardResponse::Confirmed(b) => r == Ok::<bool, BidirError>(b),
            StandardResponse::Cancelled => r == Err::<bool, BidirError>(BidirError::Cancelled),
            _ => r matches Err(BidirError::TypeMismatch { .. }),
        },
{
    match res {
        StandardResponse::Confirmed(b) => Ok(b),
        StandardResponse::Cancelled => Err(BidirError::Cancelled),
        other => Err(
            BidirError::TypeMismatch { expected: "confirmed".to_owned(), got: kind_name(&other) },
        ),
    }
}

/// Reads a prompt answer: the text on `Text`, `Cancelled` on a
/// cancellation, and `TypeMismatch` on any other response shape.
pub fn prompt_response(res: StandardResponse) -> (r: Result<String, BidirError>)
    ensures
        match res {
            StandardResponse::Text(t) => (r matches Ok(s) && s == t),
            StandardResponse::Cancelled => r == Err::<String, BidirError>(BidirError::Cancelled),
            _ => r matches Err(BidirError::TypeMismatch { .. }),
        },
{
    match res {
        StandardResponse::Text(t) => Ok(t),
        StandardResponse::Cancelled => Err(BidirError::Cancelled),
        other => Err(
            BidirError::TypeMismatch { expected: "text".to_owned(), got: kind_name(&other) },
        ),
    }
}

/// Reads a select answer: the chosen values on `Selected`, `Cancelled` on a
/// cancellation, and `TypeMismatch` on any other response shape.
pub fn select_response(res: StandardResponse) -> (r: Result<Vec<String>, BidirError>)
    ensures
        match res {
            StandardResponse::Selected(v) => (r matches Ok(s) && s == v),
            StandardResponse::Cancelled => r == Err::<Vec<String>, BidirError>(
                BidirError::Cancelled,
            ),
            _ => r matches Err(BidirError::TypeMismatch { .. }),
        },
{
    match res {
        StandardResponse::Selected(v) => Ok(v),
        StandardResponse::Cancelled => Err(BidirError::Cancelled),
        other => Err(
            BidirError::TypeMismatch { expected: "selected".to_owned(), got: kind_name(&other) },
        ),
    }
}

/// The variant name of a response, for mismatch reports.
fn kind_name(res: &StandardResponse) -> (r: String)
{
    match res {
        StandardResponse::Confirmed(_) => "confirmed".to_owned(),
        StandardResponse::Text(_) => "text".to_owned(),
        StandardResponse::Selected(_) => "selected".to_owned(),
        StandardResponse::Cancelled => "cancelled".to_owned(),
    }
}

/// The rendered message of a bidirectional failure.
pub open spec fn bidir_error_text(e: BidirError) -> Seq<char> {
    match e {
        BidirError::NotSupported => "Bidirectional communication not supported"@,
        BidirError::Cancelled => "Request cancelled by user"@,
        BidirError::Timeout(ms) => "Request timed out after "@ + dec_u64(ms) + " ms"@,
        BidirError::TypeMismatch { expected, got } => "Response type mismatch: expected "@
            + expected@ + ", got "@ + got@,
        BidirError::UnknownRequest => "Unknown request id"@,
        BidirError::Transport(msg) => "Transport error: "@ + msg@,
    }
}

/// The human-readable message of a bidirectional failure.
pub fn bidir_error_message(e: &BidirError) -> (r: String)
    ensures
        r@ == bidir_error_text(*e),
{
    match e {
        BidirError::NotSupported => "Bidirectional communication not supported".to_owned(),
        BidirError::Cancelled => "Request cancelled by user".to_owned(),
        BidirError::Timeout(ms) => {
            let mut out = String::new();
            out.append("Request timed out after ");
            let n = u64_to_dec(*ms);
            out.append(n.as_str());
            out.append(" ms");
            proof {
                assert(out@ =~= bidir_error_text(*e));
            }
            out
        },
        BidirError::TypeMismatch { expected, got } => {
            let mut out = String::new();
            out.append("Response type mismatch: expected ");
            out.append(expected.as_str());
            out.append(", got ");
            out.append(got.as_str());
            proof {
                assert(out@ =~= bidir_error_text(*e));
            }
            out
        },
        BidirError::UnknownRequest => "Unknown request id".to_owned(),
        BidirError::Transport(msg) => {
            let mut out = String::new();
            out.append("Transport error: ");
            out.append(msg.as_str());
            proof {
                assert(out@ =~= bidir_error_text(*e));
            }
            out
        },
    }
}

/// Relies on `uuid::Uuid::new_v4` and its `Display`: a random version-4
/// UUID rendered in the hyphenated form, which is 36 characters long.
/// The value is random; nothing relates two calls.
#[verifier::external_body]
pub fn new_request_id() -> (r: String)
    ensures
        r@.len() == 36,
{
    uuid::Uuid::new_v4().to_string()
}

} // verus!
