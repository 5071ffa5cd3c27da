//! The plexus: a registry of activation descriptors, method dispatch, and
//! the configuration hash.
//!
//! The router stores one descriptor per namespace (re-registration under the
//! same namespace replaces the earlier entry), splits `ns.method` calls on
//! the first dot, answers its own four methods under the reserved namespace
//! `plexus`, and derives a 64-bit hash from the registered set that does not
//! depend on registration order.

use vstd::prelude::*;
use vstd::relations::sorted_by;
use vstd::string::*;

use crate::hash64::{fnv1a, fnv1a_hash, hex16, to_hex16};
use crate::order::{lemma_lex_total_ordering, lex_leq_fn, sort_strings};
use crate::strutil::{
    find_char_index, find_first, join_char, join_strings, lemma_find_first, push_char, str_eq,
};

verus! {

/// Routing and dispatch failures.
#[derive(Debug, Clone, PartialEq, Eq)]
pub enum PlexusError {
    /// No activation registered under the namespace.
    ActivationNotFound(String),
    /// The activation exists but has no such method.
    MethodNotFound { activation: String, method: String },
    /// The call itself was malformed.
    InvalidParams(String),
    /// The activation failed while running.
    ExecutionError(String),
    /// The activation does not resolve handles.
    HandleNotSupported(String),
}

/// The mathematical content of a routing error.
#[verifier::ext_equal]
pub enum PlexusErrorView {
    ActivationNotFound { namespace: Seq<char> },
    MethodNotFound { activation: Seq<char>, method: Seq<char> },
    InvalidParams { message: Seq<char> },
    ExecutionError { message: Seq<char> },
    HandleNotSupported { namespace: Seq<char> },
}

impl View for PlexusError {
    type V = PlexusErrorView;

    open spec fn view(&self) -> PlexusErrorView {
        match self {
            PlexusError::ActivationNotFound(ns) => PlexusErrorView::ActivationNotFound {
                namespace: ns@,
            },
            PlexusError::MethodNotFound { activation, method } => PlexusErrorView::MethodNotFound {
                activation: activation@,
                method: method@,
            },
            PlexusError::InvalidParams(m) => PlexusErrorView::InvalidParams { message: m@ },
            PlexusError::ExecutionError(m) => PlexusErrorView::ExecutionError { message: m@ },
            PlexusError::HandleNotSupported(ns) => PlexusErrorView::HandleNotSupported {
                namespace: ns@,
            },
        }
    }
}

/// The rendered message of a routing error.
pub open spec fn plexus_error_text(e: PlexusErrorView) -> Seq<char> {
    match e {
        PlexusErrorView::ActivationNotFound { namespace } => "Activation not found: "@ + namespace,
        PlexusErrorView::MethodNotFound { activation, method } => "Method not found: "@
            + activation + seq!['.'] + method,
        PlexusErrorView::InvalidParams { message } => "Invalid params: "@ + message,
        PlexusErrorView::ExecutionError { message } => "Execution error: "@ + message,
        PlexusErrorView::HandleNotSupported { namespace } => {
            "Handle resolution not supported by activation: "@ + namespace
        },
    }
}

impl PlexusError {
    /// The human-readable message of this error.
    pub fn message(&self) -> (r: String)
        ensures
            r@ == plexus_error_text(self@),
    {
        match self {
            PlexusError::ActivationNotFound(ns) => {
                let mut out = String::new();
                out.append("Activation not found: ");
                out.append(ns.as_str());
                out
            },
            PlexusError::MethodNotFound { activation, method } => {
                let mut out = String::new();
                out.append("Method not found: ");
                out.append(activation.as_str());
                push_char(&mut out, '.');
                out.append(method.as_str());
                out
            },
            PlexusError::InvalidParams(m) => {
                let mut out = String::new();
                out.append("Invalid params: ");
                out.append(m.as_str());
                out
            },
            PlexusError::ExecutionError(m) => {
                let mut out = String::new();
                out.append("Execution error: ");
                out.append(m.as_str());
                out
            },
            PlexusError::HandleNotSupported(ns) => {
                let mut out = String::new();
                out.append("Handle resolution not supported by activation: ");
                out.append(ns.as_str());
                out
            },
        }
    }
}

/// The mathematical content of one method schema.
#[verifier::ext_equal]
pub struct MethodView {
    pub name: Seq<char>,
    pub description: Seq<char>,
    pub has_params: bool,
    pub has_returns: bool,
}

/// Schema of one activation method. The schema documents themselves are
/// opaque JSON values; a missing `params` stands for the empty-object
/// schema.
#[derive(Debug)]
pub struct MethodSchemaInfo {
    pub name: String,
    pub description: String,
    pub params: Option<serde_json::Value>,
    pub returns: Option<serde_json::Value>,
}

impl View for MethodSchemaInfo {
    type V = MethodView;

    open spec fn view(&self) -> MethodView {
        MethodView {
            name: self.name@,
            description: self.description@,
            has_params: self.params is Some,
            has_returns: self.returns is Some,
        }
    }
}

impl DeepView for MethodSchemaInfo {
    type V = MethodView;

    open spec fn deep_view(&self) -> MethodView {
        self.view()
    }
}

impl Clone for MethodSchemaInfo {
    fn clone(&self) -> (r: Self)
        ensures
            r@ == self@,
    {
        MethodSchemaInfo {
            name: self.name.clone(),
            description: self.description.clone(),
            params: match &self.params {
                Some(v) => Some(crate::jsonval::clone_value(v)),
                None => None,
            },
            returns: match &self.returns {
                Some(v) => Some(crate::jsonval::clone_value(v)),
                None => None,
            },
        }
    }
}

/// The mathematical content of one activation descriptor.
#[verifier::ext_equal]
pub struct SchemaView {
    pub namespace: Seq<char>,
    pub version: Seq<char>,
    pub description: Seq<char>,
    pub methods: Seq<MethodView>,
}

/// Descriptor of one activation: identity, description and method schemas.
#[derive(Debug)]
pub struct ActivationFullSchema {
    pub namespace: String,
    pub version: String,
    pub description: String,
    pub methods: Vec<MethodSchemaInfo>,
}

impl View for ActivationFullSchema {
    type V = SchemaView;

    open spec fn view(&self) -> SchemaView {
        SchemaView {
            namespace: self.namespace@,
            version: self.version@,
            description: self.description@,
            methods: self.methods.deep_view(),
        }
    }
}

impl DeepView for ActivationFullSchema {
    type V = SchemaView;

    open spec fn deep_view(&self) -> SchemaView {
        self.view()
    }
}

impl Clone for ActivationFullSchema {
    fn clone(&self) -> (r: Self)
        ensures
            r@ == self@,
    {
        let mut methods: Vec<MethodSchemaInfo> = Vec::new();
        let mut i: usize = 0;
        while i < self.methods.len()
            invariant
                0 <= i <= self.methods.len(),
                methods.len() == i,
                methods.deep_view() == self.methods.deep_view().take(i as int),
            decreases self.methods.len() - i,
        {
            let ghost dvb = methods.deep_view();
            methods.push(self.methods[i].clone());
            proof {
                assert(methods.deep_view() =~~= dvb.push(self.methods.deep_view()[i as int]));
                assert(methods.deep_view() =~~= self.methods.deep_view().take(i + 1));
            }
            i = i + 1;
        }
        proof {
            assert(self.methods.deep_view().take(self.methods.len() as int)
                =~~= self.methods.deep_view());
        }
        let r = ActivationFullSchema {
            namespace: self.namespace.clone(),
            version: self.version.clone(),
            description: self.description.clone(),
            methods,
        };
        proof {
            assert(r@.methods =~~= self@.methods);
        }
        r
    }
}

/// The mathematical content of an activation summary.
#[verifier::ext_equal]
pub struct InfoView {
    pub namespace: Seq<char>,
    pub version: Seq<char>,
    pub description: Seq<char>,
    pub methods: Seq<Seq<char>>,
}

/// Summary of one activation: identity and plain method names.
#[derive(Debug, Clone, PartialEq, Eq)]
pub struct ActivationInfo {
    pub namespace: String,
    pub version: String,
    pub description: String,
    pub methods: Vec<String>,
}

impl View for ActivationInfo {
    type V = InfoView;

    open spec fn view(&self) -> InfoView {
        InfoView {
            namespace: self.namespace@,
            version: self.version@,
            description: self.description@,
            methods: self.methods.deep_view(),
        }
    }
}

/// Event yielded by `plexus.hash`.
#[derive(Debug, Clone, PartialEq, Eq)]
pub enum HashEvent {
    Hash { value: String },
}

/// Event yielded by `plexus.list_activations`, one per activation.
#[derive(Debug, Clone, PartialEq, Eq)]
pub enum ListActivationsEvent {
    Activation { namespace: String, version: String, description: String, methods: Vec<String> },
}

/// Event yielded by `plexus.schema`.
#[derive(Debug, Clone)]
pub enum SchemaEvent {
    Schema { activations: Vec<ActivationInfo>, total_methods: usize },
}

/// Parameters of the router's own `call` method.
#[derive(Debug)]
pub struct CallParams {
    pub method: String,
    pub params: serde_json::Value,
}

/// The router's own method set.
#[derive(Debug)]
pub enum PlexusMethod {
    Call(CallParams),
    Hash,
    ListActivations,
    Schema,
}

/// Help text of the router's own methods, by bare method name.
pub open spec fn own_method_description(m: Seq<char>) -> Option<Seq<char>> {
    if m == "call"@ {
        Some("Route a call to a registered activation"@)
    } else if m == "hash"@ {
        Some("Get plexus configuration hash"@)
    } else if m == "list_activations"@ {
        Some("List all registered activations"@)
    } else if m == "schema"@ {
        Some("Get full plexus schema"@)
    } else {
        None
    }
}

impl PlexusMethod {
    /// Help text for the router's own methods.
    pub fn description(method: &str) -> (r: Option<&'static str>)
        ensures
            match r {
                Some(s) => own_method_description(method@) == Some(s@),
                None => own_method_description(method@) is None,
            },
    {
        if str_eq(method, "call") {
            Some("Route a call to a registered activation")
        } else if str_eq(method, "hash") {
            Some("Get plexus configuration hash")
        } else if str_eq(method, "list_activations") {
            Some("List all registered activations")
        } else if str_eq(method, "schema") {
            Some("Get full plexus schema")
        } else {
            None
        }
    }
}

/// Where a call routes to.
#[derive(Debug, Clone, PartialEq, Eq)]
pub enum RouteTarget {
    /// One of the router's own methods, by bare name.
    PlexusOwn { method: String },
    /// A registered activation's method.
    Activation { namespace: String, method: String },
}

/// Index of the first descriptor registered under `ns`.
pub open spec fn find_ns(entries: Seq<SchemaView>, ns: Seq<char>) -> Option<int>
    decreases entries.len(),
{
    if entries.len() == 0 {
        None
    } else if entries[0].namespace == ns {
        Some(0)
    } else {
        match find_ns(entries.drop_first(), ns) {
            Some(i) => Some(i + 1),
            None => None,
        }
    }
}

/// `find_ns` returns the least matching index, or `None` when no descriptor
/// carries the namespace.
pub proof fn lemma_find_ns(entries: Seq<SchemaView>, ns: Seq<char>)
    ensures
        match find_ns(entries, ns) {
            Some(i) => 0 <= i < entries.len() && entries[i].namespace == ns && forall|j: int|
                0 <= j < i ==> (#[trigger] entries[j]).namespace != ns,
            None => forall|j: int|
                0 <= j < entries.len() ==> (#[trigger] entries[j]).namespace != ns,
        },
    decreases entries.len(),
{
    if entries.len() > 0 && entries[0].namespace != ns {
        let e1 = entries.drop_first();
        lemma_find_ns(e1, ns);
        assert(forall|j: int| 0 <= j < e1.len() ==> e1[j] == entries[j + 1]);
        match find_ns(e1, ns) {
            Some(i) => {
                assert forall|j: int| 0 <= j < i + 1 implies (#[trigger] entries[j]).namespace
                    != ns by {
                    if j > 0 {
                        assert(e1[j - 1] == entries[j]);
                    }
                }
            },
            None => {
                assert forall|j: int| 0 <= j < entries.len() implies (#[trigger] entries[j]).namespace
                    != ns by {
                    if j > 0 {
                        assert(e1[j - 1] == entries[j]);
                    }
                }
            },
        }
    }
}

/// Index of the first method named `name` in a descriptor's method list.
pub open spec fn find_method(methods: Seq<MethodView>, name: Seq<char>) -> Option<int>
    decreases methods.len(),
{
    if methods.len() == 0 {
        None
    } else if methods[0].name == name {
        Some(0)
    } else {
        match find_method(methods.drop_first(), name) {
            Some(i) => Some(i + 1),
            None => None,
        }
    }
}

/// `find_method` returns the least matching index, or `None` when no
/// method carries the name.
pub proof fn lemma_find_method(methods: Seq<MethodView>, name: Seq<char>)
    ensures
        match find_method(methods, name) {
            Some(i) => 0 <= i < methods.len() && methods[i].name == name && forall|j: int|
                0 <= j < i ==> (#[trigger] methods[j]).name != name,
            None => forall|j: int| 0 <= j < methods.len() ==> (#[trigger] methods[j]).name != name,
        },
    decreases methods.len(),
{
    if methods.len() > 0 && methods[0].name != name {
        let m1 = methods.drop_first();
        lemma_find_method(m1, name);
        assert(forall|j: int| 0 <= j < m1.len() ==> m1[j] == methods[j + 1]);
        match find_method(m1, name) {
            Some(i) => {
                assert forall|j: int| 0 <= j < i + 1 implies (#[trigger] methods[j]).name
                    != name by {
                    if j > 0 {
                        assert(m1[j - 1] == methods[j]);
                    }
                }
            },
            None => {
                assert forall|j: int| 0 <= j < methods.len() implies (#[trigger] methods[j]).name
                    != name by {
                    if j > 0 {
                        assert(m1[j - 1] == methods[j]);
                    }
                }
            },
        }
    }
}

/// The help text behind `ns.method`: the router's own help for its
/// reserved namespace, else the named method's registered description when
/// it is non-empty.
pub open spec fn method_help_spec(entries: Seq<SchemaView>, method: Seq<char>) -> Option<
    Seq<char>,
> {
    match find_first(method, '.') {
        None => None,
        Some(d) => {
            let ns = method.take(d);
            let name = method.skip(d + 1);
            if ns == "plexus"@ {
                own_method_description(name)
            } else {
                match find_ns(entries, ns) {
                    None => None,
                    Some(i) => match find_method(entries[i].methods, name) {
                        None => None,
                        Some(j) => {
                            if entries[i].methods[j].description.len() > 0 {
                                Some(entries[i].methods[j].description)
                            } else {
                                None
                            }
                        },
                    },
                }
            }
        },
    }
}

/// The registry after one registration: the descriptor replaces the entry
/// under its namespace, or joins the end when the namespace is new.
pub open spec fn register_spec(entries: Seq<SchemaView>, e: SchemaView) -> Seq<SchemaView> {
    match find_ns(entries, e.namespace) {
        Some(i) => entries.update(i, e),
        None => entries.push(e),
    }
}

/// The hash line of one descriptor: `namespace:version:m0,m1,...` with the
/// methods in declared order.
pub open spec fn line_of(e: SchemaView) -> Seq<char> {
    e.namespace + seq![':'] + e.version + seq![':'] + join_char(method_names_of(e), ',')
}

/// The method names of a descriptor, in declared order.
pub open spec fn method_names_of(e: SchemaView) -> Seq<Seq<char>> {
    Seq::new(e.methods.len(), |i: int| e.methods[i].name)
}

/// The router's own hash line.
pub open spec fn plexus_self_line() -> Seq<char> {
    "plexus:1.0.0:call,hash,list_activations,schema"@
}

/// All hash lines: the router's own and one per registered descriptor.
pub open spec fn hash_lines(entries: Seq<SchemaView>) -> Seq<Seq<char>> {
    seq![plexus_self_line()] + Seq::new(entries.len(), |i: int| line_of(entries[i]))
}

/// The plexus hash: the hash lines sorted lexicographically, joined with
/// `;`, hashed, and rendered as 16 lowercase hex digits. A pure function of
/// the registered (namespace, version, methods) tuples.
pub open spec fn hash_spec(entries: Seq<SchemaView>) -> Seq<char> {
    hex16(fnv1a(join_char(hash_lines(entries).sort_by(lex_leq_fn()), ';')))
}

/// The central hub: the descriptor registry, itself addressable as the
/// activation `plexus`.
#[derive(Debug)]
pub struct Plexus {
    activations: Vec<ActivationFullSchema>,
}

impl View for Plexus {
    type V = Seq<SchemaView>;

    closed spec fn view(&self) -> Seq<SchemaView> {
        self.activations.deep_view()
    }
}

impl Plexus {
    /// An empty hub.
    pub fn new() -> (r: Self)
        ensures
            r@ == Seq::<SchemaView>::empty(),
    {
        let r = Plexus { activations: Vec::new() };
        proof {
            assert(r@ =~~= Seq::<SchemaView>::empty());
        }
        r
    }

    /// Registers an activation descriptor. A descriptor under an already
    /// registered namespace replaces the earlier one; registration order
    /// wins last.
    pub fn register(self, schema: ActivationFullSchema) -> (r: Self)
        ensures
            r@ == register_spec(self@, schema@),
    {
        let idx = self.find_entry(schema.namespace.as_str());
        proof {
            lemma_find_ns(self@, schema@.namespace);
        }
        let mut acts = self.activations;
        let ghost before = acts.deep_view();
        match idx {
            Some(i) => {
                acts[i] = schema;
                proof {
                    assert(acts.deep_view() =~~= before.update(
                        i as int,
                        acts.deep_view()[i as int],
                    ));
                    assert(acts.deep_view() =~~= register_spec(before, acts.deep_view()[i as int]));
                }
            },
            None => {
                acts.push(schema);
                proof {
                    assert(acts.deep_view() =~~= before.push(acts.deep_view()[
                        acts.deep_view().len() - 1
                    ]));
                }
            },
        }
        Plexus { activations: acts }
    }

    /// Index of the descriptor registered under `ns`, if any.
    fn find_entry(&self, ns: &str) -> (r: Option<usize>)
        ensures
            match r {
                Some(i) => find_ns(self@, ns@) == Some(i as int),
                None => find_ns(self@, ns@) is None,
            },
    {
        let mut i: usize = 0;
        while i < self.activations.len()
            invariant
                0 <= i <= self.activations.len(),
                forall|j: int| 0 <= j < i ==> (#[trigger] self@[j]).namespace != ns@,
            decreases self.activations.len() - i,
        {
            if str_eq(self.activations[i].namespace.as_str(), ns) {
                proof {
                    assert(self@[i as int].namespace == ns@);
                    lemma_find_ns(self@, ns@);
                }
                return Some(i);
            }
            i = i + 1;
        }
        proof {
            lemma_find_ns(self@, ns@);
        }
        None
    }

    /// Splits `ns.method` on the first dot and names the owner: the router
    /// itself for the reserved namespace `plexus`, a registered activation
    /// otherwise. Fails with `InvalidParams` when there is no dot, and with
    /// `ActivationNotFound` when the namespace is unknown.
    pub fn route_target(&self, method: &str) -> (r: Result<RouteTarget, PlexusError>)
        ensures
            match r {
                Ok(RouteTarget::PlexusOwn { method: m }) => {
                    &&& find_first(method@, '.') matches Some(d) && method@.take(d) == "plexus"@
                        && m@ == method@.skip(d + 1)
                },
                Ok(RouteTarget::Activation { namespace: ns, method: m }) => {
                    &&& find_first(method@, '.') matches Some(d) && ns@ == method@.take(d) && m@
                        == method@.skip(d + 1)
                    &&& ns@ != "plexus"@
                    &&& find_ns(self@, ns@) is Some
                },
                Err(PlexusError::InvalidParams(_)) => find_first(method@, '.') is None,
                Err(PlexusError::ActivationNotFound(ns)) => {
                    &&& find_first(method@, '.') matches Some(d) && ns@ == method@.take(d)
                    &&& ns@ != "plexus"@
                    &&& find_ns(self@, ns@) is None
                },
                Err(_) => false,
            },
    {
        let n = method.unicode_len();
        let dot = match find_char_index(method, '.') {
            Some(d) => d,
            None => {
                let mut msg = String::new();
                msg.append("Invalid method format: ");
                msg.append(method);
                return Err(PlexusError::InvalidParams(msg));
            },
        };
        proof {
            lemma_find_first(method@, '.');
        }
        let ns = method.substring_char(0, dot).to_owned();
        let name = method.substring_char(dot + 1, n).to_owned();
        proof {
            assert(ns@ =~= method@.take(dot as int));
            assert(name@ =~= method@.skip(dot as int + 1));
        }
        if str_eq(ns.as_str(), "plexus") {
            Ok(RouteTarget::PlexusOwn { method: name })
        } else {
            match self.find_entry(ns.as_str()) {
                Some(_) => Ok(RouteTarget::Activation { namespace: ns, method: name }),
                None => Err(PlexusError::ActivationNotFound(ns)),
            }
        }
    }

    /// Index of the activation that owns the handle's plugin namespace;
    /// `ActivationNotFound` when no such activation is registered.
    pub fn resolve_handle_target(&self, handle: &crate::handle::Handle) -> (r: Result<
        usize,
        PlexusError,
    >)
        ensures
            match r {
                Ok(i) => find_ns(self@, handle@.plugin) == Some(i as int),
                Err(PlexusError::ActivationNotFound(ns)) => ns@ == handle@.plugin && find_ns(
                    self@,
                    handle@.plugin,
                ) is None,
                Err(_) => false,
            },
    {
        match self.find_entry(handle.plugin.as_str()) {
            Some(i) => Ok(i),
            None => Err(PlexusError::ActivationNotFound(handle.plugin.clone())),
        }
    }

    /// The descriptor registered under `ns`, if any.
    pub fn get_activation_schema(&self, ns: &str) -> (r: Option<&ActivationFullSchema>)
        ensures
            match r {
                Some(s) => (find_ns(self@, ns@) matches Some(i) && s@ == self@[i]),
                None => find_ns(self@, ns@) is None,
            },
    {
        match self.find_entry(ns) {
            Some(i) => {
                proof {
                    lemma_find_ns(self@, ns@);
                }
                Some(&self.activations[i])
            },
            None => None,
        }
    }

    /// Help text for `ns.method`: the router's own help for the reserved
    /// namespace, else the named method's registered description when the
    /// activation and method exist and the description is non-empty.
    pub fn get_method_help(&self, method: &str) -> (r: Option<String>)
        ensures
            match r {
                Some(h) => method_help_spec(self@, method@) == Some(h@),
                None => method_help_spec(self@, method@) is None,
            },
    {
        let target = match self.route_target(method) {
            Ok(t) => t,
            Err(_) => {
                return None;
            },
        };
        match target {
            RouteTarget::PlexusOwn { method: name } => {
                match PlexusMethod::description(name.as_str()) {
                    Some(d) => Some(d.to_owned()),
                    None => None,
                }
            },
            RouteTarget::Activation { namespace, method: name } => {
                let i = match self.find_entry(namespace.as_str()) {
                    Some(i) => i,
                    None => {
                        return None;
                    },
                };
                proof {
                    lemma_find_ns(self@, namespace@);
                }
                let ghost entry_view = self@[i as int];
                let entry = &self.activations[i];
                let mut j: usize = 0;
                while j < entry.methods.len()
                    invariant
                        0 <= j <= entry.methods.len(),
                        entry@ == entry_view,
                        (find_first(method@, '.') matches Some(d) && namespace@ == method@.take(d)
                            && name@ == method@.skip(d + 1)),
                        namespace@ != "plexus"@,
                        find_ns(self@, namespace@) == Some(i as int),
                        entry_view == self@[i as int],
                        forall|k: int|
                            0 <= k < j ==> (#[trigger] entry_view.methods[k]).name != name@,
                    decreases entry.methods.len() - j,
                {
                    if str_eq(entry.methods[j].name.as_str(), name.as_str()) {
                        proof {
                            assert(entry_view.methods[j as int].name == name@);
                            lemma_find_method(entry_view.methods, name@);
                            assert(find_method(entry_view.methods, name@) == Some(j as int));
                            assert(entry_view.methods[j as int].description == entry.methods@[
                                j as int
                            ].description@);
                        }
                        if entry.methods[j].description.as_str().unicode_len() > 0 {
                            return Some(entry.methods[j].description.clone());
                        }
                        return None;
                    }
                    proof {
                        assert(entry_view.methods[j as int].name == entry.methods@[j as int].name@);
                    }
                    j = j + 1;
                }
                proof {
                    lemma_find_method(entry_view.methods, name@);
                }
                None
            },
        }
    }

    /// The plexus hash: a pure function of the registered activation set,
    /// stable across processes, rendered as 16 lowercase hex digits.
    pub fn compute_hash(&self) -> (r: String)
        ensures
            r@ == hash_spec(self@),
    {
        let mut lines: Vec<String> = Vec::new();
        let self_line: &str = "plexus:1.0.0:call,hash,list_activations,schema";
        lines.push(self_line.to_owned());
        proof {
            assert(lines.deep_view() =~~= hash_lines(self@.take(0)));
        }
        let mut k: usize = 0;
        while k < self.activations.len()
            invariant
                0 <= k <= self.activations.len(),
                self.activations.len() == self@.len(),
                lines.deep_view() == hash_lines(self@.take(k as int)),
            decreases self.activations.len() - k,
        {
            let ghost dvb = lines.deep_view();
            let line = line_string(&self.activations[k]);
            lines.push(line);
            proof {
                assert(lines.deep_view() =~~= dvb.push(line_of(self@[k as int])));
                assert(hash_lines(self@.take(k + 1)) =~~= dvb.push(line_of(self@[k as int])));
            }
            k = k + 1;
        }
        proof {
            assert(self@.take(self@.len() as int) =~= self@);
        }
        let sorted = sort_strings(&lines);
        proof {
            lemma_lex_total_ordering();
            hash_lines(self@).lemma_sort_by_ensures(lex_leq_fn());
            crate::order::lemma_sort_same_multiset(
                sorted.deep_view(),
                hash_lines(self@).sort_by(lex_leq_fn()),
            );
        }
        let joined = join_strings(&sorted, ';');
        let h = fnv1a_hash(joined.as_str());
        to_hex16(h)
    }

    /// Summaries of all activations, the router itself first, then the
    /// registered descriptors in registration order.
    pub fn list_activations(&self) -> (r: Vec<ActivationInfo>)
        ensures
            r.len() == self@.len() + 1,
            r@[0]@.namespace == "plexus"@,
            r@[0]@.version == "1.0.0"@,
            r@[0]@.methods == plexus_method_names(),
            forall|i: int|
                0 <= i < self@.len() ==> {
                    let info = #[trigger] r@[i + 1]@;
                    &&& info.namespace == self@[i].namespace
                    &&& info.version == self@[i].version
                    &&& info.description == self@[i].description
                    &&& info.methods == method_names_of(self@[i])
                },
    {
        let mut out: Vec<ActivationInfo> = Vec::new();
        out.push(self_info());
        let mut k: usize = 0;
        while k < self.activations.len()
            invariant
                0 <= k <= self.activations.len(),
                self.activations.len() == self@.len(),
                out.len() == k + 1,
                out@[0]@.namespace == "plexus"@,
                out@[0]@.version == "1.0.0"@,
                out@[0]@.methods == plexus_method_names(),
                forall|i: int|
                    0 <= i < k ==> {
                        let info = #[trigger] out@[i + 1]@;
                        &&& info.namespace == self@[i].namespace
                        &&& info.version == self@[i].version
                        &&& info.description == self@[i].description
                        &&& info.methods == method_names_of(self@[i])
                    },
            decreases self.activations.len() - k,
        {
            let e = &self.activations[k];
            let mut names: Vec<String> = Vec::new();
            let mut j: usize = 0;
            while j < e.methods.len()
                invariant
                    0 <= j <= e.methods.len(),
                    names.len() == j,
                    forall|i: int|
                        0 <= i < j ==> names.deep_view()[i] == #[trigger] e.methods.deep_view()[i].name,
                decreases e.methods.len() - j,
            {
                names.push(e.methods[j].name.clone());
                j = j + 1;
            }
            proof {
                assert(names.deep_view() =~~= method_names_of(e@));
            }
            out.push(ActivationInfo {
                namespace: e.namespace.clone(),
                version: e.version.clone(),
                description: e.description.clone(),
                methods: names,
            });
            k = k + 1;
        }
        out
    }

    /// Every reachable method as `ns.method`, sorted lexicographically: the
    /// router's own four and one entry per registered activation method.
    pub fn list_methods(&self) -> (r: Vec<String>)
        ensures
            r.deep_view().to_multiset() == (plexus_method_lines() + all_method_lines(
                self@,
            )).to_multiset(),
            sorted_by(r.deep_view(), lex_leq_fn()),
    {
        let mut lines: Vec<String> = Vec::new();
        lines.push("plexus.call".to_owned());
        lines.push("plexus.hash".to_owned());
        lines.push("plexus.list_activations".to_owned());
        lines.push("plexus.schema".to_owned());
        proof {
            assert(lines.deep_view() =~~= plexus_method_lines() + all_method_lines(self@.take(0)));
        }
        let mut k: usize = 0;
        while k < self.activations.len()
            invariant
                0 <= k <= self.activations.len(),
                self.activations.len() == self@.len(),
                lines.deep_view() == plexus_method_lines() + all_method_lines(self@.take(k as int)),
            decreases self.activations.len() - k,
        {
            let e = &self.activations[k];
            let ghost entry = self@[k as int];
            let ghost before = lines.deep_view();
            let mut j: usize = 0;
            while j < e.methods.len()
                invariant
                    0 <= j <= e.methods.len(),
                    e@ == entry,
                    lines.deep_view() == before + activation_method_lines(entry).take(j as int),
                decreases e.methods.len() - j,
            {
                let mut line = e.namespace.clone();
                push_char(&mut line, '.');
                line.append(e.methods[j].name.as_str());
                let ghost dvb = lines.deep_view();
                proof {
                    assert(line@ =~= entry.namespace + seq!['.'] + entry.methods[j as int].name);
                    assert(line@ == activation_method_lines(entry)[j as int]);
                }
                lines.push(line);
                proof {
                    assert(lines.deep_view() =~~= dvb.push(
                        activation_method_lines(entry)[j as int],
                    ));
                    assert(before + activation_method_lines(entry).take(j + 1) =~~= dvb.push(
                        activation_method_lines(entry)[j as int],
                    ));
                }
                j = j + 1;
            }
            proof {
                assert(activation_method_lines(entry).take(entry.methods.len() as int)
                    =~~= activation_method_lines(entry));
                lemma_all_method_lines_push(self@.take(k as int), entry);
                assert(self@.take(k as int).push(entry) =~~= self@.take(k + 1));
                assert(lines.deep_view() =~~= plexus_method_lines() + all_method_lines(self@.take(
                    k + 1,
                )));
            }
            k = k + 1;
        }
        proof {
            assert(self@.take(self@.len() as int) =~= self@);
        }
        sort_strings(&lines)
    }

    /// Full schemas of all activations: the router's own first, then the
    /// registered descriptors in registration order.
    pub fn list_full_schemas(&self) -> (r: Vec<ActivationFullSchema>)
        ensures
            r.len() == self@.len() + 1,
            r@[0]@ == plexus_self_schema(),
            forall|i: int| 0 <= i < self@.len() ==> #[trigger] r@[i + 1]@ == self@[i],
    {
        let mut out: Vec<ActivationFullSchema> = Vec::new();
        out.push(self_full_schema());
        let mut k: usize = 0;
        while k < self.activations.len()
            invariant
                0 <= k <= self.activations.len(),
                self.activations.len() == self@.len(),
                out.len() == k + 1,
                out@[0]@ == plexus_self_schema(),
                forall|i: int| 0 <= i < k ==> #[trigger] out@[i + 1]@ == self@[i],
            decreases self.activations.len() - k,
        {
            out.push(self.activations[k].clone());
            k = k + 1;
        }
        out
    }

    /// The events behind `plexus.hash`: one item holding the current hash.
    pub fn hash_stream(&self) -> (r: Vec<HashEvent>)
        ensures
            r.len() == 1,
            r@[0] matches HashEvent::Hash { value } && value@ == hash_spec(self@),
    {
        let mut out: Vec<HashEvent> = Vec::new();
        out.push(HashEvent::Hash { value: self.compute_hash() });
        out
    }

    /// The events behind `plexus.list_activations`: one item per activation,
    /// the router itself first, each carrying that activation's summary.
    pub fn list_activations_stream(&self) -> (r: Vec<ListActivationsEvent>)
        ensures
            r.len() == self@.len() + 1,
            (r@[0] matches ListActivationsEvent::Activation { namespace, version, .. }
                && namespace@ == "plexus"@ && version@ == "1.0.0"@),
            forall|i: int|
                0 <= i < self@.len() ==> (#[trigger] r@[i + 1]
                    matches ListActivationsEvent::Activation {
                    namespace,
                    version,
                    description,
                    methods,
                } && namespace@ == self@[i].namespace && version@ == self@[i].version
                    && description@ == self@[i].description && methods.deep_view()
                    == method_names_of(self@[i])),
    {
        let infos = self.list_activations();
        let mut out: Vec<ListActivationsEvent> = Vec::new();
        let mut k: usize = 0;
        while k < infos.len()
            invariant
                0 <= k <= infos.len(),
                out.len() == k,
                infos.len() == self@.len() + 1,
                infos@[0]@.namespace == "plexus"@,
                infos@[0]@.version == "1.0.0"@,
                forall|i: int|
                    0 <= i < self@.len() ==> {
                        let info = #[trigger] infos@[i + 1]@;
                        &&& info.namespace == self@[i].namespace
                        &&& info.version == self@[i].version
                        &&& info.description == self@[i].description
                        &&& info.methods == method_names_of(self@[i])
                    },
                k >= 1 ==> (out@[0] matches ListActivationsEvent::Activation {
                    namespace,
                    version,
                    ..
                } && namespace@ == "plexus"@ && version@ == "1.0.0"@),
                forall|i: int|
                    0 <= i < k - 1 && i < self@.len() ==> (#[trigger] out@[i + 1]
                        matches ListActivationsEvent::Activation {
                        namespace,
                        version,
                        description,
                        methods,
                    } && namespace@ == self@[i].namespace && version@ == self@[i].version
                        && description@ == self@[i].description && methods.deep_view()
                        == method_names_of(self@[i])),
            decreases infos.len() - k,
        {
            let info = &infos[k];
            let methods = info.methods.clone();
            proof {
                assert(methods.deep_view() =~~= info.methods.deep_view());
                if k >= 1 {
                    assert(infos@[(k - 1) + 1]@ == infos@[k as int]@);
                }
            }
            out.push(ListActivationsEvent::Activation {
                namespace: info.namespace.clone(),
                version: info.version.clone(),
                description: info.description.clone(),
                methods,
            });
            k = k + 1;
        }
        out
    }

    /// The events behind `plexus.schema`: one item holding every activation
    /// summary and the total count of reachable methods.
    pub fn schema_stream(&self) -> (r: Vec<SchemaEvent>)
        ensures
            r.len() == 1,
            (r@[0] matches SchemaEvent::Schema { activations, total_methods } && activations.len()
                == self@.len() + 1 && total_methods == plexus_method_lines().len()
                + all_method_lines(self@).len()),
    {
        let activations = self.list_activations();
        let methods = self.list_methods();
        let total = methods.len();
        proof {
            broadcast use vstd::seq_lib::to_multiset_len;

            assert(methods.deep_view().to_multiset().len() == (plexus_method_lines()
                + all_method_lines(self@)).to_multiset().len());
        }
        let mut out: Vec<SchemaEvent> = Vec::new();
        out.push(SchemaEvent::Schema { activations, total_methods: total });
        out
    }

    /// The router's namespace.
    pub fn namespace(&self) -> (r: &'static str)
        ensures
            r@ == "plexus"@,
    {
        "plexus"
    }

    /// The router's version.
    pub fn version(&self) -> (r: &'static str)
        ensures
            r@ == "1.0.0"@,
    {
        "1.0.0"
    }

    /// The router's description.
    pub fn description(&self) -> (r: &'static str)
        ensures
            r@ == "Central routing and introspection"@,
    {
        "Central routing and introspection"
    }

    /// The router's own method names, in declared order.
    pub fn methods(&self) -> (r: Vec<&'static str>)
        ensures
            r.deep_view() == plexus_method_names(),
    {
        let mut out: Vec<&'static str> = Vec::new();
        out.push("call");
        out.push("hash");
        out.push("list_activations");
        out.push("schema");
        proof {
            assert(out.deep_view() =~~= plexus_method_names());
        }
        out
    }
}

/// The router's own method names.
pub open spec fn plexus_method_names() -> Seq<Seq<char>> {
    seq!["call"@, "hash"@, "list_activations"@, "schema"@]
}

/// The router's own methods as `plexus.`-prefixed lines.
pub open spec fn plexus_method_lines() -> Seq<Seq<char>> {
    seq!["plexus.call"@, "plexus.hash"@, "plexus.list_activations"@, "plexus.schema"@]
}

/// One activation's methods as `ns.method` lines, in declared order.
pub open spec fn activation_method_lines(e: SchemaView) -> Seq<Seq<char>> {
    Seq::new(e.methods.len(), |i: int| e.namespace + seq!['.'] + e.methods[i].name)
}

/// All registered methods as `ns.method` lines, in registration order.
pub open spec fn all_method_lines(entries: Seq<SchemaView>) -> Seq<Seq<char>>
    decreases entries.len(),
{
    if entries.len() == 0 {
        Seq::empty()
    } else {
        activation_method_lines(entries[0]) + all_method_lines(entries.drop_first())
    }
}

proof fn lemma_all_method_lines_push(entries: Seq<SchemaView>, e: SchemaView)
    ensures
        all_method_lines(entries.push(e)) == all_method_lines(entries) + activation_method_lines(e),
    decreases entries.len(),
{
    if entries.len() == 0 {
        assert(all_method_lines(Seq::<SchemaView>::empty()) =~~= Seq::<Seq<char>>::empty());
        assert(entries.push(e)[0] == e);
        assert(entries.push(e).drop_first() =~~= Seq::<SchemaView>::empty());
        assert(entries =~~= Seq::<SchemaView>::empty());
        assert(all_method_lines(entries.push(e)) =~~= all_method_lines(entries)
            + activation_method_lines(e));
    } else {
        lemma_all_method_lines_push(entries.drop_first(), e);
        assert(entries.push(e)[0] == entries[0]);
        assert(entries.push(e).drop_first() =~~= entries.drop_first().push(e));
        assert(all_method_lines(entries.push(e)) =~~= all_method_lines(entries)
            + activation_method_lines(e));
    }
}

/// The router's own summary.
fn self_info() -> (r: ActivationInfo)
    ensures
        r@.namespace == "plexus"@,
        r@.version == "1.0.0"@,
        r@.description == "Central routing and introspection"@,
        r@.methods == plexus_method_names(),
{
    let mut methods: Vec<String> = Vec::new();
    methods.push("call".to_owned());
    methods.push("hash".to_owned());
    methods.push("list_activations".to_owned());
    methods.push("schema".to_owned());
    proof {
        assert(methods.deep_view() =~~= plexus_method_names());
    }
    ActivationInfo {
        namespace: "plexus".to_owned(),
        version: "1.0.0".to_owned(),
        description: "Central routing and introspection".to_owned(),
        methods,
    }
}

/// The router's own descriptor: its four methods with their help texts and
/// no schema documents.
pub open spec fn plexus_self_schema() -> SchemaView {
    SchemaView {
        namespace: "plexus"@,
        version: "1.0.0"@,
        description: "Central routing and introspection"@,
        methods: seq![
            MethodView {
                name: "call"@,
                description: "Route a call to a registered activation"@,
                has_params: false,
                has_returns: false,
            },
            MethodView {
                name: "hash"@,
                description: "Get plexus configuration hash"@,
                has_params: false,
                has_returns: false,
            },
            MethodView {
                name: "list_activations"@,
                description: "List all registered activations"@,
                has_params: false,
                has_returns: false,
            },
            MethodView {
                name: "schema"@,
                description: "Get full plexus schema"@,
                has_params: false,
                has_returns: false,
            },
        ],
    }
}

/// The router's own full schema, rendered as a descriptor value.
fn self_full_schema() -> (r: ActivationFullSchema)
    ensures
        r@ == plexus_self_schema(),
        r@.namespace == "plexus"@,
        r@.version == "1.0.0"@,
        r@.methods.len() == 4,
        method_names_of(r@) == plexus_method_names(),
{
    let mut methods: Vec<MethodSchemaInfo> = Vec::new();
    methods.push(MethodSchemaInfo {
        name: "call".to_owned(),
        description: "Route a call to a registered activation".to_owned(),
        params: None,
        returns: None,
    });
    methods.push(MethodSchemaInfo {
        name: "hash".to_owned(),
        description: "Get plexus configuration hash".to_owned(),
        params: None,
        returns: None,
    });
    methods.push(MethodSchemaInfo {
        name: "list_activations".to_owned(),
        description: "List all registered activations".to_owned(),
        params: None,
        returns: None,
    });
    methods.push(MethodSchemaInfo {
        name: "schema".to_owned(),
        description: "Get full plexus schema".to_owned(),
        params: None,
        returns: None,
    });
    let r = ActivationFullSchema {
        namespace: "plexus".to_owned(),
        version: "1.0.0".to_owned(),
        description: "Central routing and introspection".to_owned(),
        methods,
    };
    proof {
        assert(r@ =~~= plexus_self_schema());
        assert(method_names_of(r@) =~~= plexus_method_names());
    }
    r
}

/// The hash line of one descriptor, rendered.
fn line_string(e: &ActivationFullSchema) -> (r: String)
    ensures
        r@ == line_of(e@),
{
    let mut names: Vec<String> = Vec::new();
    let mut j: usize = 0;
    while j < e.methods.len()
        invariant
            0 <= j <= e.methods.len(),
            names.len() == j,
            forall|i: int| 0 <= i < j ==> names.deep_view()[i] == #[trigger] e.methods.deep_view()[i].name,
        decreases e.methods.len() - j,
    {
        names.push(e.methods[j].name.clone());
        j = j + 1;
    }
    proof {
        assert(names.deep_view() =~~= method_names_of(e@));
    }
    let joined = join_strings(&names, ',');
    let mut out = e.namespace.clone();
    push_char(&mut out, ':');
    out.append(e.version.as_str());
    push_char(&mut out, ':');
    out.append(joined.as_str());
    proof {
        assert(out@ =~= line_of(e@));
    }
    out
}

/// The hash is a pure function of the registered hash lines: two registries
/// whose descriptors render to the same multiset of lines hash alike, no
/// matter the registration order.
pub proof fn lemma_hash_same_registrations(e1: Seq<SchemaView>, e2: Seq<SchemaView>)
    requires
        Seq::new(e1.len(), |i: int| line_of(e1[i])).to_multiset() == Seq::new(
            e2.len(),
            |i: int| line_of(e2[i]),
        ).to_multiset(),
    ensures
        hash_spec(e1) == hash_spec(e2),
{
    broadcast use vstd::seq_lib::lemma_multiset_commutative;

    let l1 = Seq::new(e1.len(), |i: int| line_of(e1[i]));
    let l2 = Seq::new(e2.len(), |i: int| line_of(e2[i]));
    let h1 = hash_lines(e1);
    let h2 = hash_lines(e2);
    assert(h1.to_multiset() == seq![plexus_self_line()].to_multiset().add(l1.to_multiset()));
    assert(h2.to_multiset() == seq![plexus_self_line()].to_multiset().add(l2.to_multiset()));
    lemma_lex_total_ordering();
    h1.lemma_sort_by_ensures(lex_leq_fn());
    h2.lemma_sort_by_ensures(lex_leq_fn());
    crate::order::lemma_sort_same_multiset(h1.sort_by(lex_leq_fn()), h2.sort_by(lex_leq_fn()));
}

/// Registering two activations with distinct namespaces yields the same
/// hash in either order.
pub proof fn lemma_register_order_independent(a: SchemaView, b: SchemaView)
    requires
        a.namespace != b.namespace,
    ensures
        hash_spec(register_spec(register_spec(Seq::empty(), a), b)) == hash_spec(
            register_spec(register_spec(Seq::empty(), b), a),
        ),
{
    broadcast use vstd::seq_lib::group_to_multiset_ensures;

    let ab = register_spec(register_spec(Seq::empty(), a), b);
    let ba = register_spec(register_spec(Seq::empty(), b), a);
    assert(register_spec(Seq::empty(), a) =~~= seq![a]);
    assert(seq![a].drop_first() =~~= Seq::<SchemaView>::empty());
    assert(find_ns(seq![a], b.namespace) is None);
    assert(ab =~~= seq![a, b]);
    assert(register_spec(Seq::empty(), b) =~~= seq![b]);
    assert(seq![b].drop_first() =~~= Seq::<SchemaView>::empty());
    assert(find_ns(seq![b], a.namespace) is None);
    assert(ba =~~= seq![b, a]);
    let lab = Seq::new(ab.len(), |i: int| line_of(ab[i]));
    let lba = Seq::new(ba.len(), |i: int| line_of(ba[i]));
    assert(lab =~~= seq![line_of(a), line_of(b)]);
    assert(lba =~~= seq![line_of(b), line_of(a)]);
    assert(seq![line_of(a), line_of(b)] =~~= Seq::<Seq<char>>::empty().push(line_of(a)).push(
        line_of(b),
    ));
    assert(seq![line_of(b), line_of(a)] =~~= Seq::<Seq<char>>::empty().push(line_of(b)).push(
        line_of(a),
    ));
    assert(lab.to_multiset() =~= lba.to_multiset());
    lemma_hash_same_registrations(ab, ba);
}

} // verus!

