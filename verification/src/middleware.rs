//! A summary of the registered namespaces, and the middleware shell that
//! once enriched error responses with it. The error guidance itself now
//! travels in the streams; the shell only carries its layer.

use std::sync::Arc;
use vstd::prelude::*;

verus! {

/// The namespaces available for dispatch.
#[derive(Debug, Clone)]
pub struct ActivationRegistry {
    /// Registered activation namespaces.
    pub activations: Vec<String>,
}

impl ActivationRegistry {
    /// A registry over the given namespaces.
    pub fn new(activations: Vec<String>) -> (r: Self)
        ensures
            r.activations.deep_view() == activations.deep_view(),
    {
        ActivationRegistry { activations }
    }
}

/// A pass-through service layer that keeps a shared registry beside the
/// wrapped service.
pub struct GuidedErrorMiddleware<S> {
    inner: S,
    registry: Arc<ActivationRegistry>,
}

impl<S> GuidedErrorMiddleware<S> {
    /// Wraps a service together with the registry.
    pub fn new(inner: S, registry: Arc<ActivationRegistry>) -> (r: Self)
    {
        GuidedErrorMiddleware { inner, registry }
    }
}

} // verus!
