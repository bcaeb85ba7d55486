//! What every query of a running forwarder works with.

use crate::cache::Cache;
use crate::session::Session;
use vstd::prelude::*;

verus! {

/// The state that the queries of a running forwarder share. `C` is the
/// handle of an HTTP/2 connection.
pub struct Context<C> {
    /// The session with the DoH server.
    pub remote_session: Session<C>,
    /// The cache of answers; none where caching is switched off.
    pub cache: Option<Cache>,
    /// Whether an expired answer may be used when the server fails.
    pub cache_fallback: bool,
    /// How many seconds a query waits for the server.
    pub timeout: u64,
}

impl<C> Context<C> {
    /// Puts the parts of a context together.
    pub fn new(
        cache: Option<Cache>,
        cache_fallback: bool,
        timeout: u64,
        remote_session: Session<C>,
    ) -> (context: Context<C>)
        ensures
            context.cache == cache,
            context.cache_fallback == cache_fallback,
            context.timeout == timeout,
            context.remote_session == remote_session,
    {
        Context { remote_session, cache, cache_fallback, timeout }
    }
}

} // verus!
