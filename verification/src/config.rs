//! The settings of a forwarder, checked, and the state that is made of them.

use crate::cache::Cache;
use crate::cache::Slot;
use crate::context::Context;
use crate::error::Error;
use crate::host::Host;
use crate::session::RemoteConfig;
use crate::session::Session;
use vstd::prelude::*;
use vstd::string::*;

verus! {

/// The settings of a forwarder.
#[derive(Debug, Clone, PartialEq, Eq)]
pub struct Config {
    remote_host: Host,
    domain: String,
    uri: String,
    retries: u32,
    timeout: u64,
    post: bool,
    cache_size: usize,
    cache_fallback: bool,
}

/// The settings as a value.
pub struct ConfigView {
    pub remote_host: Host,
    pub domain: Seq<char>,
    pub uri: Seq<char>,
    pub retries: u32,
    pub timeout: u64,
    pub post: bool,
    pub cache_size: usize,
    pub cache_fallback: bool,
}

impl View for Config {
    type V = ConfigView;

    closed spec fn view(&self) -> ConfigView {
        ConfigView {
            remote_host: self.remote_host,
            domain: self.domain@,
            uri: self.uri@,
            retries: self.retries,
            timeout: self.timeout,
            post: self.post,
            cache_size: self.cache_size,
            cache_fallback: self.cache_fallback,
        }
    }
}

/// The URI of the DoH endpoint of a server: `https://<domain>/<path>`.
pub open spec fn spec_uri(domain: Seq<char>, path: Seq<char>) -> Seq<char> {
    "https://"@ + domain + "/"@ + path
}

impl Config {
    /// Checks the settings and keeps them. The cache fallback needs a
    /// cache: with a cache size of zero it is refused.
    pub fn new(
        remote_host: Host,
        domain: &str,
        path: &str,
        retries: u32,
        timeout: u64,
        post: bool,
        cache_size: usize,
        cache_fallback: bool,
    ) -> (r: Result<Config, Error>)
        ensures
            match r {
                Ok(config) => {
                    &&& !(cache_fallback && cache_size == 0)
                    &&& config@ == (ConfigView {
                        remote_host,
                        domain: domain@,
                        uri: spec_uri(domain@, path@),
                        retries,
                        timeout,
                        post,
                        cache_size,
                        cache_fallback,
                    })
                },
                Err(e) => cache_fallback && cache_size == 0 && e is CacheSize,
            },
    {
        let mut uri = String::from_str("https://");
        uri.append(domain);
        uri.append("/");
        uri.append(path);

        if cache_fallback && cache_size == 0 {
            return Err(Error::CacheSize);
        }
        Ok(
            Config {
                remote_host,
                domain: String::from_str(domain),
                uri,
                retries,
                timeout,
                post,
                cache_size,
                cache_fallback,
            },
        )
    }

    /// Makes the state of a forwarder from its settings: an empty cache of
    /// the size set, or none where the size is zero, and a session without
    /// a connection.
    pub fn into<C>(self) -> (context: Context<C>)
        ensures
            match context.cache {
                Some(cache) => {
                    &&& self@.cache_size > 0
                    &&& cache@.capacity == self@.cache_size
                    &&& cache@.entries == Seq::<Slot>::empty()
                },
                None => self@.cache_size == 0,
            },
            context.cache_fallback == self@.cache_fallback,
            context.timeout == self@.timeout,
            context.remote_session@.host == self@.remote_host,
            context.remote_session@.config.domain@ == self@.domain,
            context.remote_session@.config.uri@ == self@.uri,
            context.remote_session@.config.retries == self@.retries,
            context.remote_session@.config.post == self@.post,
            context.remote_session@.generation == 0,
            context.remote_session@.connection is None,
    {
        let cache = if self.cache_size == 0 {
            None
        } else {
            Some(Cache::new(self.cache_size))
        };
        let remote_session = Session::new(
            self.remote_host,
            self.domain,
            self.uri,
            self.retries,
            self.post,
        );
        Context::new(cache, self.cache_fallback, self.timeout, remote_session)
    }
}

} // verus!
