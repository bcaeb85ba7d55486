//! The path of one query: the cache first, then the DoH server, then, where
//! that is allowed, an expired answer from the cache. The functions here
//! decide; sending and waiting is the caller's part.

use crate::cache::expiry_of;
use crate::cache::holds;
use crate::cache::index_of;
use crate::cache::inserted;
use crate::cache::lemma_inserted;
use crate::cache::lemma_remove;
use crate::cache::spec_get;
use crate::cache::spec_get_expired;
use crate::cache::spec_get_fallback;
use crate::cache::Cache;
use crate::cache::CacheView;
use crate::cache::Slot;
use crate::error::Error;
use crate::message::dns_decoded;
use crate::message::dns_encoded;
use crate::message::question_key;
use crate::message::DnsMessage;
use crate::message::DnsView;
use crate::session::Session;
use crate::session::SessionView;
use vstd::prelude::*;

verus! {

/// Nanoseconds in a second.
pub const NANOS_PER_SECOND: u128 = 1_000_000_000;

/// The datagram that answers a client whose query had the id `id`, made
/// from the answer `wire`: the same message under the client's id. There is
/// none where `wire` is no DNS message or the message cannot be written.
pub open spec fn spec_reply(wire: Seq<u8>, id: u16) -> Option<Seq<u8>> {
    if dns_decoded(wire) is Some {
        dns_encoded(wire, id)
    } else {
        None
    }
}

/// Reads a datagram of a client as a DNS message, which must be a request.
pub fn decode_request(msg: &[u8]) -> (r: Result<DnsMessage, Error>)
    ensures
        match r {
            Ok(dns) => dns_decoded(msg@) == Some(dns@) && !dns@.response,
            Err(Error::Decode(_)) => dns_decoded(msg@) is None,
            Err(Error::DnsNotRequest(dns)) => dns_decoded(msg@) == Some(dns@) && dns@.response,
            Err(_) => false,
        },
{
    let dns_request = DnsMessage::decode(msg)?;
    if dns_request.is_response() {
        return Err(Error::DnsNotRequest(dns_request));
    }
    Ok(dns_request)
}

/// Makes the datagram that answers a client from an answer in wire format:
/// the answer is given the id of the client's query and written anew.
pub fn send_response(dns_response: &[u8], id: u16) -> (r: Result<Vec<u8>, Error>)
    ensures
        match r {
            Ok(datagram) => spec_reply(dns_response@, id) == Some(datagram@),
            Err(Error::Decode(_)) => dns_decoded(dns_response@) is None,
            Err(Error::Encode(_)) => {
                &&& dns_decoded(dns_response@) is Some
                &&& dns_encoded(dns_response@, id) is None
            },
            Err(_) => false,
        },
{
    let dns = DnsMessage::decode(dns_response)?;
    dns.encode(id)
}

/// What the look-up before the remote attempt found.
#[derive(Debug)]
pub enum CacheReturn {
    /// A fresh answer: the datagram for the client, or why it could not be
    /// made. The query ends here.
    Found(Result<Vec<u8>, Error>),
    /// No answer. Where the query can be cached, its cache key is kept for
    /// the answer to come.
    NotFound(Option<Vec<u8>>),
}

/// The cache key of a query, where the cache is on and the query asks
/// exactly one question.
pub open spec fn spec_binding(cache_enabled: bool, dns_request: DnsView) -> Option<Seq<u8>> {
    if cache_enabled && dns_request.questions.len() == 1 {
        Some(question_key(dns_request.questions[0]))
    } else {
        None
    }
}

/// The look-up before the remote attempt: with the fallback on, an expired
/// entry must survive it.
pub open spec fn spec_lookup(entries: Seq<Slot>, cache_fallback: bool, key: Seq<u8>, now: u128) -> (
    Seq<Slot>,
    Option<Seq<u8>>,
) {
    if cache_fallback {
        spec_get_expired(entries, key, now)
    } else {
        spec_get(entries, key, now)
    }
}

/// The entries of a cache that may be switched off.
pub open spec fn entries_of(cache: Option<Cache>) -> Seq<Slot> {
    match cache {
        Some(c) => c@.entries,
        None => Seq::<Slot>::empty(),
    }
}

/// The capacity of a cache that may be switched off.
pub open spec fn capacity_of(cache: Option<Cache>) -> nat {
    match cache {
        Some(c) => c@.capacity,
        None => 0,
    }
}

/// Looks the query up in the cache at the instant `now`. A fresh answer
/// ends the query without any use of the network. Otherwise the query goes
/// on to the server, bound to its cache key where it has one.
pub fn get_response_from_cache(
    cache: &mut Option<Cache>,
    cache_fallback: bool,
    dns_request: &DnsMessage,
    now: u128,
) -> (r: CacheReturn)
    ensures
        *old(cache) is Some <==> *final(cache) is Some,
        capacity_of(*final(cache)) == capacity_of(*old(cache)),
        match spec_binding(*old(cache) is Some, dns_request@) {
            Some(key) => {
                let found = spec_lookup(entries_of(*old(cache)), cache_fallback, key, now);
                &&& entries_of(*final(cache)) == found.0
                &&& match found.1 {
                    Some(answer) => r matches CacheReturn::Found(reply) && match reply {
                        Ok(datagram) => spec_reply(answer, dns_request@.id) == Some(datagram@),
                        Err(e) => spec_reply(answer, dns_request@.id) is None && (e is Decode || e
                            is Encode),
                    },
                    None => r matches CacheReturn::NotFound(Some(k)) && k@ == key,
                }
            },
            None => {
                &&& entries_of(*final(cache)) == entries_of(*old(cache))
                &&& r matches CacheReturn::NotFound(None)
            },
        },
{
    match cache {
        Some(cache) => {
            match dns_request.cache_key() {
                Some(key) => {
                    let entry = if cache_fallback {
                        cache.get_expired_at(key.as_slice(), now)
                    } else {
                        cache.get_at(key.as_slice(), now)
                    };
                    match entry {
                        Some(dns_response) => CacheReturn::Found(
                            send_response(dns_response.as_slice(), dns_request.id()),
                        ),
                        None => CacheReturn::NotFound(Some(key)),
                    }
                },
                None => CacheReturn::NotFound(None),
            }
        },
        None => CacheReturn::NotFound(None),
    }
}


/// The time to live of `seconds` seconds, in nanoseconds.
pub open spec fn ttl_nanos(seconds: u64) -> u128 {
    (seconds * NANOS_PER_SECOND) as u128
}

/// The entries after an answer has come from the server at the instant
/// `now`: the answer is stored where the query has a cache key and the
/// answer a lifetime, and nothing changes otherwise.
pub open spec fn spec_store(
    cache: CacheView,
    cache_question: Option<Vec<u8>>,
    duration: Option<u64>,
    answer: Seq<u8>,
    now: u128,
) -> Seq<Slot> {
    match (cache_question, duration) {
        (Some(key), Some(seconds)) => inserted(
            cache.entries,
            cache.capacity,
            (key@, answer, expiry_of(now, ttl_nanos(seconds))),
        ),
        _ => cache.entries,
    }
}

/// Takes the answer of the server at the instant `now`: makes the datagram
/// for the client under the id `id`, and stores the answer for `duration`
/// seconds under the query's cache key, where both are there. The answer is
/// stored whether or not the datagram could be made.
pub fn get_response(
    cache: &mut Option<Cache>,
    cache_question: &Option<Vec<u8>>,
    dns_response: &DnsMessage,
    duration: Option<u64>,
    id: u16,
    now: u128,
) -> (r: Result<Vec<u8>, Error>)
    ensures
        *old(cache) is Some <==> *final(cache) is Some,
        capacity_of(*final(cache)) == capacity_of(*old(cache)),
        match r {
            Ok(datagram) => dns_encoded(dns_response@.wire, id) == Some(datagram@),
            Err(e) => dns_encoded(dns_response@.wire, id) is None && e is Encode,
        },
        entries_of(*final(cache)) == match *old(cache) {
            Some(c) => spec_store(c@, *cache_question, duration, dns_response@.wire, now),
            None => Seq::<Slot>::empty(),
        },
{
    let result = dns_response.encode(id);
    if let Some(seconds) = duration {
        if let Some(key) = cache_question {
            if let Some(cache) = cache {
                let ttl: u128 = (seconds as u128) * NANOS_PER_SECOND;
                cache.put_at(key.clone(), dns_response.wire().clone(), ttl, now);
            }
        }
    }
    result
}

/// The look-up after the remote attempt has failed: with the fallback on,
/// an answer under the query's cache key is used even if it has expired.
pub open spec fn spec_fallback(
    entries: Seq<Slot>,
    cache_fallback: bool,
    cache_question: Option<Vec<u8>>,
) -> (Seq<Slot>, Option<Seq<u8>>) {
    match cache_question {
        Some(key) => if cache_fallback {
            spec_get_fallback(entries, key@)
        } else {
            (entries, None)
        },
        None => (entries, None),
    }
}

/// Looks for an answer of last resort after the remote attempt has failed.
/// There is one only where the fallback is on, the query has a cache key,
/// and the cache holds an entry for it, fresh or expired.
pub fn get_response_from_cache_fallback(
    cache: &mut Option<Cache>,
    cache_fallback: bool,
    cache_question: &Option<Vec<u8>>,
    id: u16,
) -> (r: Option<Result<Vec<u8>, Error>>)
    ensures
        *old(cache) is Some <==> *final(cache) is Some,
        capacity_of(*final(cache)) == capacity_of(*old(cache)),
        entries_of(*final(cache)) == spec_fallback(
            entries_of(*old(cache)),
            cache_fallback,
            *cache_question,
        ).0,
        match spec_fallback(entries_of(*old(cache)), cache_fallback, *cache_question).1 {
            Some(answer) => r matches Some(reply) && match reply {
                Ok(datagram) => spec_reply(answer, id) == Some(datagram@),
                Err(e) => spec_reply(answer, id) is None && (e is Decode || e is Encode),
            },
            None => r is None,
        },
{
    if cache_fallback {
        if let Some(key) = cache_question {
            if let Some(cache) = cache {
                if let Some(dns_response) = cache.get_expired_fallback(key.as_slice()) {
                    return Some(send_response(dns_response.as_slice(), id));
                }
            }
        }
    }
    None
}

/// How the remote attempt of a query ended.
#[derive(Debug)]
pub enum RemoteOutcome {
    /// No request went out: there was no connection to be had, or the
    /// request could not be made or sent.
    NotSent,
    /// A request went out on the connection of this generation, and no
    /// answer came of it: the time ran out, or what came could not be
    /// decoded.
    Failed(u32),
    /// The server answered: the DNS response and its lifetime in seconds.
    Answered(DnsMessage, Option<u64>),
}

/// Settles the session after the remote attempt of a query, and hands on
/// the answer if there is one. A request that went out and failed takes
/// the connection of its generation down, so that the next query connects
/// anew; nothing else touches the session.
pub fn get_response_from_remote<C>(session: &mut Session<C>, outcome: RemoteOutcome) -> (r: Option<
    (DnsMessage, Option<u64>),
>)
    ensures
        match outcome {
            RemoteOutcome::NotSent => r is None && final(session)@ == old(session)@,
            RemoteOutcome::Failed(generation) => {
                &&& r is None
                &&& old(session)@.generation != generation ==> final(session)@ == old(session)@
                &&& old(session)@.generation == generation ==> final(session)@ == (SessionView {
                    connection: None,
                    ..old(session)@
                })
            },
            RemoteOutcome::Answered(dns_response, duration) => {
                &&& r == Some((dns_response, duration))
                &&& final(session)@ == old(session)@
            },
        },
{
    match outcome {
        RemoteOutcome::NotSent => None,
        RemoteOutcome::Failed(generation) => {
            session.disconnect(generation);
            None
        },
        RemoteOutcome::Answered(dns_response, duration) => Some((dns_response, duration)),
    }
}

/// Ends a query after the remote attempt, at the instant `now`. `remote` is
/// what the attempt gave: the answer and its lifetime in seconds, or
/// nothing where the server could not be reached, did not answer in time,
/// or answered what could not be decoded. An answer goes to the client and
/// into the cache. Without one the fallback is tried, and where that gives
/// nothing either, the query fails with the request it could not answer.
pub fn complete_request(
    cache: &mut Option<Cache>,
    cache_fallback: bool,
    cache_question: &Option<Vec<u8>>,
    dns_request: DnsMessage,
    remote: Option<(DnsMessage, Option<u64>)>,
    now: u128,
) -> (r: Result<Vec<u8>, Error>)
    ensures
        *old(cache) is Some <==> *final(cache) is Some,
        capacity_of(*final(cache)) == capacity_of(*old(cache)),
        match remote {
            Some((dns_response, duration)) => {
                &&& match r {
                    Ok(datagram) => dns_encoded(dns_response@.wire, dns_request@.id) == Some(
                        datagram@,
                    ),
                    Err(e) => dns_encoded(dns_response@.wire, dns_request@.id) is None && e
                        is Encode,
                }
                &&& entries_of(*final(cache)) == match *old(cache) {
                    Some(c) => spec_store(c@, *cache_question, duration, dns_response@.wire, now),
                    None => Seq::<Slot>::empty(),
                }
            },
            None => {
                let found = spec_fallback(entries_of(*old(cache)), cache_fallback, *cache_question);
                &&& entries_of(*final(cache)) == found.0
                &&& match found.1 {
                    Some(answer) => match r {
                        Ok(datagram) => spec_reply(answer, dns_request@.id) == Some(datagram@),
                        Err(e) => spec_reply(answer, dns_request@.id) is None && (e is Decode || e
                            is Encode),
                    },
                    None => r matches Err(Error::CouldNotGetResponse(request)) && request@
                        == dns_request@,
                }
            },
        },
{
    match remote {
        Some((dns_response, duration)) => get_response(
            cache,
            cache_question,
            &dns_response,
            duration,
            dns_request.id(),
            now,
        ),
        None => {
            match get_response_from_cache_fallback(
                cache,
                cache_fallback,
                cache_question,
                dns_request.id(),
            ) {
                Some(result) => result,
                None => Err(Error::CouldNotGetResponse(dns_request)),
            }
        },
    }
}


/// An answer that was stored is what the next look-up for the same
/// question finds, with or without the fallback, for as long as its
/// lifetime has not passed.
pub proof fn lemma_stored_answer_is_found(
    cache: CacheView,
    key: Vec<u8>,
    seconds: u64,
    answer: Seq<u8>,
    now: u128,
    later: u128,
    cache_fallback: bool,
)
    requires
        cache.well_formed(),
        later < expiry_of(now, ttl_nanos(seconds)),
    ensures
        spec_lookup(
            spec_store(cache, Some(key), Some(seconds), answer, now),
            cache_fallback,
            key@,
            later,
        ).1 == Some(answer),
{
    lemma_inserted(
        cache.entries,
        cache.capacity,
        (key@, answer, expiry_of(now, ttl_nanos(seconds))),
    );
}

/// With the fallback on, an expired answer outlives the look-up that
/// passes it over: the look-up finds nothing and changes nothing, and the
/// fallback still finds the answer.
pub proof fn lemma_expired_answer_is_kept_for_fallback(
    cache: CacheView,
    key: Vec<u8>,
    now: u128,
)
    requires
        cache.well_formed(),
        holds(cache.entries, key@),
        cache.entries[index_of(cache.entries, key@)].2 <= now,
    ensures
        spec_lookup(cache.entries, true, key@, now) == (cache.entries, None::<Seq<u8>>),
        spec_fallback(spec_lookup(cache.entries, true, key@, now).0, true, Some(key)).1 == Some(
            cache.entries[index_of(cache.entries, key@)].1,
        ),
        !holds(spec_lookup(cache.entries, false, key@, now).0, key@),
{
    lemma_remove(cache.entries, index_of(cache.entries, key@));
}

} // verus!
