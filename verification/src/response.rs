//! Decoding the answer of the DoH server: the checks on the HTTP header,
//! the bounded reading of the body, and the lifetime of the answer in the
//! cache.

use crate::dns::MAXIMUM_DNS_PACKET_SIZE;
use crate::error::Error;
use crate::message::dns_decoded;
use crate::message::DnsMessage;
use crate::message::DnsView;
use crate::text::equal_bytes;
use crate::text::find_byte;
use crate::text::first_index;
use crate::text::parse_decimal;
use crate::text::spec_parse_decimal;
use crate::text::trim;
use crate::text::trimmed;
use vstd::prelude::*;
use vstd::slice::slice_subrange;

verus! {

/// What the decoder reads of the header of an HTTP response.
#[derive(Debug, Clone, PartialEq, Eq)]
pub struct ResponseHead {
    /// The status code.
    pub status: u16,
    /// The value of the `content-type` header, if there is one.
    pub content_type: Option<Vec<u8>>,
    /// The value of the `cache-control` header, if there is one.
    pub cache_control: Option<Vec<u8>>,
}

/// The status codes of success: 200 to 299.
pub open spec fn is_success(status: u16) -> bool {
    200 <= status < 300
}

/// `application/dns-message`, the media type of a DNS message.
pub open spec fn dns_message_type() -> Seq<u8> {
    seq![
        97u8, 112, 112, 108, 105, 99, 97, 116, 105, 111, 110, 47, 100, 110, 115, 45, 109, 101, 115,
        115, 97, 103, 101,
    ]
}

/// `max-age`, the cache directive that gives a lifetime in seconds.
pub open spec fn max_age_directive() -> Seq<u8> {
    seq![109u8, 97, 120, 45, 97, 103, 101]
}

/// The lifetime that one directive of `cache-control` gives: that of
/// `max-age=<seconds>`, white space around the name and the number put aside.
pub open spec fn directive_max_age(item: Seq<u8>) -> Option<u64> {
    let eq = first_index(item, 61);
    if 0 <= eq < item.len() && trimmed(item.subrange(0, eq)) == max_age_directive() {
        match spec_parse_decimal(trimmed(item.subrange(eq + 1, item.len() as int)), u64::MAX as nat) {
            Some(seconds) => Some(seconds as u64),
            None => None,
        }
    } else {
        None
    }
}

/// The lifetime that a `cache-control` value gives: that of the first of
/// its comma-separated directives that gives one.
pub open spec fn spec_max_age(value: Seq<u8>) -> Option<u64>
    decreases value.len(),
{
    let comma = first_index(value, 44);
    if 0 <= comma <= value.len() {
        match directive_max_age(value.subrange(0, comma)) {
            Some(seconds) => Some(seconds),
            None => if comma < value.len() {
                spec_max_age(value.subrange(comma + 1, value.len() as int))
            } else {
                None
            },
        }
    } else {
        None
    }
}

/// The lifetime that the header gives to the answer, in seconds.
pub open spec fn spec_duration(header: ResponseHead) -> Option<u64> {
    match header.cache_control {
        Some(value) => spec_max_age(value@),
        None => None,
    }
}

/// Accepts the status codes of success.
pub fn check_header_status(header: &ResponseHead) -> (r: Result<(), Error>)
    ensures
        match r {
            Ok(_) => is_success(header.status),
            Err(e) => !is_success(header.status) && e == Error::HeaderStatus(header.status),
        },
{
    if 200 <= header.status && header.status < 300 {
        Ok(())
    } else {
        Err(Error::HeaderStatus(header.status))
    }
}

/// Accepts the content type `application/dns-message`, byte for byte.
pub fn check_header_content_type(header: &ResponseHead) -> (r: Result<(), Error>)
    ensures
        match r {
            Ok(_) => header.content_type matches Some(value) && value@ == dns_message_type(),
            Err(Error::HeaderNoContentType) => header.content_type is None,
            Err(Error::HeaderContentType(got)) => {
                &&& header.content_type matches Some(value)
                &&& value@ != dns_message_type()
                &&& got@ == value@
            },
            Err(_) => false,
        },
{
    match &header.content_type {
        Some(value) => {
            let expected: Vec<u8> = vec![
                97u8, 112, 112, 108, 105, 99, 97, 116, 105, 111, 110, 47, 100, 110, 115, 45, 109, 101,
                115, 115, 97, 103, 101,
            ];
            assert(expected@ =~= dns_message_type());
            if equal_bytes(value.as_slice(), expected.as_slice()) {
                Ok(())
            } else {
                Err(Error::HeaderContentType(value.clone()))
            }
        },
        None => Err(Error::HeaderNoContentType),
    }
}

fn get_directive_max_age(item: &[u8]) -> (r: Option<u64>)
    ensures
        r == directive_max_age(item@),
{
    let eq = find_byte(item, 61);
    if eq >= item.len() {
        return None;
    }
    let name = trim(slice_subrange(item, 0, eq));
    let number = trim(slice_subrange(item, eq + 1, item.len()));
    let directive: Vec<u8> = vec![109u8, 97, 120, 45, 97, 103, 101];
    assert(directive@ =~= max_age_directive());
    if equal_bytes(name, directive.as_slice()) {
        parse_decimal(number, u64::MAX)
    } else {
        None
    }
}

fn get_max_age(value: &[u8]) -> (r: Option<u64>)
    ensures
        r == spec_max_age(value@),
{
    let mut rest: &[u8] = value;
    loop
        invariant
            spec_max_age(rest@) == spec_max_age(value@),
        decreases rest@.len(),
    {
        let comma = find_byte(rest, 44);
        if let Some(seconds) = get_directive_max_age(slice_subrange(rest, 0, comma)) {
            return Some(seconds);
        }
        if comma >= rest.len() {
            return None;
        }
        rest = slice_subrange(rest, comma + 1, rest.len());
    }
}

/// The lifetime that `cache-control` gives to the answer, in seconds: that
/// of its first directive `max-age=<seconds>`.
pub fn get_duration(header: &ResponseHead) -> (r: Option<u64>)
    ensures
        r == spec_duration(*header),
{
    match &header.cache_control {
        Some(value) => get_max_age(value.as_slice()),
        None => None,
    }
}

/// The smaller of a running minimum and a new value, where either may be
/// missing.
pub open spec fn spec_min(min_ttl: Option<u32>, new_value: Option<u32>) -> Option<u32> {
    match (min_ttl, new_value) {
        (Some(a), Some(b)) => if b < a {
            Some(b)
        } else {
            Some(a)
        },
        (Some(a), None) => Some(a),
        (None, b) => b,
    }
}

/// Lowers the running minimum `min_ttl` to `new_value` where that is
/// smaller; a missing value changes nothing, and any value replaces a
/// missing minimum.
pub fn min(min_ttl: &mut Option<u32>, new_value: Option<u32>)
    ensures
        *final(min_ttl) == spec_min(*old(min_ttl), new_value),
{
    match *min_ttl {
        Some(current) => {
            if let Some(new_value) = new_value {
                if new_value < current {
                    *min_ttl = Some(new_value);
                }
            }
        },
        None => {
            if let Some(new_value) = new_value {
                *min_ttl = Some(new_value);
            }
        },
    }
}

/// The running minimum after all of `ttls`, started from `start`.
pub open spec fn min_over(start: Option<u32>, ttls: Seq<Option<u32>>) -> Option<u32>
    decreases ttls.len(),
{
    if ttls.len() == 0 {
        start
    } else {
        spec_min(min_over(start, ttls.drop_last()), ttls.last())
    }
}

/// The least time to live among the records of a message: answers,
/// authorities and additionals alike.
pub open spec fn least_ttl(dns: DnsView) -> Option<u32> {
    min_over(None, dns.answers + dns.authorities + dns.additionals)
}

/// The lifetime that the records of a message give to it, in seconds: the
/// least of their times to live, unless there is none or it is zero.
pub open spec fn spec_min_ttl(dns: DnsView) -> Option<u64> {
    match least_ttl(dns) {
        Some(ttl) => if ttl == 0 {
            None
        } else {
            Some(ttl as u64)
        },
        None => None,
    }
}

/// The running minimum has the two properties of a minimum: it is one of
/// the values, and no value is below it.
pub proof fn lemma_min_over(ttls: Seq<Option<u32>>)
    ensures
        match min_over(None, ttls) {
            Some(m) => {
                &&& exists|i: int| 0 <= i < ttls.len() && ttls[i] == Some(m)
                &&& forall|i: int| 0 <= i < ttls.len() && ttls[i] is Some ==> m <= ttls[i]->0
            },
            None => forall|i: int| 0 <= i < ttls.len() ==> ttls[i] is None,
        },
    decreases ttls.len(),
{
    if ttls.len() > 0 {
        let front = ttls.drop_last();
        lemma_min_over(front);
        assert(forall|i: int| 0 <= i < front.len() ==> front[i] == ttls[i]);
        match min_over(None, ttls) {
            Some(m) => {
                if ttls.last() == Some(m) {
                    assert(ttls[ttls.len() - 1] == Some(m));
                } else {
                    let i = choose|i: int| 0 <= i < front.len() && front[i] == Some(m);
                    assert(ttls[i] == Some(m));
                }
            },
            None => {},
        }
    }
}

/// Going on from a running minimum over more values is the running minimum
/// over all of them.
pub proof fn lemma_min_over_append(start: Option<u32>, a: Seq<Option<u32>>, b: Seq<Option<u32>>)
    ensures
        min_over(min_over(start, a), b) == min_over(start, a + b),
    decreases b.len(),
{
    if b.len() == 0 {
        assert(a + b =~= a);
    } else {
        lemma_min_over_append(start, a, b.drop_last());
        assert((a + b).drop_last() =~= a + b.drop_last());
        assert((a + b).last() == b.last());
    }
}

fn min_of(start: Option<u32>, ttls: &Vec<Option<u32>>) -> (r: Option<u32>)
    ensures
        r == min_over(start, ttls@),
{
    let mut min_ttl = start;
    let mut i: usize = 0;
    while i < ttls.len()
        invariant
            i <= ttls.len(),
            min_ttl == min_over(start, ttls@.subrange(0, i as int)),
        decreases ttls.len() - i,
    {
        proof {
            let next = ttls@.subrange(0, i + 1);
            assert(next.drop_last() =~= ttls@.subrange(0, i as int));
        }
        min(&mut min_ttl, ttls[i]);
        i += 1;
    }
    assert(ttls@.subrange(0, i as int) =~= ttls@);
    min_ttl
}


/// The lifetime that the records of a message give to it, in seconds: the
/// least time to live among answers, authorities and additionals. A message
/// without such a record, or with a least time to live of zero, is not to be
/// cached: it has no lifetime.
pub fn get_min_ttl(dns: &DnsMessage) -> (r: Option<u64>)
    ensures
        r == spec_min_ttl(dns@),
{
    let answers = min_of(None, dns.answers());
    let authorities = min_of(answers, dns.authorities());
    let additionals = min_of(authorities, dns.additionals());
    proof {
        lemma_min_over_append(None, dns@.answers, dns@.authorities);
        lemma_min_over_append(None, dns@.answers + dns@.authorities, dns@.additionals);
    }
    match additionals {
        Some(ttl) => if ttl == 0 {
            None
        } else {
            Some(ttl as u64)
        },
        None => None,
    }
}

/// What is kept of a body: all of it up to the size of the largest DNS
/// packet, and nothing beyond.
pub open spec fn capped(body: Seq<u8>) -> Seq<u8> {
    if body.len() > MAXIMUM_DNS_PACKET_SIZE {
        body.subrange(0, MAXIMUM_DNS_PACKET_SIZE as int)
    } else {
        body
    }
}

/// The frames of a body one after the other.
pub open spec fn joined(frames: Seq<Seq<u8>>) -> Seq<u8>
    decreases frames.len(),
{
    if frames.len() == 0 {
        Seq::<u8>::empty()
    } else {
        joined(frames.drop_last()) + frames.last()
    }
}

/// What a reader holds after the frames, taken in one by one.
pub open spec fn accumulated(frames: Seq<Seq<u8>>) -> Seq<u8>
    decreases frames.len(),
{
    if frames.len() == 0 {
        Seq::<u8>::empty()
    } else {
        capped(accumulated(frames.drop_last()) + frames.last())
    }
}

/// Capping after each frame keeps what capping once at the end keeps.
pub proof fn lemma_capped_step(body: Seq<u8>, frame: Seq<u8>)
    ensures
        capped(capped(body) + frame) == capped(body + frame),
{
    assert(capped(capped(body) + frame) =~= capped(body + frame));
}

/// However a body is cut into frames, a reader that has taken them all
/// holds the start of the body, up to the size of the largest DNS packet.
pub proof fn lemma_accumulated(frames: Seq<Seq<u8>>)
    ensures
        accumulated(frames) == capped(joined(frames)),
    decreases frames.len(),
{
    if frames.len() > 0 {
        lemma_accumulated(frames.drop_last());
        lemma_capped_step(joined(frames.drop_last()), frames.last());
    }
}

/// The reader of a response body: it accumulates the frames up to the size
/// of the largest DNS packet, and goes on taking frames after that.
#[derive(Debug)]
pub struct BodyReader {
    body: Vec<u8>,
}

impl View for BodyReader {
    type V = Seq<u8>;

    closed spec fn view(&self) -> Seq<u8> {
        self.body@
    }
}

impl BodyReader {
    #[verifier::type_invariant]
    spec fn inv(self) -> bool {
        self.body@.len() <= MAXIMUM_DNS_PACKET_SIZE
    }

    /// A reader that holds nothing yet.
    pub fn new() -> (reader: BodyReader)
        ensures
            reader@ == Seq::<u8>::empty(),
    {
        BodyReader { body: Vec::new() }
    }

    /// Takes one frame, and tells how many bytes of flow-control capacity
    /// are to be given back to the peer. The frame is appended as far as the
    /// cap allows; its whole length is released, and reading goes on, full
    /// or not.
    pub fn on_data(self, frame: &[u8]) -> (next: (BodyReader, usize))
        ensures
            next.0@ == capped(self@ + frame@),
            next.1 == frame@.len(),
    {
        proof {
            use_type_invariant(&self);
        }
        let ghost before = self.body@;
        let mut body = self.body;
        let room = MAXIMUM_DNS_PACKET_SIZE - body.len();
        let take = if frame.len() < room {
            frame.len()
        } else {
            room
        };
        let mut i: usize = 0;
        while i < take
            invariant
                i <= take,
                take <= frame@.len(),
                before.len() + take <= MAXIMUM_DNS_PACKET_SIZE,
                body@ == before + frame@.subrange(0, i as int),
            decreases take - i,
        {
            body.push(frame[i]);
            assert(body@ =~= before + frame@.subrange(0, i + 1));
            i += 1;
        }
        assert(body@ =~= capped(before + frame@));
        (BodyReader { body }, frame.len())
    }

    /// Takes a failure of the stream. A reset after some bytes have arrived
    /// ends the body where it stands; any other failure is one of the
    /// HTTP/2 stream.
    pub fn on_error(&self, is_reset: bool) -> (r: Result<(), Error>)
        ensures
            match r {
                Ok(_) => is_reset && self@.len() > 0,
                Err(e) => !(is_reset && self@.len() > 0) && e is H2,
            },
    {
        if is_reset && self.body.len() > 0 {
            Ok(())
        } else {
            Err(Error::H2)
        }
    }

    /// The number of bytes accumulated so far.
    pub fn len(&self) -> (n: usize)
        ensures
            n == self@.len(),
            n <= MAXIMUM_DNS_PACKET_SIZE,
    {
        proof {
            use_type_invariant(self);
        }
        self.body.len()
    }

    /// Ends the reading and hands out the body.
    pub fn into_body(self) -> (body: Vec<u8>)
        ensures
            body@ == self@,
            body@.len() <= MAXIMUM_DNS_PACKET_SIZE,
    {
        proof {
            use_type_invariant(&self);
        }
        self.body
    }
}

/// Reads the body as a DNS message, which must be a response.
pub fn get_dns_response(body: &[u8]) -> (r: Result<DnsMessage, Error>)
    ensures
        match r {
            Ok(dns) => dns_decoded(body@) == Some(dns@) && dns@.response,
            Err(Error::Decode(_)) => dns_decoded(body@) is None,
            Err(Error::DnsNotResponse(dns)) => dns_decoded(body@) == Some(dns@) && !dns@.response,
            Err(_) => false,
        },
{
    let dns_response = DnsMessage::decode(body)?;
    if !dns_response.is_response() {
        return Err(Error::DnsNotResponse(dns_response));
    }
    Ok(dns_response)
}

/// The lifetime of an accepted answer, in seconds: what `cache-control`
/// gives, or else what the records give.
pub open spec fn spec_lifetime(header: ResponseHead, dns: DnsView) -> Option<u64> {
    match spec_duration(header) {
        Some(seconds) => Some(seconds),
        None => spec_min_ttl(dns),
    }
}

/// Whether the header of a response is accepted.
pub open spec fn header_accepted(header: ResponseHead) -> bool {
    &&& is_success(header.status)
    &&& header.content_type matches Some(value)
    &&& value@ == dns_message_type()
}

/// Decodes a response of the DoH server from its header and its body: the
/// DNS message and the number of seconds for which it may be cached. The
/// checks come in this order: status, content type, DNS message, direction.
pub fn response_handler(header: &ResponseHead, body: &[u8]) -> (r: Result<
    (DnsMessage, Option<u64>),
    Error,
>)
    ensures
        match r {
            Ok((dns, duration)) => {
                &&& header_accepted(*header)
                &&& dns_decoded(body@) == Some(dns@)
                &&& dns@.response
                &&& duration == spec_lifetime(*header, dns@)
            },
            Err(Error::HeaderStatus(status)) => !is_success(header.status) && status
                == header.status,
            Err(Error::HeaderNoContentType) => is_success(header.status) && header.content_type
                is None,
            Err(Error::HeaderContentType(got)) => {
                &&& is_success(header.status)
                &&& header.content_type matches Some(value)
                &&& value@ != dns_message_type()
                &&& got@ == value@
            },
            Err(Error::Decode(_)) => header_accepted(*header) && dns_decoded(body@) is None,
            Err(Error::DnsNotResponse(dns)) => {
                &&& header_accepted(*header)
                &&& dns_decoded(body@) == Some(dns@)
                &&& !dns@.response
            },
            Err(_) => false,
        },
{
    check_header_status(header)?;
    check_header_content_type(header)?;
    let mut duration = get_duration(header);

    let dns_response = get_dns_response(body)?;

    if duration.is_none() {
        duration = get_min_ttl(&dns_response);
    }
    Ok((dns_response, duration))
}

} // verus!
