//! DNS messages as the forwarder sees them: the wire bytes, and beside them
//! the few fields that its decisions read. Reading and writing the wire
//! format is the work of `dns_message_parser`.

use crate::error::Error;
use bytes::Bytes;
use dns_message_parser::DecodeError;
use dns_message_parser::Dns;
use dns_message_parser::EncodeError;
use vstd::prelude::*;

verus! {

/// One question of a DNS message.
#[derive(Debug, Clone, PartialEq, Eq)]
pub struct Question {
    /// The domain name in its presentation form, as UTF-8.
    pub name: Vec<u8>,
    /// The number of the question's type.
    pub qtype: u16,
    /// The number of the question's class.
    pub qclass: u16,
}

/// A question as a value.
pub struct QuestionView {
    pub name: Seq<u8>,
    pub qtype: u16,
    pub qclass: u16,
}

impl View for Question {
    type V = QuestionView;

    open spec fn view(&self) -> QuestionView {
        QuestionView { name: self.name@, qtype: self.qtype, qclass: self.qclass }
    }
}

/// The questions of a list as values.
pub open spec fn question_views(questions: Seq<Question>) -> Seq<QuestionView> {
    Seq::new(questions.len(), |i: int| questions[i]@)
}

/// A DNS message as a value.
pub struct DnsView {
    /// The bytes that the message was read from.
    pub wire: Seq<u8>,
    /// The transaction id.
    pub id: u16,
    /// Whether the message is a response.
    pub response: bool,
    /// The questions, in their order.
    pub questions: Seq<QuestionView>,
    /// For each answer record its time to live, where it has one.
    pub answers: Seq<Option<u32>>,
    /// For each authority record its time to live, where it has one.
    pub authorities: Seq<Option<u32>>,
    /// For each additional record its time to live, where it has one.
    pub additionals: Seq<Option<u32>>,
}

/// What `Dns::decode` reads from `wire`: nothing where it fails, else the
/// fields of the message.
pub uninterp spec fn dns_decoded(wire: Seq<u8>) -> Option<DnsView>;

/// What `Dns::encode` writes for the message that `Dns::decode` reads from
/// `wire`, once its id is `id`: nothing where the encoding fails.
pub uninterp spec fn dns_encoded(wire: Seq<u8>, id: u16) -> Option<Seq<u8>>;

/// A DNS message that `dns_message_parser` has read.
#[derive(Debug)]
pub struct DnsMessage {
    wire: Vec<u8>,
    id: u16,
    response: bool,
    questions: Vec<Question>,
    answers: Vec<Option<u32>>,
    authorities: Vec<Option<u32>>,
    additionals: Vec<Option<u32>>,
}

impl View for DnsMessage {
    type V = DnsView;

    closed spec fn view(&self) -> DnsView {
        DnsView {
            wire: self.wire@,
            id: self.id,
            response: self.response,
            questions: question_views(self.questions@),
            answers: self.answers@,
            authorities: self.authorities@,
            additionals: self.additionals@,
        }
    }
}

/// `Dns::decode` on a copy of `bytes`. The message holds the bytes and, of
/// what was read, the id, the QR flag, each question (its name as
/// `DomainName` displays it, its type and class as numbers) and the result
/// of `RR::get_ttl` for each record of the three record sections.
#[verifier::external_body]
fn decode_dns(bytes: &[u8]) -> (r: Result<DnsMessage, DecodeError>)
    ensures
        match r {
            Ok(message) => dns_decoded(bytes@) == Some(message@) && message@.wire == bytes@,
            Err(_) => dns_decoded(bytes@) is None,
        },
{
    let dns = Dns::decode(Bytes::copy_from_slice(bytes))?;
    Ok(DnsMessage {
        wire: bytes.to_vec(),
        id: dns.id,
        response: dns.is_response(),
        questions: dns.questions.iter().map(|q| Question {
            name: q.domain_name.to_string().into_bytes(),
            qtype: q.q_type as u16,
            qclass: q.q_class as u16,
        }).collect(),
        answers: dns.answers.iter().map(|rr| rr.get_ttl()).collect(),
        authorities: dns.authorities.iter().map(|rr| rr.get_ttl()).collect(),
        additionals: dns.additionals.iter().map(|rr| rr.get_ttl()).collect(),
    })
}

/// `Dns::encode` on the message that `Dns::decode` reads from `wire`, after
/// its id has been set to `id`.
#[verifier::external_body]
fn encode_dns(wire: &[u8], id: u16) -> (r: Result<Vec<u8>, EncodeError>)
    requires
        dns_decoded(wire@) is Some,
    ensures
        match r {
            Ok(bytes) => dns_encoded(wire@, id) == Some(bytes@),
            Err(_) => dns_encoded(wire@, id) is None,
        },
{
    let mut dns = Dns::decode(Bytes::copy_from_slice(wire)).unwrap();
    dns.id = id;
    dns.encode().map(|bytes| bytes.to_vec())
}

/// An ASCII letter in lower case, any other byte as it is.
pub open spec fn lower(b: u8) -> u8 {
    if 65 <= b <= 90 {
        (b + 32) as u8
    } else {
        b
    }
}

/// A name with its ASCII letters in lower case.
pub open spec fn lowered(name: Seq<u8>) -> Seq<u8> {
    Seq::new(name.len(), |i: int| lower(name[i]))
}

/// Two questions ask the same: the names are equal but for the case of
/// ASCII letters, the types are equal and the classes are equal.
pub open spec fn same_question(a: QuestionView, b: QuestionView) -> bool {
    &&& lowered(a.name) == lowered(b.name)
    &&& a.qtype == b.qtype
    &&& a.qclass == b.qclass
}

/// The key under which the answer to a question is cached: the lowered
/// name, then type and class in two bytes each.
pub open spec fn question_key(q: QuestionView) -> Seq<u8> {
    lowered(q.name) + seq![
        (q.qtype / 256) as u8,
        (q.qtype % 256) as u8,
        (q.qclass / 256) as u8,
        (q.qclass % 256) as u8,
    ]
}

/// Two questions have the same cache key exactly when they ask the same.
pub proof fn lemma_question_key(a: QuestionView, b: QuestionView)
    ensures
        (question_key(a) == question_key(b)) <==> same_question(a, b),
{
    let ka = question_key(a);
    let kb = question_key(b);
    let na = lowered(a.name);
    let nb = lowered(b.name);
    if ka == kb {
        assert(ka.len() == na.len() + 4);
        assert(kb.len() == nb.len() + 4);
        assert(na =~= ka.subrange(0, na.len() as int));
        assert(nb =~= kb.subrange(0, nb.len() as int));
        let n = na.len() as int;
        assert(ka[n] == (a.qtype / 256) as u8 && kb[n] == (b.qtype / 256) as u8);
        assert(ka[n + 1] == (a.qtype % 256) as u8 && kb[n + 1] == (b.qtype % 256) as u8);
        assert(ka[n + 2] == (a.qclass / 256) as u8 && kb[n + 2] == (b.qclass / 256) as u8);
        assert(ka[n + 3] == (a.qclass % 256) as u8 && kb[n + 3] == (b.qclass % 256) as u8);
    }
}

impl Question {
    /// The question's cache key.
    pub fn cache_key(&self) -> (key: Vec<u8>)
        ensures
            key@ == question_key(self@),
    {
        let mut key: Vec<u8> = Vec::new();
        let mut i: usize = 0;
        while i < self.name.len()
            invariant
                i <= self.name.len(),
                key@ == lowered(self.name@).subrange(0, i as int),
            decreases self.name.len() - i,
        {
            let b = self.name[i];
            let l: u8 = if 65 <= b && b <= 90 {
                b + 32
            } else {
                b
            };
            key.push(l);
            assert(key@ =~= lowered(self.name@).subrange(0, i + 1));
            i += 1;
        }
        assert(key@ =~= lowered(self.name@));
        key.push((self.qtype / 256) as u8);
        key.push((self.qtype % 256) as u8);
        key.push((self.qclass / 256) as u8);
        key.push((self.qclass % 256) as u8);
        assert(key@ =~= question_key(self@));
        key
    }
}

impl DnsMessage {
    #[verifier::type_invariant]
    spec fn inv(self) -> bool {
        dns_decoded(self.wire@) == Some(self@)
    }

    /// Reads a DNS message from its wire format.
    pub fn decode(bytes: &[u8]) -> (r: Result<DnsMessage, Error>)
        ensures
            match r {
                Ok(message) => dns_decoded(bytes@) == Some(message@) && message@.wire == bytes@,
                Err(e) => dns_decoded(bytes@) is None && e is Decode,
            },
    {
        match decode_dns(bytes) {
            Ok(message) => Ok(message),
            Err(e) => Err(Error::Decode(e)),
        }
    }

    /// Writes the message in wire format, with `id` in place of its own id.
    pub fn encode(&self, id: u16) -> (r: Result<Vec<u8>, Error>)
        ensures
            dns_decoded(self@.wire) == Some(self@),
            match r {
                Ok(bytes) => dns_encoded(self@.wire, id) == Some(bytes@),
                Err(e) => dns_encoded(self@.wire, id) is None && e is Encode,
            },
    {
        proof {
            use_type_invariant(self);
        }
        match encode_dns(self.wire.as_slice(), id) {
            Ok(bytes) => Ok(bytes),
            Err(e) => Err(Error::Encode(e)),
        }
    }

    /// The transaction id.
    pub fn id(&self) -> (id: u16)
        ensures
            id == self@.id,
    {
        self.id
    }

    /// Whether the message is a response.
    pub fn is_response(&self) -> (b: bool)
        ensures
            b == self@.response,
    {
        self.response
    }

    /// The bytes that the message was read from.
    pub fn wire(&self) -> (bytes: &Vec<u8>)
        ensures
            bytes@ == self@.wire,
    {
        &self.wire
    }

    /// The questions of the message.
    pub fn questions(&self) -> (questions: &Vec<Question>)
        ensures
            question_views(questions@) == self@.questions,
    {
        &self.questions
    }

    /// For each answer record its time to live, where it has one.
    pub fn answers(&self) -> (ttls: &Vec<Option<u32>>)
        ensures
            ttls@ == self@.answers,
    {
        &self.answers
    }

    /// For each authority record its time to live, where it has one.
    pub fn authorities(&self) -> (ttls: &Vec<Option<u32>>)
        ensures
            ttls@ == self@.authorities,
    {
        &self.authorities
    }

    /// For each additional record its time to live, where it has one.
    pub fn additionals(&self) -> (ttls: &Vec<Option<u32>>)
        ensures
            ttls@ == self@.additionals,
    {
        &self.additionals
    }

    /// The cache key of the message: that of its question, where it asks
    /// exactly one.
    pub fn cache_key(&self) -> (key: Option<Vec<u8>>)
        ensures
            match key {
                Some(k) => self@.questions.len() == 1 && k@ == question_key(self@.questions[0]),
                None => self@.questions.len() != 1,
            },
    {
        if self.questions.len() == 1 {
            Some(self.questions[0].cache_key())
        } else {
            None
        }
    }
}

} // verus!
