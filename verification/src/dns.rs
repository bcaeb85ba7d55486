//! Byte-level view of a DNS datagram: the fixed twelve-byte header is read
//! straight from the wire, the rest of the packet is carried along untouched.

use vstd::prelude::*;
use vstd::string::*;

verus! {

/// Largest DNS packet, in bytes, that is accepted or accumulated.
pub const MAXIMUM_DNS_PACKET_SIZE: usize = 4096;

/// Length of the fixed DNS header.
pub const DNS_HEADER_SIZE: usize = 12;

/// Why a buffer is not a DNS packet.
#[derive(Debug, Clone, Copy, PartialEq, Eq, Structural)]
pub enum DnsParserError {
    TooLittleData,
    TooMuchData,
}

impl DnsParserError {
    /// The name of the error, as it is written in the log.
    pub fn display(&self) -> (text: String)
        ensures
            text@ == match *self {
                DnsParserError::TooLittleData => "TooLittleData"@,
                DnsParserError::TooMuchData => "TooMuchData"@,
            },
    {
        match self {
            DnsParserError::TooLittleData => String::from_str("TooLittleData"),
            DnsParserError::TooMuchData => String::from_str("TooMuchData"),
        }
    }
}

/// The 16-bit number whose big-endian bytes are `hi`, `lo`.
pub open spec fn be16(hi: u8, lo: u8) -> u16 {
    (hi as int * 256 + lo as int) as u16
}

/// The verdict on a buffer of `len` bytes: `None` when it can be a packet.
pub open spec fn length_error(len: nat) -> Option<DnsParserError> {
    if len < DNS_HEADER_SIZE {
        Some(DnsParserError::TooLittleData)
    } else if len > MAXIMUM_DNS_PACKET_SIZE {
        Some(DnsParserError::TooMuchData)
    } else {
        None
    }
}

/// The QR bit of the header: set in responses, clear in queries.
pub open spec fn header_is_response(data: Seq<u8>) -> bool
    recommends
        data.len() >= DNS_HEADER_SIZE,
{
    data[2] >= 128
}

/// The question count of the header.
pub open spec fn header_questions(data: Seq<u8>) -> u16
    recommends
        data.len() >= DNS_HEADER_SIZE,
{
    be16(data[4], data[5])
}

/// `data` with its transaction id replaced by `tid`.
pub open spec fn with_tid(data: Seq<u8>, tid: Seq<u8>) -> Seq<u8>
    recommends
        data.len() >= 2,
        tid.len() == 2,
{
    data.update(0, tid[0]).update(1, tid[1])
}

/// Whether a listener hands a datagram on: a well-sized query that asks
/// at least one question.
pub open spec fn is_acceptable_query(data: Seq<u8>) -> bool {
    &&& length_error(data.len()) is None
    &&& !header_is_response(data)
    &&& header_questions(data) > 0
}

/// Whatever id a packet carries, zeroing the id gives the same bytes: two
/// packets that differ in their ids alone are one without them.
pub proof fn lemma_tid_is_forgotten(data: Seq<u8>, tid: Seq<u8>, other: Seq<u8>)
    requires
        data.len() >= 2,
        tid.len() == 2,
        other.len() == 2,
    ensures
        with_tid(with_tid(data, tid), other) == with_tid(data, other),
        with_tid(data, other).len() == data.len(),
        with_tid(data, other).subrange(0, 2) == other,
        with_tid(data, other).subrange(2, data.len() as int) == data.subrange(
            2,
            data.len() as int,
        ),
{
    assert(with_tid(with_tid(data, tid), other) =~= with_tid(data, other));
    assert(with_tid(data, other).subrange(0, 2) =~= other);
    assert(with_tid(data, other).subrange(2, data.len() as int) =~= data.subrange(
        2,
        data.len() as int,
    ));
}

proof fn lemma_be16(hi: u8, lo: u8)
    ensures
        (((hi as u16) << 8) | (lo as u16)) == be16(hi, lo),
{
    assert((((hi as u16) << 8) | (lo as u16)) == (hi as u16) * 256 + (lo as u16)) by (bit_vector);
}

proof fn lemma_qr_bit(b: u8)
    ensures
        ((b & 0x80) == 0x80) == (b >= 128),
{
    assert(((b & 0x80) == 0x80) == (b >= 128)) by (bit_vector);
}

/// A DNS packet together with the header fields read from it.
pub struct DnsPacket {
    data: Vec<u8>,
    tid: [u8; 2],
    response: bool,
    questions: u16,
    answer: u16,
    authority: u16,
    additional_records: u16,
}

impl View for DnsPacket {
    type V = Seq<u8>;

    closed spec fn view(&self) -> Seq<u8> {
        self.data@
    }
}

impl Clone for DnsPacket {
    fn clone(&self) -> (copy: DnsPacket)
        ensures
            copy@ == self@,
    {
        proof {
            use_type_invariant(self);
        }
        DnsPacket {
            data: self.data.clone(),
            tid: self.tid,
            response: self.response,
            questions: self.questions,
            answer: self.answer,
            authority: self.authority,
            additional_records: self.additional_records,
        }
    }
}

impl DnsPacket {
    #[verifier::type_invariant]
    spec fn well_formed(self) -> bool {
        &&& length_error(self.data@.len()) is None
        &&& self.tid@ == self.data@.subrange(0, 2)
        &&& self.response == header_is_response(self.data@)
        &&& self.questions == be16(self.data@[4], self.data@[5])
        &&& self.answer == be16(self.data@[6], self.data@[7])
        &&& self.authority == be16(self.data@[8], self.data@[9])
        &&& self.additional_records == be16(self.data@[10], self.data@[11])
    }

    /// Reads `buffer` as a DNS packet; only its length can be wrong.
    pub fn from(buffer: Vec<u8>) -> (r: Result<DnsPacket, DnsParserError>)
        ensures
            match r {
                Ok(packet) => length_error(buffer@.len()) is None && packet@ == buffer@,
                Err(e) => length_error(buffer@.len()) == Some(e),
            },
    {
        DnsPacket::parser(buffer)
    }

    /// Reads `buffer` as a DNS packet after overwriting its transaction id
    /// with `tid`.
    pub fn from_tid(buffer: Vec<u8>, tid: [u8; 2]) -> (r: Result<DnsPacket, DnsParserError>)
        ensures
            match r {
                Ok(packet) => length_error(buffer@.len()) is None && packet@ == with_tid(
                    buffer@,
                    tid@,
                ),
                Err(e) => length_error(buffer@.len()) == Some(e),
            },
    {
        let mut buffer = buffer;
        if buffer.len() < 2 {
            return Err(DnsParserError::TooLittleData);
        }
        buffer.set(0, tid[0]);
        buffer.set(1, tid[1]);
        DnsPacket::parser(buffer)
    }

    fn parser(buffer: Vec<u8>) -> (r: Result<DnsPacket, DnsParserError>)
        ensures
            match r {
                Ok(packet) => length_error(buffer@.len()) is None && packet@ == buffer@,
                Err(e) => length_error(buffer@.len()) == Some(e),
            },
    {
        let len = buffer.len();

        if len < DNS_HEADER_SIZE {
            return Err(DnsParserError::TooLittleData);
        } else if MAXIMUM_DNS_PACKET_SIZE < len {
            return Err(DnsParserError::TooMuchData);
        }
        let response = (buffer[2] & 0x80) == 0x80;

        let tid: [u8; 2] = [buffer[0], buffer[1]];

        let questions: u16 = ((buffer[4] as u16) << 8) | (buffer[5] as u16);
        let answer: u16 = ((buffer[6] as u16) << 8) | (buffer[7] as u16);
        let authority: u16 = ((buffer[8] as u16) << 8) | (buffer[9] as u16);
        let additional_records: u16 = ((buffer[10] as u16) << 8) | (buffer[11] as u16);

        proof {
            lemma_qr_bit(buffer[2]);
            lemma_be16(buffer[4], buffer[5]);
            lemma_be16(buffer[6], buffer[7]);
            lemma_be16(buffer[8], buffer[9]);
            lemma_be16(buffer[10], buffer[11]);
            assert(tid@ =~= buffer@.subrange(0, 2));
        }

        Ok(DnsPacket { data: buffer, tid, response, questions, answer, authority, additional_records })
    }

    /// Number of bytes in the packet.
    pub fn len(&self) -> (n: usize)
        ensures
            n == self@.len(),
            DNS_HEADER_SIZE <= n <= MAXIMUM_DNS_PACKET_SIZE,
    {
        proof {
            use_type_invariant(self);
        }
        self.data.len()
    }

    /// The packet's bytes with the transaction id zeroed, so that equal
    /// queries give equal bytes whatever id the client chose.
    pub fn get_without_tid(&self) -> (bytes: Vec<u8>)
        ensures
            bytes@ == with_tid(self@, seq![0u8, 0u8]),
    {
        proof {
            use_type_invariant(self);
        }
        let mut data = self.data.clone();
        data.set(0, 0);
        data.set(1, 0);
        data
    }

    /// The packet's bytes.
    pub fn get(&self) -> (bytes: Vec<u8>)
        ensures
            bytes@ == self@,
    {
        self.data.clone()
    }

    /// The transaction id, as the two bytes on the wire.
    pub fn get_tid(&self) -> (tid: [u8; 2])
        ensures
            tid@ == self@.subrange(0, 2),
    {
        proof {
            use_type_invariant(self);
        }
        self.tid
    }

    /// Whether the QR bit marks the packet as a response.
    pub fn is_response(&self) -> (b: bool)
        ensures
            b == header_is_response(self@),
    {
        proof {
            use_type_invariant(self);
        }
        self.response
    }

    /// The number of questions that the header announces.
    pub fn get_questions(&self) -> (n: u16)
        ensures
            n == header_questions(self@),
    {
        proof {
            use_type_invariant(self);
        }
        self.questions
    }
}

impl DnsCodec {
    /// Takes one datagram out of `buf`. A datagram that is an acceptable
    /// query is returned and `buf` is left as it was; anything else is
    /// dropped: `buf` is emptied and nothing is returned.
    pub fn decode(&mut self, buf: &mut Vec<u8>) -> (r: Option<DnsPacket>)
        ensures
            match r {
                Some(packet) => {
                    &&& is_acceptable_query(old(buf)@)
                    &&& packet@ == old(buf)@
                    &&& final(buf)@ == old(buf)@
                },
                None => !is_acceptable_query(old(buf)@) && final(buf)@ == Seq::<u8>::empty(),
            },
    {
        if let Ok(dns) = DnsPacket::from(buf.clone()) {
            if dns.is_response() == false && dns.get_questions() > 0 {
                return Some(dns);
            }
        }
        buf.clear();
        None
    }

    /// Writes the packet into `buf`, replacing what was there.
    pub fn encode(&mut self, data: DnsPacket, buf: &mut Vec<u8>)
        ensures
            final(buf)@ == data@,
    {
        buf.clear();
        buf.reserve(data.len());
        let mut b: Vec<u8> = data.get();
        buf.append(&mut b);
    }
}

/// The listener's codec: one DNS packet per datagram.
#[derive(Debug)]
pub struct DnsCodec;

} // verus!
