//! Answering echo requests that arrive on a tunnel interface: a probe for how
//! fast packets can be turned around.
//!
//! A packet's header is read by the `etherparse` crate, which also writes the
//! IPv4 header of the answer. What is answered, and with which bytes, is decided
//! here.

use vstd::prelude::*;
use vstd::slice::slice_subrange;
use crate::checksum::{
    calculate_checksum, checksum, fold16, lemma_checksum_verifies, lemma_complement_completes,
    lemma_word_sum_bound, total, with_checksum,
};

verus! {

/// The type of an echo reply.
pub const ECHO_REPLY: u8 = 0;

/// The protocol number of control messages in an IPv4 header.
pub const CONTROL_PROTOCOL: u8 = 1;

/// Length of the echo message that is answered with: 8 bytes of header and 56
/// of payload.
pub const ECHO_LEN: usize = 64;

/// Time to live of the answers.
pub const REPLY_TTL: u8 = 64;

/// What the answer needs of a packet's IPv4 header.
#[derive(Clone, Copy, Debug)]
pub struct Ipv4Summary {
    /// Length of the header with its options, in bytes.
    pub header_len: usize,
    /// The protocol of the payload.
    pub protocol: u8,
    /// The sender's address.
    pub source: [u8; 4],
    /// The receiver's address.
    pub destination: [u8; 4],
}

/// The header length that a packet's first byte gives, in bytes.
pub open spec fn header_len_of(packet: Seq<u8>) -> int {
    4 * (packet[0] % 16)
}

/// The packet starts with an IPv4 header: version 4, a header of at least five
/// words that the packet has room for, and a total length that is not below the
/// header's.
pub open spec fn is_ipv4(packet: Seq<u8>) -> bool {
    &&& packet.len() >= 20
    &&& packet[0] / 16 == 4
    &&& packet[0] % 16 >= 5
    &&& packet.len() >= header_len_of(packet)
    &&& 256 * packet[2] + packet[3] >= header_len_of(packet)
}

/// What is read from the header of a packet that starts with one.
pub open spec fn summary_of(packet: Seq<u8>, summary: Ipv4Summary) -> bool {
    &&& summary.header_len == header_len_of(packet)
    &&& summary.protocol == packet[9]
    &&& summary.source@ == packet.subrange(12, 16)
    &&& summary.destination@ == packet.subrange(16, 20)
}

/// `etherparse::ReadError`, the error of `from_slice`. Nothing is read from it.
#[verifier::external_type_specification]
#[verifier::external_body]
pub struct ExReadError(etherparse::ReadError);

/// Calls `etherparse::Ipv4HeaderSlice::from_slice`, and reads from the slice it
/// gives `slice().len()`, `protocol()`, `source()` and `destination()`.
///
/// `from_slice` accepts a packet of at least 20 bytes whose first byte holds
/// version 4 and a header length of at least 5 words, which has room for that
/// header and whose total-length field is not below the header's length. The
/// slice is the header with its options; the protocol is its byte 9, the
/// addresses are its bytes 12 to 15 and 16 to 19.
#[verifier::external_body]
pub(crate) fn read_ipv4_header(packet: &[u8]) -> (header: Result<Ipv4Summary, etherparse::ReadError>)
    ensures
        header is Ok <==> is_ipv4(packet@),
        header matches Ok(summary) ==> summary_of(packet@, summary),
{
    let header = etherparse::Ipv4HeaderSlice::from_slice(packet)?;
    let (s, d) = (header.source(), header.destination());
    Ok(
        Ipv4Summary {
            header_len: header.slice().len(),
            protocol: header.protocol(),
            source: [s[0], s[1], s[2], s[3]],
            destination: [d[0], d[1], d[2], d[3]],
        },
    )
}

/// The two 16-bit words of an address, added up, each with its high byte first.
pub open spec fn address_words(address: Seq<u8>) -> nat {
    (256 * address[0] + address[1] + 256 * address[2] + address[3]) as nat
}

/// The sum of the words of an IPv4 header that count for its checksum, where
/// the header has no options, may not be fragmented and has everything else at
/// zero: version and length, total length, flags, time to live with protocol,
/// and the two addresses.
pub open spec fn ipv4_header_sum(
    payload_len: u16,
    time_to_live: u8,
    protocol: u8,
    source: Seq<u8>,
    destination: Seq<u8>,
) -> nat {
    (0x4500 + (payload_len + 20) + 0x4000 + (256 * time_to_live + protocol) + address_words(source)
        + address_words(destination)) as nat
}

/// The checksum of such a header: the one's complement of its folded word sum.
pub open spec fn ipv4_header_checksum(
    payload_len: u16,
    time_to_live: u8,
    protocol: u8,
    source: Seq<u8>,
    destination: Seq<u8>,
) -> nat {
    (65535 - fold16(ipv4_header_sum(payload_len, time_to_live, protocol, source, destination))) as nat
}

/// The 20 bytes of an IPv4 header without options that may not be fragmented,
/// with its checksum and with everything that is not given at zero.
pub open spec fn ipv4_header(
    payload_len: u16,
    time_to_live: u8,
    protocol: u8,
    source: Seq<u8>,
    destination: Seq<u8>,
) -> Seq<u8> {
    let sum = ipv4_header_checksum(payload_len, time_to_live, protocol, source, destination);
    seq![
        0x45u8,
        0u8,
        ((payload_len + 20) / 256) as u8,
        ((payload_len + 20) % 256) as u8,
        0u8,
        0u8,
        0x40u8,
        0u8,
        time_to_live,
        protocol,
        (sum / 256) as u8,
        (sum % 256) as u8,
    ] + source + destination
}

/// Calls `etherparse::Ipv4Header::default`, sets the header's public fields
/// `payload_len`, `time_to_live`, `protocol`, `source` and `destination`, and
/// calls `write` on it.
///
/// `default` sets the "don't fragment" flag and zero elsewhere. `write` checks
/// the payload length against the 65515 bytes that fit and writes the 20 bytes
/// in network order. The checksum it writes is the complement of the sum of the
/// nine other words, with what goes beyond 16 bits added back in twice, which
/// is enough for nine words.
#[verifier::external_body]
pub(crate) fn write_ipv4_header(
    payload_len: u16,
    time_to_live: u8,
    protocol: u8,
    source: [u8; 4],
    destination: [u8; 4],
) -> (bytes: Vec<u8>)
    requires
        payload_len <= 65515,
    ensures
        bytes@ == ipv4_header(payload_len, time_to_live, protocol, source@, destination@),
{
    let mut header = etherparse::Ipv4Header::default();
    header.payload_len = payload_len;
    header.time_to_live = time_to_live;
    header.protocol = protocol;
    header.source = source;
    header.destination = destination;
    let mut bytes = Vec::new();
    let _ = header.write(&mut bytes);
    bytes
}

/// The `k`-th 16-bit word of `data`, high byte first.
pub open spec fn network_word(data: Seq<u8>, k: int) -> nat {
    (256 * data[2 * k] + data[2 * k + 1]) as nat
}

/// The sum of the ten 16-bit words of a header of 20 bytes.
pub open spec fn header_words(header: Seq<u8>) -> nat {
    network_word(header, 0) + network_word(header, 1) + network_word(header, 2) + network_word(
        header,
        3,
    ) + network_word(header, 4) + network_word(header, 5) + network_word(header, 6) + network_word(
        header,
        7,
    ) + network_word(header, 8) + network_word(header, 9)
}

/// The header's checksum is the one that a receiver accepts: the ten words of
/// the header add up to 65535.
pub proof fn lemma_header_verifies(
    payload_len: u16,
    time_to_live: u8,
    protocol: u8,
    source: Seq<u8>,
    destination: Seq<u8>,
)
    requires
        payload_len <= 65515,
        source.len() == 4,
        destination.len() == 4,
    ensures
        ipv4_header(payload_len, time_to_live, protocol, source, destination).len() == 20,
        fold16(header_words(ipv4_header(payload_len, time_to_live, protocol, source, destination)))
            == 65535,
{
    let header = ipv4_header(payload_len, time_to_live, protocol, source, destination);
    let sum = ipv4_header_sum(payload_len, time_to_live, protocol, source, destination);
    let value = ipv4_header_checksum(payload_len, time_to_live, protocol, source, destination);
    lemma_complement_completes(sum);
    assert(network_word(header, 0) == 0x4500);
    assert(network_word(header, 1) == payload_len + 20);
    assert(network_word(header, 2) == 0);
    assert(network_word(header, 3) == 0x4000);
    assert(network_word(header, 4) == 256 * time_to_live + protocol);
    assert(network_word(header, 5) == value);
    assert(network_word(header, 6) + network_word(header, 7) == address_words(source));
    assert(network_word(header, 8) + network_word(header, 9) == address_words(destination));
    assert(header_words(header) == sum + value);
}

/// The echo message of an answer before its checksum is computed: type, code
/// and checksum at zero, the identifier and the sequence number in network
/// order, and the request's bytes from the ninth on.
pub open spec fn echo_message(identifier: u16, seq_no: u16, data: Seq<u8>) -> Seq<u8> {
    Seq::new(
        64,
        |i: int|
            if i < 4 {
                0u8
            } else if i == 4 {
                (identifier / 256) as u8
            } else if i == 5 {
                (identifier % 256) as u8
            } else if i == 6 {
                (seq_no / 256) as u8
            } else if i == 7 {
                (seq_no % 256) as u8
            } else {
                data[i]
            },
    )
}

/// The echo message of an answer, with its checksum.
pub open spec fn echo_reply(identifier: u16, seq_no: u16, data: Seq<u8>) -> Seq<u8> {
    with_checksum(
        echo_message(identifier, seq_no, data),
        checksum(echo_message(identifier, seq_no, data)),
    )
}

/// An echo request that is being answered.
#[derive(Clone, Copy, Debug)]
pub struct Connection<'a> {
    /// The address that answers: the one that the request was sent to.
    pub source: [u8; 4],
    /// The address that is answered: the one that the request came from.
    pub destination: [u8; 4],
    /// The identifier of the request.
    pub identifier: u16,
    /// The sequence number of the request.
    pub seq_no: u16,
    /// The request's echo message.
    pub data: &'a [u8],
}

impl<'a> Connection<'a> {
    /// Takes up a request from the summary of its IPv4 header and its echo
    /// message, which has to hold the 8 bytes in which the identifier and the
    /// sequence number stand.
    pub fn start(iph: &Ipv4Summary, data: &'a [u8]) -> (connection: Option<Connection<'a>>)
        requires
            data@.len() >= 8,
        ensures
            connection matches Some(c) && {
                &&& c.source == iph.destination
                &&& c.destination == iph.source
                &&& c.identifier == 256 * data@[4] + data@[5]
                &&& c.seq_no == 256 * data@[6] + data@[7]
                &&& c.data@ == data@
            },
    {
        let identifier: u16 = 256 * (data[4] as u16) + data[5] as u16;
        let seq_no: u16 = 256 * (data[6] as u16) + data[7] as u16;
        Some(
            Connection {
                source: iph.destination,
                destination: iph.source,
                identifier,
                seq_no,
                data,
            },
        )
    }

    /// The packet that answers the request: an IPv4 header from the answering
    /// address to the asking one, and the echo reply, which takes the request's
    /// first 64 bytes. Both parts carry a checksum that a receiver accepts.
    pub fn respond(&self) -> (packet: Vec<u8>)
        requires
            self.data@.len() >= 64,
        ensures
            packet@ == ipv4_header(64, REPLY_TTL, CONTROL_PROTOCOL, self.source@, self.destination@)
                + echo_reply(self.identifier, self.seq_no, self.data@),
            packet@.len() == 84,
            fold16(header_words(packet@.subrange(0, 20))) == 65535,
            fold16(total(packet@.subrange(20, 84))) == 65535,
    {
        let identifier = self.identifier;
        let seq_no = self.seq_no;
        let mut reply = [0u8; 64];
        reply[0] = ECHO_REPLY;
        assert((identifier >> 8) & 0xff == identifier / 256) by (bit_vector);
        assert(identifier & 0xff == identifier % 256) by (bit_vector);
        assert((seq_no >> 8) & 0xff == seq_no / 256) by (bit_vector);
        assert(seq_no & 0xff == seq_no % 256) by (bit_vector);
        reply[4] = ((identifier >> 8) & 0xff) as u8;
        reply[5] = (identifier & 0xff) as u8;
        reply[6] = ((seq_no >> 8) & 0xff) as u8;
        reply[7] = (seq_no & 0xff) as u8;
        let mut i: usize = 8;
        while i < 64
            invariant
                8 <= i <= 64,
                self.data@.len() >= 64,
                forall|j: int| 0 <= j < 8 ==> reply@[j] == echo_message(identifier, seq_no, self.data@)[j],
                forall|j: int| 8 <= j < i ==> reply@[j] == self.data@[j],
            decreases 64 - i,
        {
            reply[i] = self.data[i];
            i += 1;
        }
        assert(reply@ =~= echo_message(identifier, seq_no, self.data@));
        proof {
            lemma_word_sum_bound(reply@, 32);
        }
        calculate_checksum(&mut reply);
        let mut packet = write_ipv4_header(
            64,
            REPLY_TTL,
            CONTROL_PROTOCOL,
            self.source,
            self.destination,
        );
        let ghost header = packet@;
        proof {
            lemma_header_verifies(64, REPLY_TTL, CONTROL_PROTOCOL, self.source@, self.destination@);
            lemma_reply_verifies(identifier, seq_no, self.data@);
        }
        let mut k: usize = 0;
        while k < 64
            invariant
                k <= 64,
                packet@ == header + reply@.subrange(0, k as int),
            decreases 64 - k,
        {
            packet.push(reply[k]);
            k += 1;
            assert(packet@ =~= header + reply@.subrange(0, k as int));
        }
        assert(reply@.subrange(0, 64) =~= reply@);
        assert(packet@.subrange(0, 20) =~= header);
        assert(packet@.subrange(20, 84) =~= reply@);
        packet
    }
}

/// What becomes of a packet that arrived on the interface.
#[derive(Debug)]
pub enum Verdict {
    /// The packet does not start with an IPv4 header: it is passed over.
    NotIpv4,
    /// The packet carries another protocol than control messages.
    OtherProtocol,
    /// The packet's control message is too short to be echoed.
    Truncated,
    /// The packet to send back.
    Reply(Vec<u8>),
}

/// What follows a packet's IPv4 header.
pub open spec fn payload_of(packet: Seq<u8>) -> Seq<u8> {
    packet.subrange(header_len_of(packet), packet.len() as int)
}

/// The packet carries a control message that is long enough to be echoed.
pub open spec fn is_answered(packet: Seq<u8>) -> bool {
    is_ipv4(packet) && packet[9] == CONTROL_PROTOCOL && payload_of(packet).len() >= 64
}

/// The packet that answers `packet`: from its receiver to its sender, with the
/// identifier, the sequence number and the payload of its control message.
pub open spec fn answer_to(packet: Seq<u8>) -> Seq<u8> {
    let source = packet.subrange(16, 20);
    let destination = packet.subrange(12, 16);
    let data = payload_of(packet);
    ipv4_header(64, REPLY_TTL, CONTROL_PROTOCOL, source, destination) + echo_reply(
        (256 * data[4] + data[5]) as u16,
        (256 * data[6] + data[7]) as u16,
        data,
    )
}

/// Decides on a packet: whether it is answered, and with which bytes.
///
/// A control message of at least 64 bytes in an IPv4 packet is answered.
/// Anything else is told apart by what it lacks.
pub fn reply_to(packet: &[u8]) -> (verdict: Verdict)
    ensures
        match verdict {
            Verdict::NotIpv4 => !is_ipv4(packet@),
            Verdict::OtherProtocol => is_ipv4(packet@) && packet@[9] != CONTROL_PROTOCOL,
            Verdict::Truncated => is_ipv4(packet@) && packet@[9] == CONTROL_PROTOCOL && payload_of(
                packet@,
            ).len() < 64,
            Verdict::Reply(bytes) => is_answered(packet@) && bytes@ == answer_to(packet@),
        },
{
    let iph = match read_ipv4_header(packet) {
        Ok(summary) => summary,
        Err(_) => {
            return Verdict::NotIpv4;
        },
    };
    if iph.protocol != CONTROL_PROTOCOL {
        return Verdict::OtherProtocol;
    }
    let data = slice_subrange(packet, iph.header_len, packet.len());
    if data.len() < ECHO_LEN {
        return Verdict::Truncated;
    }
    match Connection::start(&iph, data) {
        Some(connection) => Verdict::Reply(connection.respond()),
        None => Verdict::Truncated,
    }
}

/// The reply carries what the request carried: its echo message is the
/// request's first 64 bytes with type, code and checksum replaced.
pub proof fn lemma_reply_echoes_request(data: Seq<u8>)
    requires
        data.len() >= 64,
    ensures
        forall|i: int|
            4 <= i < 64 ==> #[trigger] echo_reply(
                (256 * data[4] + data[5]) as u16,
                (256 * data[6] + data[7]) as u16,
                data,
            )[i] == data[i],
{
}

/// The reply's checksum is the one that a receiver accepts.
pub proof fn lemma_reply_verifies(identifier: u16, seq_no: u16, data: Seq<u8>)
    ensures
        echo_reply(identifier, seq_no, data).len() == 64,
        echo_reply(identifier, seq_no, data)[0] == ECHO_REPLY,
        fold16(total(echo_reply(identifier, seq_no, data))) == 65535,
{
    lemma_checksum_verifies(echo_message(identifier, seq_no, data));
}

} // verus!
