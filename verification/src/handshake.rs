//! Framing of TLS handshake messages: the message types and the four-byte
//! header, one type byte and a 24-bit big-endian length, that stands
//! before each message.

use crate::error::Truncated;
use vstd::prelude::*;
use vstd::std_specs::convert::TryFromSpecImpl;

verus! {

/// The number of bytes of a handshake header on the wire.
pub const HEADER_LEN: usize = 4;

/// The first length that three bytes cannot hold.
pub const LENGTH_LIMIT: u32 = 0x100_0000;

/// The handshake message types that this layer tells apart.
#[derive(Clone, Copy, Debug, PartialEq, Eq, Structural)]
pub enum HandshakeType {
    HelloRequest,
    ClientHello,
    ServerHello,
    Certificate,
    ServerKeyExchange,
    CertificateRequest,
    ServerHelloDone,
    CertificateVerify,
    ClientKeyExchange,
    Finished,
}

impl HandshakeType {
    /// The message type that a wire tag names, if it names one.
    pub open spec fn of_tag(tag: u8) -> Option<HandshakeType> {
        if tag == 0 {
            Some(HandshakeType::HelloRequest)
        } else if tag == 1 {
            Some(HandshakeType::ClientHello)
        } else if tag == 2 {
            Some(HandshakeType::ServerHello)
        } else if tag == 11 {
            Some(HandshakeType::Certificate)
        } else if tag == 12 {
            Some(HandshakeType::ServerKeyExchange)
        } else if tag == 13 {
            Some(HandshakeType::CertificateRequest)
        } else if tag == 14 {
            Some(HandshakeType::ServerHelloDone)
        } else if tag == 15 {
            Some(HandshakeType::CertificateVerify)
        } else if tag == 16 {
            Some(HandshakeType::ClientKeyExchange)
        } else if tag == 20 {
            Some(HandshakeType::Finished)
        } else {
            None
        }
    }

    /// The wire tag of a message type.
    pub open spec fn spec_tag(self) -> u8 {
        match self {
            HandshakeType::HelloRequest => 0,
            HandshakeType::ClientHello => 1,
            HandshakeType::ServerHello => 2,
            HandshakeType::Certificate => 11,
            HandshakeType::ServerKeyExchange => 12,
            HandshakeType::CertificateRequest => 13,
            HandshakeType::ServerHelloDone => 14,
            HandshakeType::CertificateVerify => 15,
            HandshakeType::ClientKeyExchange => 16,
            HandshakeType::Finished => 20,
        }
    }

    /// The wire tag of a message type.
    #[verifier::when_used_as_spec(spec_tag)]
    pub fn tag(self) -> (tag: u8)
        ensures
            tag == self.spec_tag(),
    {
        match self {
            HandshakeType::HelloRequest => 0,
            HandshakeType::ClientHello => 1,
            HandshakeType::ServerHello => 2,
            HandshakeType::Certificate => 11,
            HandshakeType::ServerKeyExchange => 12,
            HandshakeType::CertificateRequest => 13,
            HandshakeType::ServerHelloDone => 14,
            HandshakeType::CertificateVerify => 15,
            HandshakeType::ClientKeyExchange => 16,
            HandshakeType::Finished => 20,
        }
    }
}

impl TryFrom<u8> for HandshakeType {
    type Error = ();

    fn try_from(value: u8) -> (found: Result<Self, ()>) {
        match value {
            0 => Ok(HandshakeType::HelloRequest),
            1 => Ok(HandshakeType::ClientHello),
            2 => Ok(HandshakeType::ServerHello),
            11 => Ok(HandshakeType::Certificate),
            12 => Ok(HandshakeType::ServerKeyExchange),
            13 => Ok(HandshakeType::CertificateRequest),
            14 => Ok(HandshakeType::ServerHelloDone),
            15 => Ok(HandshakeType::CertificateVerify),
            16 => Ok(HandshakeType::ClientKeyExchange),
            20 => Ok(HandshakeType::Finished),
            _ => Err(()),
        }
    }
}

impl TryFromSpecImpl<u8> for HandshakeType {
    open spec fn obeys_try_from_spec() -> bool {
        true
    }

    open spec fn try_from_spec(value: u8) -> Result<Self, ()> {
        match Self::of_tag(value) {
            Some(msg_type) => Ok(msg_type),
            None => Err(()),
        }
    }
}

/// Every message type is found again by its tag, and a tag that names a
/// type is that type's tag.
pub proof fn lemma_handshake_type_tags(msg_type: HandshakeType, tag: u8)
    ensures
        HandshakeType::of_tag(msg_type.spec_tag()) == Some(msg_type),
        HandshakeType::of_tag(tag) matches Some(t) ==> t.spec_tag() == tag,
{
}

/// What a handshake header says: the tag of the message type, known or
/// not, and the length of the message body.
pub struct HeaderFields {
    pub tag: u8,
    pub len: nat,
}

/// The header that four wire bytes spell.
pub open spec fn header_of(bytes: Seq<u8>) -> HeaderFields {
    HeaderFields {
        tag: bytes[0],
        len: (bytes[1] as nat) * 0x1_0000 + (bytes[2] as nat) * 0x100 + (bytes[3] as nat),
    }
}

/// The four wire bytes of a header.
pub open spec fn bytes_of(header: HeaderFields) -> Seq<u8> {
    seq![
        header.tag,
        (header.len / 0x1_0000) as u8,
        (header.len / 0x100 % 0x100) as u8,
        (header.len % 0x100) as u8,
    ]
}

/// Encoding and then decoding gives the header back, for every tag and
/// every length that three bytes can hold.
pub proof fn lemma_encode_decode(tag: u8, len: nat)
    requires
        len < LENGTH_LIMIT,
    ensures
        bytes_of(HeaderFields { tag, len }).len() == HEADER_LEN,
        header_of(bytes_of(HeaderFields { tag, len })) == (HeaderFields { tag, len }),
{
}

/// Decoding and then encoding gives the four bytes back.
pub proof fn lemma_decode_encode(bytes: Seq<u8>)
    requires
        bytes.len() == HEADER_LEN,
    ensures
        header_of(bytes).len < LENGTH_LIMIT,
        bytes_of(header_of(bytes)) == bytes,
{
    assert(bytes_of(header_of(bytes)) =~= bytes);
}

/// The header of a handshake message, laid out as on the wire. Every four
/// bytes are a header: a tag outside `HandshakeType` is kept as it is.
#[derive(Clone, Copy, Debug)]
pub struct HandshakeHeader {
    msg_type: u8,
    length: [u8; 3],
}

impl View for HandshakeHeader {
    type V = HeaderFields;

    closed spec fn view(&self) -> HeaderFields {
        HeaderFields {
            tag: self.msg_type,
            len: (self.length@[0] as nat) * 0x1_0000 + (self.length@[1] as nat) * 0x100 + (
            self.length@[2] as nat),
        }
    }
}

impl HandshakeHeader {
    /// The header with the given tag and body length, where three bytes can
    /// hold the length.
    pub fn new(tag: u8, len: u32) -> (header: Option<Self>)
        ensures
            header.is_some() <==> len < LENGTH_LIMIT,
            header matches Some(h) ==> h@ == (HeaderFields { tag, len: len as nat }),
    {
        if len >= LENGTH_LIMIT {
            return None;
        }
        let length: [u8; 3] = [
            (len / 0x1_0000) as u8,
            (len / 0x100 % 0x100) as u8,
            (len % 0x100) as u8,
        ];
        Some(HandshakeHeader { msg_type: tag, length })
    }

    /// The header that four wire bytes spell.
    pub fn from_bytes(bytes: [u8; 4]) -> (header: Self)
        ensures
            header@ == header_of(bytes@),
    {
        HandshakeHeader { msg_type: bytes[0], length: [bytes[1], bytes[2], bytes[3]] }
    }

    /// The four wire bytes of the header.
    pub fn to_bytes(self) -> (bytes: [u8; 4])
        ensures
            bytes@ == bytes_of(self@),
            header_of(bytes@) == self@,
    {
        let bytes: [u8; 4] = [self.msg_type, self.length[0], self.length[1], self.length[2]];
        proof {
            assert(bytes@ =~= bytes_of(self@));
        }
        bytes
    }

    /// Reads a header from the front of `buffer` and hands back what
    /// follows it. Fails where `buffer` holds fewer than four bytes.
    pub fn decode(buffer: &[u8]) -> (decoded: Result<(Self, &[u8]), Truncated>)
        ensures
            decoded.is_ok() <==> buffer@.len() >= HEADER_LEN,
            decoded matches Ok((header, rest)) ==> header@ == header_of(buffer@.take(4)) && rest@
                == buffer@.skip(4),
            decoded matches Err(e) ==> e == (Truncated {
                requested: HEADER_LEN,
                available: buffer@.len() as usize,
            }),
    {
        if buffer.len() < HEADER_LEN {
            return Err(Truncated { requested: HEADER_LEN, available: buffer.len() });
        }
        let header = HandshakeHeader {
            msg_type: buffer[0],
            length: [buffer[1], buffer[2], buffer[3]],
        };
        let rest = &buffer[HEADER_LEN..buffer.len()];
        Ok((header, rest))
    }

    /// The type of the message, or `None` for a tag that names no known
    /// type.
    pub fn msg_type(self) -> (msg_type: Option<HandshakeType>)
        ensures
            msg_type == HandshakeType::of_tag(self@.tag),
    {
        match HandshakeType::try_from(self.msg_type) {
            Ok(msg_type) => Some(msg_type),
            Err(_) => None,
        }
    }

    /// The length of the message body that follows the header.
    pub fn len(self) -> (len: usize)
        ensures
            len == self@.len,
            len < LENGTH_LIMIT,
    {
        let len: u32 = (self.length[0] as u32) * 0x1_0000 + (self.length[1] as u32) * 0x100 + (
        self.length[2] as u32);
        len as usize
    }

    /// Whether the message body is empty.
    pub fn is_empty(self) -> (empty: bool)
        ensures
            empty == (self@.len == 0),
    {
        self.len() == 0
    }
}

} // verus!
