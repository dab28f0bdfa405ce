//! Extraction of the server name and the application protocol from a
//! ClientHello, before any TLS session exists. The body is walked with
//! skips and reads alone; only the two payloads are copied. The input comes
//! from the network: a field that reaches past the end of the input is
//! answered with `Truncated`, never with a partial result.

use crate::buffer::{bytes_clone, contents};
use crate::cursor::{be_u16, concat, NonContiguousBuffer};
use crate::error::Truncated;
use crate::extension::ExtensionType;
use bytes::Bytes;
use vstd::prelude::*;

verus! {

/// The length of the legacy version field.
pub const LEGACY_VERSION_LEN: usize = 2;

/// The length of the random field.
pub const RANDOM_LEN: usize = 32;

/// The payloads found in a ClientHello: the server name extension's and
/// the application protocol extension's, each as it stands on the wire.
pub struct Fields {
    pub sni: Option<Seq<u8>>,
    pub alpn: Option<Seq<u8>>,
}

/// What is left of `stream` behind its first `len` bytes.
pub open spec fn skipped(stream: Seq<u8>, len: nat) -> Result<Seq<u8>, Truncated> {
    if len <= stream.len() {
        Ok(stream.skip(len as int))
    } else {
        Err(Truncated { requested: len as usize, available: stream.len() as usize })
    }
}

/// What is left of `stream` behind a field that a one-byte length stands
/// before.
pub open spec fn after_short_field(stream: Seq<u8>) -> Result<Seq<u8>, Truncated> {
    if stream.len() < 1 {
        Err(Truncated { requested: 1, available: 0 })
    } else {
        skipped(stream.skip(1), stream[0] as nat)
    }
}

/// What is left of `stream` behind a field that a two-byte big-endian
/// length stands before.
pub open spec fn after_long_field(stream: Seq<u8>) -> Result<Seq<u8>, Truncated> {
    if stream.len() < 2 {
        Err(Truncated { requested: 2, available: stream.len() as usize })
    } else {
        skipped(stream.skip(2), be_u16(stream[0], stream[1]) as nat)
    }
}

/// The bytes behind the length of the extensions block, where the block
/// does not declare more bytes than follow.
pub open spec fn declared_block(stream: Seq<u8>) -> Result<Seq<u8>, Truncated> {
    if stream.len() < 2 {
        Err(Truncated { requested: 2, available: stream.len() as usize })
    } else if be_u16(stream[0], stream[1]) > stream.len() - 2 {
        Err(
            Truncated {
                requested: be_u16(stream[0], stream[1]) as usize,
                available: (stream.len() - 2) as usize,
            },
        )
    } else {
        Ok(stream.skip(2))
    }
}

/// The extensions of a ClientHello body: what follows the legacy version,
/// the random, the session id, the cipher suites, the compression methods
/// and the length of the extensions block.
pub open spec fn extensions_of(body: Seq<u8>) -> Result<Seq<u8>, Truncated> {
    match skipped(body, LEGACY_VERSION_LEN as nat) {
        Err(e) => Err(e),
        Ok(random) => match skipped(random, RANDOM_LEN as nat) {
            Err(e) => Err(e),
            Ok(session_id) => match after_short_field(session_id) {
                Err(e) => Err(e),
                Ok(cipher_suites) => match after_long_field(cipher_suites) {
                    Err(e) => Err(e),
                    Ok(compression) => match after_short_field(compression) {
                        Err(e) => Err(e),
                        Ok(block) => declared_block(block),
                    },
                },
            },
        },
    }
}

/// `found`, with the payload of an extension of the given code put in its
/// place: a server name or an application protocol takes the place of one
/// found before, and any other extension changes nothing.
pub open spec fn noted(found: Fields, code: u16, payload: Seq<u8>) -> Fields {
    match ExtensionType::of_code(code) {
        Some(ExtensionType::server_name) => Fields { sni: Some(payload), alpn: found.alpn },
        Some(ExtensionType::application_layer_protocol_negotiation) => Fields {
            sni: found.sni,
            alpn: Some(payload),
        },
        _ => found,
    }
}

/// The payloads found by walking the extensions `extensions` to their end,
/// after `found` was found: each extension is a two-byte type, a two-byte
/// payload length and the payload.
pub open spec fn walk(extensions: Seq<u8>, found: Fields) -> Result<Fields, Truncated>
    decreases extensions.len(),
{
    if extensions.len() == 0 {
        Ok(found)
    } else if extensions.len() < 2 {
        Err(Truncated { requested: 2, available: extensions.len() as usize })
    } else if extensions.len() < 4 {
        Err(Truncated { requested: 2, available: (extensions.len() - 2) as usize })
    } else {
        let code = be_u16(extensions[0], extensions[1]);
        let len = be_u16(extensions[2], extensions[3]);
        if extensions.len() - 4 < len {
            Err(Truncated { requested: len as usize, available: (extensions.len() - 4) as usize })
        } else {
            walk(
                extensions.skip(4 + len),
                noted(found, code, extensions.subrange(4, 4 + len)),
            )
        }
    }
}

/// What a ClientHello body holds of server name and application protocol,
/// or the read that the body was too short for.
pub open spec fn extract(body: Seq<u8>) -> Result<Fields, Truncated> {
    match extensions_of(body) {
        Err(e) => Err(e),
        Ok(extensions) => walk(extensions, Fields { sni: None, alpn: None }),
    }
}

/// The bytes of an optional buffer.
pub open spec fn held(bytes: Option<Bytes>) -> Option<Seq<u8>> {
    match bytes {
        Some(b) => Some(contents(b)),
        None => None,
    }
}

/// What one pass over a ClientHello found: the payload of the server name
/// extension and that of the application protocol extension, each absent
/// where the hello has no such extension.
#[derive(Debug)]
pub struct ClientHello {
    pub sni: Option<Bytes>,
    pub alpn: Option<Bytes>,
}

impl View for ClientHello {
    type V = Fields;

    open spec fn view(&self) -> Fields {
        Fields { sni: held(self.sni), alpn: held(self.alpn) }
    }
}

/// Moves `buffer` from the start of a ClientHello body to its first
/// extension.
fn skip_to_extensions(buffer: &mut NonContiguousBuffer) -> (done: Result<(), Truncated>)
    ensures
        done is Ok ==> extensions_of(old(buffer)@) == Ok::<Seq<u8>, Truncated>(final(buffer)@),
        done matches Err(e) ==> extensions_of(old(buffer)@) == Err::<Seq<u8>, Truncated>(e),
{
    buffer.advance(LEGACY_VERSION_LEN)?;
    buffer.advance(RANDOM_LEN)?;
    skip_short_field(buffer)?;
    skip_long_field(buffer)?;
    skip_short_field(buffer)?;

    let ghost block = buffer@;
    let extension_length = buffer.read_u16()?;
    let available = buffer.remaining();
    if extension_length as usize > available {
        return Err(Truncated { requested: extension_length as usize, available });
    }
    assert(declared_block(block) == Ok::<Seq<u8>, Truncated>(buffer@));
    Ok(())
}

/// Moves `buffer` past a field that a one-byte length stands before.
fn skip_short_field(buffer: &mut NonContiguousBuffer) -> (done: Result<(), Truncated>)
    ensures
        done is Ok ==> after_short_field(old(buffer)@) == Ok::<Seq<u8>, Truncated>(
            final(buffer)@,
        ),
        done matches Err(e) ==> after_short_field(old(buffer)@) == Err::<Seq<u8>, Truncated>(e),
{
    let len = buffer.read_u8()?;
    buffer.advance(len as usize)
}

/// Moves `buffer` past a field that a two-byte length stands before.
fn skip_long_field(buffer: &mut NonContiguousBuffer) -> (done: Result<(), Truncated>)
    ensures
        done is Ok ==> after_long_field(old(buffer)@) == Ok::<Seq<u8>, Truncated>(final(buffer)@),
        done matches Err(e) ==> after_long_field(old(buffer)@) == Err::<Seq<u8>, Truncated>(e),
{
    let len = buffer.read_u16()?;
    buffer.advance(len as usize)
}

/// Walks the extensions that `buffer` stands before, to the end of the
/// input.
fn walk_extensions(buffer: &mut NonContiguousBuffer) -> (hello: Result<ClientHello, Truncated>)
    ensures
        hello matches Ok(h) ==> walk(old(buffer)@, Fields { sni: None, alpn: None }) == Ok::<
            Fields,
            Truncated,
        >(h@),
        hello matches Err(e) ==> walk(old(buffer)@, Fields { sni: None, alpn: None }) == Err::<
            Fields,
            Truncated,
        >(e),
{
    let mut sni: Option<Bytes> = None;
    let mut alpn: Option<Bytes> = None;
    while buffer.has_remaining()
        invariant
            walk(buffer@, Fields { sni: held(sni), alpn: held(alpn) }) == walk(
                old(buffer)@,
                Fields { sni: None, alpn: None },
            ),
        decreases buffer@.len(),
    {
        let ghost before = buffer@;
        let extension_type = buffer.read_u16()?;
        let extension_payload_length = buffer.read_u16()?;
        proof {
            assert(before.skip(2).skip(2) =~= before.skip(4));
            assert(before.skip(2)[0] == before[2] && before.skip(2)[1] == before[3]);
        }
        match ExtensionType::recognize(extension_type) {
            Some(ExtensionType::server_name) => {
                sni = Some(buffer.materialize(extension_payload_length as usize)?);
            },
            Some(ExtensionType::application_layer_protocol_negotiation) => {
                alpn = Some(buffer.materialize(extension_payload_length as usize)?);
            },
            _ => {
                buffer.advance(extension_payload_length as usize)?;
            },
        }
        proof {
            let len = extension_payload_length as int;
            assert(before.skip(4).take(len) =~= before.subrange(4, 4 + len));
            assert(before.skip(4).skip(len) =~= before.skip(4 + len));
        }
    }
    Ok(ClientHello { sni, alpn })
}

impl ClientHello {
    /// Walks the ClientHello body that `payload` holds in chunks.
    pub fn from_bytes(payload: &[&[u8]]) -> (hello: Result<Self, Truncated>)
        requires
            concat(payload@).len() <= usize::MAX,
        ensures
            hello matches Ok(h) ==> extract(concat(payload@)) == Ok::<Fields, Truncated>(h@),
            hello matches Err(e) ==> extract(concat(payload@)) == Err::<Fields, Truncated>(e),
    {
        let mut buffer = NonContiguousBuffer::new(payload);
        skip_to_extensions(&mut buffer)?;
        walk_extensions(&mut buffer)
    }

    /// The payload of the server name extension, if the hello had one.
    pub fn sni(&self) -> (sni: Option<Bytes>)
        ensures
            held(sni) == self@.sni,
    {
        match &self.sni {
            Some(bytes) => Some(bytes_clone(bytes)),
            None => None,
        }
    }

    /// The payload of the application protocol extension, if the hello had
    /// one.
    pub fn alpn(&self) -> (alpn: Option<Bytes>)
        ensures
            held(alpn) == self@.alpn,
    {
        match &self.alpn {
            Some(bytes) => Some(bytes_clone(bytes)),
            None => None,
        }
    }
}

} // verus!
