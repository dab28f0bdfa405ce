//! The events as subscribers read them.

use vstd::prelude::*;

verus! {

/// The cipher suite that a connection has negotiated.
#[derive(Clone, Copy, Debug, PartialEq, Eq, Structural)]
#[allow(non_camel_case_types)]
#[non_exhaustive]
pub enum CipherSuite {
    TLS_AES_128_GCM_SHA256,
    TLS_AES_256_GCM_SHA384,
    TLS_CHACHA20_POLY1305_SHA256,
    Unknown,
}

} // verus!
