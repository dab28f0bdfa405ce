//! The events as the library fills them in.

use crate::event::api;
use crate::event::IntoEvent;
use vstd::prelude::*;

verus! {

/// The cipher suite that a connection has negotiated.
#[derive(Clone, Copy, Debug, PartialEq, Eq, Structural)]
#[allow(non_camel_case_types)]
pub enum CipherSuite {
    TLS_AES_128_GCM_SHA256,
    TLS_AES_256_GCM_SHA384,
    TLS_CHACHA20_POLY1305_SHA256,
    Unknown,
}

impl CipherSuite {
    /// The event that subscribers read for this one.
    pub open spec fn published(self) -> api::CipherSuite {
        match self {
            CipherSuite::TLS_AES_128_GCM_SHA256 => api::CipherSuite::TLS_AES_128_GCM_SHA256,
            CipherSuite::TLS_AES_256_GCM_SHA384 => api::CipherSuite::TLS_AES_256_GCM_SHA384,
            CipherSuite::TLS_CHACHA20_POLY1305_SHA256 => {
                api::CipherSuite::TLS_CHACHA20_POLY1305_SHA256
            },
            CipherSuite::Unknown => api::CipherSuite::Unknown,
        }
    }
}

impl IntoEvent<api::CipherSuite> for CipherSuite {
    open spec fn as_event(self) -> api::CipherSuite {
        self.published()
    }

    fn into_event(self) -> (event: api::CipherSuite) {
        match self {
            CipherSuite::TLS_AES_128_GCM_SHA256 => api::CipherSuite::TLS_AES_128_GCM_SHA256,
            CipherSuite::TLS_AES_256_GCM_SHA384 => api::CipherSuite::TLS_AES_256_GCM_SHA384,
            CipherSuite::TLS_CHACHA20_POLY1305_SHA256 => {
                api::CipherSuite::TLS_CHACHA20_POLY1305_SHA256
            },
            CipherSuite::Unknown => api::CipherSuite::Unknown,
        }
    }
}

} // verus!
