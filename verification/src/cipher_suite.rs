//! The TLS 1.3 cipher suites that QUIC can negotiate, by wire identifier.

use crate::event::{api, builder, IntoEvent};
use vstd::prelude::*;
use vstd::std_specs::convert::FromSpecImpl;

verus! {

/// Wire identifier of `TLS_AES_128_GCM_SHA256`.
pub const TAG_AES_128_GCM_SHA256: u16 = 0x1301;

/// Wire identifier of `TLS_AES_256_GCM_SHA384`.
pub const TAG_AES_256_GCM_SHA384: u16 = 0x1302;

/// Wire identifier of `TLS_CHACHA20_POLY1305_SHA256`.
pub const TAG_CHACHA20_POLY1305_SHA256: u16 = 0x1303;

/// A cipher suite as identified on the wire. Every two-byte tag maps to a
/// member: tags outside the three known suites map to `Unknown`.
#[derive(Copy, Clone, Debug, PartialEq, Eq, Structural)]
#[allow(non_camel_case_types)]
pub enum CipherSuite {
    TLS_AES_128_GCM_SHA256,
    TLS_AES_256_GCM_SHA384,
    TLS_CHACHA20_POLY1305_SHA256,
    Unknown,
}

impl CipherSuite {
    /// The suite that a wire tag names.
    pub open spec fn of_tag(tag: u16) -> CipherSuite {
        if tag == TAG_AES_128_GCM_SHA256 {
            CipherSuite::TLS_AES_128_GCM_SHA256
        } else if tag == TAG_AES_256_GCM_SHA384 {
            CipherSuite::TLS_AES_256_GCM_SHA384
        } else if tag == TAG_CHACHA20_POLY1305_SHA256 {
            CipherSuite::TLS_CHACHA20_POLY1305_SHA256
        } else {
            CipherSuite::Unknown
        }
    }

    /// Whether a wire tag names one of the three known suites.
    pub open spec fn is_known_tag(tag: u16) -> bool {
        tag == TAG_AES_128_GCM_SHA256 || tag == TAG_AES_256_GCM_SHA384 || tag
            == TAG_CHACHA20_POLY1305_SHA256
    }

    /// The wire tag of a known suite; `Unknown` has none.
    pub fn tag(self) -> (tag: Option<u16>)
        ensures
            self == CipherSuite::Unknown <==> tag.is_none(),
            tag matches Some(t) ==> Self::is_known_tag(t) && Self::of_tag(t) == self,
    {
        match self {
            CipherSuite::TLS_AES_128_GCM_SHA256 => Some(TAG_AES_128_GCM_SHA256),
            CipherSuite::TLS_AES_256_GCM_SHA384 => Some(TAG_AES_256_GCM_SHA384),
            CipherSuite::TLS_CHACHA20_POLY1305_SHA256 => Some(TAG_CHACHA20_POLY1305_SHA256),
            CipherSuite::Unknown => None,
        }
    }
}

impl From<u16> for CipherSuite {
    fn from(item: u16) -> (suite: Self) {
        if item == TAG_AES_128_GCM_SHA256 {
            CipherSuite::TLS_AES_128_GCM_SHA256
        } else if item == TAG_AES_256_GCM_SHA384 {
            CipherSuite::TLS_AES_256_GCM_SHA384
        } else if item == TAG_CHACHA20_POLY1305_SHA256 {
            CipherSuite::TLS_CHACHA20_POLY1305_SHA256
        } else {
            CipherSuite::Unknown
        }
    }
}

impl FromSpecImpl<u16> for CipherSuite {
    open spec fn obeys_from_spec() -> bool {
        true
    }

    open spec fn from_spec(item: u16) -> Self {
        Self::of_tag(item)
    }
}

impl CipherSuite {
    /// The event, in the builder's form, that reports this suite.
    pub open spec fn reported(self) -> builder::CipherSuite {
        match self {
            CipherSuite::TLS_AES_128_GCM_SHA256 => builder::CipherSuite::TLS_AES_128_GCM_SHA256,
            CipherSuite::TLS_AES_256_GCM_SHA384 => builder::CipherSuite::TLS_AES_256_GCM_SHA384,
            CipherSuite::TLS_CHACHA20_POLY1305_SHA256 => {
                builder::CipherSuite::TLS_CHACHA20_POLY1305_SHA256
            },
            CipherSuite::Unknown => builder::CipherSuite::Unknown,
        }
    }
}

impl IntoEvent<builder::CipherSuite> for CipherSuite {
    open spec fn as_event(self) -> builder::CipherSuite {
        self.reported()
    }

    fn into_event(self) -> builder::CipherSuite {
        match self {
            CipherSuite::TLS_AES_128_GCM_SHA256 => builder::CipherSuite::TLS_AES_128_GCM_SHA256,
            CipherSuite::TLS_AES_256_GCM_SHA384 => builder::CipherSuite::TLS_AES_256_GCM_SHA384,
            CipherSuite::TLS_CHACHA20_POLY1305_SHA256 => {
                builder::CipherSuite::TLS_CHACHA20_POLY1305_SHA256
            },
            CipherSuite::Unknown => builder::CipherSuite::Unknown,
        }
    }
}

impl IntoEvent<api::CipherSuite> for CipherSuite {
    open spec fn as_event(self) -> api::CipherSuite {
        self.reported().published()
    }

    fn into_event(self) -> api::CipherSuite {
        let builder: builder::CipherSuite = self.into_event();
        builder.into_event()
    }
}

/// `from` is total, by `of_tag`: the three known tags give their suites, and
/// every other tag gives `Unknown`.
pub proof fn lemma_from_tag(tag: u16)
    ensures
        tag == 0x1301 ==> CipherSuite::of_tag(tag) == CipherSuite::TLS_AES_128_GCM_SHA256,
        tag == 0x1302 ==> CipherSuite::of_tag(tag) == CipherSuite::TLS_AES_256_GCM_SHA384,
        tag == 0x1303 ==> CipherSuite::of_tag(tag)
            == CipherSuite::TLS_CHACHA20_POLY1305_SHA256,
        tag != 0x1301 && tag != 0x1302 && tag != 0x1303 ==> CipherSuite::of_tag(tag)
            == CipherSuite::Unknown,
{
}

} // verus!
