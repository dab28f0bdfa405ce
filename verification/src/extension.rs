//! The registry of TLS extension types, by their two-byte wire codes, and
//! an extension as it stands in a hello message.

use vstd::prelude::*;
use vstd::std_specs::convert::TryFromSpecImpl;

verus! {

/// The wire code of the server name extension.
pub const SERVER_NAME: u16 = 0;

/// The wire code of the application protocol extension.
pub const APPLICATION_LAYER_PROTOCOL_NEGOTIATION: u16 = 16;

/// The extension types of the registry. A code outside the registry is no
/// error on the wire: such an extension is skipped by its length.
#[derive(Clone, Copy, Debug, PartialEq, Eq, Structural)]
#[allow(non_camel_case_types)]
pub enum ExtensionType {
    server_name,
    max_fragment_length,
    status_request,
    supported_groups,
    ec_point_formats,
    signature_algorithms,
    use_srtp,
    heartbeat,
    application_layer_protocol_negotiation,
    signed_certificate_timestamp,
    client_certificate_type,
    server_certificate_type,
    padding,
    extended_master_secret,
    session_ticket,
    reserved_one,
    pre_shared_key,
    early_data,
    supported_versions,
    cookie,
    psk_key_exchange_modes,
    reserved_two,
    certificate_authorities,
    oid_filters,
    post_handshake_auth,
    signature_algorithms_cert,
    key_share,
    quic_transport_parameters,
}

impl ExtensionType {
    /// The wire code of an extension type.
    pub open spec fn spec_code(self) -> u16 {
        match self {
            ExtensionType::server_name => 0,
            ExtensionType::max_fragment_length => 1,
            ExtensionType::status_request => 5,
            ExtensionType::supported_groups => 10,
            ExtensionType::ec_point_formats => 11,
            ExtensionType::signature_algorithms => 13,
            ExtensionType::use_srtp => 14,
            ExtensionType::heartbeat => 15,
            ExtensionType::application_layer_protocol_negotiation => 16,
            ExtensionType::signed_certificate_timestamp => 18,
            ExtensionType::client_certificate_type => 19,
            ExtensionType::server_certificate_type => 20,
            ExtensionType::padding => 21,
            ExtensionType::extended_master_secret => 23,
            ExtensionType::session_ticket => 35,
            ExtensionType::reserved_one => 40,
            ExtensionType::pre_shared_key => 41,
            ExtensionType::early_data => 42,
            ExtensionType::supported_versions => 43,
            ExtensionType::cookie => 44,
            ExtensionType::psk_key_exchange_modes => 45,
            ExtensionType::reserved_two => 46,
            ExtensionType::certificate_authorities => 47,
            ExtensionType::oid_filters => 48,
            ExtensionType::post_handshake_auth => 49,
            ExtensionType::signature_algorithms_cert => 50,
            ExtensionType::key_share => 51,
            ExtensionType::quic_transport_parameters => 57,
        }
    }

    /// The extension type that a wire code names, if the registry holds
    /// the code.
    pub open spec fn of_code(code: u16) -> Option<ExtensionType> {
        if code == 0 {
            Some(ExtensionType::server_name)
        } else if code == 1 {
            Some(ExtensionType::max_fragment_length)
        } else if code == 5 {
            Some(ExtensionType::status_request)
        } else if code == 10 {
            Some(ExtensionType::supported_groups)
        } else if code == 11 {
            Some(ExtensionType::ec_point_formats)
        } else if code == 13 {
            Some(ExtensionType::signature_algorithms)
        } else if code == 14 {
            Some(ExtensionType::use_srtp)
        } else if code == 15 {
            Some(ExtensionType::heartbeat)
        } else if code == 16 {
            Some(ExtensionType::application_layer_protocol_negotiation)
        } else if code == 18 {
            Some(ExtensionType::signed_certificate_timestamp)
        } else if code == 19 {
            Some(ExtensionType::client_certificate_type)
        } else if code == 20 {
            Some(ExtensionType::server_certificate_type)
        } else if code == 21 {
            Some(ExtensionType::padding)
        } else if code == 23 {
            Some(ExtensionType::extended_master_secret)
        } else if code == 35 {
            Some(ExtensionType::session_ticket)
        } else if code == 40 {
            Some(ExtensionType::reserved_one)
        } else if code == 41 {
            Some(ExtensionType::pre_shared_key)
        } else if code == 42 {
            Some(ExtensionType::early_data)
        } else if code == 43 {
            Some(ExtensionType::supported_versions)
        } else if code == 44 {
            Some(ExtensionType::cookie)
        } else if code == 45 {
            Some(ExtensionType::psk_key_exchange_modes)
        } else if code == 46 {
            Some(ExtensionType::reserved_two)
        } else if code == 47 {
            Some(ExtensionType::certificate_authorities)
        } else if code == 48 {
            Some(ExtensionType::oid_filters)
        } else if code == 49 {
            Some(ExtensionType::post_handshake_auth)
        } else if code == 50 {
            Some(ExtensionType::signature_algorithms_cert)
        } else if code == 51 {
            Some(ExtensionType::key_share)
        } else if code == 57 {
            Some(ExtensionType::quic_transport_parameters)
        } else {
            None
        }
    }

    /// The wire code of an extension type.
    #[verifier::when_used_as_spec(spec_code)]
    pub fn code(self) -> (code: u16)
        ensures
            code == self.spec_code(),
            Self::of_code(code) == Some(self),
    {
        match self {
            ExtensionType::server_name => 0,
            ExtensionType::max_fragment_length => 1,
            ExtensionType::status_request => 5,
            ExtensionType::supported_groups => 10,
            ExtensionType::ec_point_formats => 11,
            ExtensionType::signature_algorithms => 13,
            ExtensionType::use_srtp => 14,
            ExtensionType::heartbeat => 15,
            ExtensionType::application_layer_protocol_negotiation => 16,
            ExtensionType::signed_certificate_timestamp => 18,
            ExtensionType::client_certificate_type => 19,
            ExtensionType::server_certificate_type => 20,
            ExtensionType::padding => 21,
            ExtensionType::extended_master_secret => 23,
            ExtensionType::session_ticket => 35,
            ExtensionType::reserved_one => 40,
            ExtensionType::pre_shared_key => 41,
            ExtensionType::early_data => 42,
            ExtensionType::supported_versions => 43,
            ExtensionType::cookie => 44,
            ExtensionType::psk_key_exchange_modes => 45,
            ExtensionType::reserved_two => 46,
            ExtensionType::certificate_authorities => 47,
            ExtensionType::oid_filters => 48,
            ExtensionType::post_handshake_auth => 49,
            ExtensionType::signature_algorithms_cert => 50,
            ExtensionType::key_share => 51,
            ExtensionType::quic_transport_parameters => 57,
        }
    }

    /// The extension type that a wire code names. A code outside the
    /// registry is no error: it names no type, and an extension that
    /// carries it is passed over by its length.
    pub fn recognize(code: u16) -> (found: Option<ExtensionType>)
        ensures
            found == Self::of_code(code),
    {
        match ExtensionType::try_from(code) {
            Ok(flavor) => Some(flavor),
            Err(_) => None,
        }
    }
}

impl TryFrom<u16> for ExtensionType {
    type Error = ();

    fn try_from(value: u16) -> (found: Result<Self, ()>) {
        match value {
            0 => Ok(ExtensionType::server_name),
            1 => Ok(ExtensionType::max_fragment_length),
            5 => Ok(ExtensionType::status_request),
            10 => Ok(ExtensionType::supported_groups),
            11 => Ok(ExtensionType::ec_point_formats),
            13 => Ok(ExtensionType::signature_algorithms),
            14 => Ok(ExtensionType::use_srtp),
            15 => Ok(ExtensionType::heartbeat),
            16 => Ok(ExtensionType::application_layer_protocol_negotiation),
            18 => Ok(ExtensionType::signed_certificate_timestamp),
            19 => Ok(ExtensionType::client_certificate_type),
            20 => Ok(ExtensionType::server_certificate_type),
            21 => Ok(ExtensionType::padding),
            23 => Ok(ExtensionType::extended_master_secret),
            35 => Ok(ExtensionType::session_ticket),
            40 => Ok(ExtensionType::reserved_one),
            41 => Ok(ExtensionType::pre_shared_key),
            42 => Ok(ExtensionType::early_data),
            43 => Ok(ExtensionType::supported_versions),
            44 => Ok(ExtensionType::cookie),
            45 => Ok(ExtensionType::psk_key_exchange_modes),
            46 => Ok(ExtensionType::reserved_two),
            47 => Ok(ExtensionType::certificate_authorities),
            48 => Ok(ExtensionType::oid_filters),
            49 => Ok(ExtensionType::post_handshake_auth),
            50 => Ok(ExtensionType::signature_algorithms_cert),
            51 => Ok(ExtensionType::key_share),
            57 => Ok(ExtensionType::quic_transport_parameters),
            _ => Err(()),
        }
    }
}

impl TryFromSpecImpl<u16> for ExtensionType {
    open spec fn obeys_try_from_spec() -> bool {
        true
    }

    open spec fn try_from_spec(value: u16) -> Result<Self, ()> {
        match Self::of_code(value) {
            Some(flavor) => Ok(flavor),
            None => Err(()),
        }
    }
}

/// Code to type to code is the identity on the registry, and so is type to
/// code to type: a code names a type exactly where it is that type's code.
pub proof fn lemma_extension_codes(flavor: ExtensionType, code: u16)
    ensures
        ExtensionType::of_code(code) matches Some(found) ==> found.spec_code() == code,
        ExtensionType::of_code(flavor.spec_code()) == Some(flavor),
        ExtensionType::of_code(code) == Some(flavor) <==> flavor.spec_code() == code,
{
}

/// An extension of a hello message: its type and its payload bytes.
#[derive(Debug)]
pub struct Extension {
    pub flavor: ExtensionType,
    payload: Vec<u8>,
}

impl Extension {
    /// The type of the extension.
    pub closed spec fn spec_flavor(self) -> ExtensionType {
        self.flavor
    }

    /// The payload bytes.
    pub closed spec fn spec_payload(self) -> Seq<u8> {
        self.payload@
    }

    /// An extension of type `flavor` with the payload `payload`.
    pub fn new(flavor: ExtensionType, payload: Vec<u8>) -> (extension: Self)
        ensures
            extension.spec_flavor() == flavor,
            extension.spec_payload() == payload@,
    {
        Extension { flavor, payload }
    }

    /// The type of the extension.
    pub fn flavor(&self) -> (flavor: ExtensionType)
        ensures
            flavor == self.spec_flavor(),
    {
        self.flavor
    }

    /// The payload bytes.
    pub fn payload(&self) -> (payload: &[u8])
        ensures
            payload@ == self.spec_payload(),
    {
        self.payload.as_slice()
    }
}

} // verus!
