//! What every client of the library has in common: the pair of tags that it
//! writes into the headers of what it encrypts, and that it expects in the
//! headers of what it decrypts.

use vstd::prelude::*;
use crate::errors::{AlloyError, ErrorKind};
use crate::key_id_header::{
    decode_version_prefixed_value, parse_header, EdekType, KeyId, KeyIdHeader, PayloadType,
};

verus! {

/// The key id and the bytes behind the header of `value`, for a client that
/// writes `edek_type` and `payload_type`: `MalformedHeader` where no header can
/// be read, and where the header was written by another kind of client.
pub open spec fn decompose(edek_type: EdekType, payload_type: PayloadType, value: Seq<u8>) -> Result<
    (KeyId, Seq<u8>),
    ErrorKind,
> {
    match parse_header(value) {
        Some((header, rest)) => if header.edek_type == edek_type && header.payload_type
            == payload_type {
            Ok((header.key_id, rest))
        } else {
            Err(ErrorKind::MalformedHeader)
        },
        None => Err(ErrorKind::MalformedHeader),
    }
}

/// A client that writes headers with one fixed pair of tags.
pub trait AlloyClient {
    /// The kind of key provider that this client works with.
    spec fn edek_type() -> EdekType;

    /// The kind of payload that this client writes.
    spec fn payload_type() -> PayloadType;

    /// The kind of key provider that this client works with.
    fn get_edek_type() -> (t: EdekType)
        ensures
            t == Self::edek_type(),
    ;

    /// The kind of payload that this client writes.
    fn get_payload_type() -> (t: PayloadType)
        ensures
            t == Self::payload_type(),
    ;

    /// The header that this client writes for the key `key_id`.
    fn create_key_id_header(key_id: u32) -> (h: KeyIdHeader)
        ensures
            h == (KeyIdHeader {
                key_id: KeyId(key_id),
                edek_type: Self::edek_type(),
                payload_type: Self::payload_type(),
            }),
    {
        KeyIdHeader::new(Self::get_edek_type(), Self::get_payload_type(), KeyId(key_id))
    }

    /// Takes the header off `encrypted_bytes` and checks that a client of this
    /// kind wrote it.
    fn decompose_key_id_header(encrypted_bytes: &Vec<u8>) -> (r: Result<(KeyId, Vec<u8>), AlloyError>)
        ensures
            match decompose(Self::edek_type(), Self::payload_type(), encrypted_bytes@) {
                Ok((key_id, rest)) => r matches Ok(parts) && parts.0 == key_id && parts.1@ == rest,
                Err(kind) => r matches Err(e) && e.kind() == kind,
            },
    {
        let (header, rest) = match decode_version_prefixed_value(encrypted_bytes) {
            Ok(parts) => parts,
            Err(e) => {
                return Err(e);
            },
        };
        let expected_edek_type = Self::get_edek_type();
        let expected_payload_type = Self::get_payload_type();
        if header.edek_type == expected_edek_type && header.payload_type == expected_payload_type {
            Ok((header.key_id, rest))
        } else {
            Err(
                AlloyError::MalformedHeader {
                    msg: "The data was not written by this kind of client.".to_string(),
                },
            )
        }
    }
}

} // verus!
