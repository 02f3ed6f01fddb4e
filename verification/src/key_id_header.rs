//! The six-byte header that binds a ciphertext to the key that made it.
//!
//! Layout: the key id as a big-endian `u32`; one byte whose upper four bits name
//! the kind of key provider and whose lower four bits name the kind of payload;
//! one byte that is always zero.

use vstd::prelude::*;
use crate::errors::{AlloyError, ErrorKind};

verus! {

/// The length of an encoded header.
pub const KEY_ID_HEADER_LEN: usize = 6;

/// The identifier of a key within a tenant.
#[derive(Clone, Copy, Debug, PartialEq, Eq, Structural)]
pub struct KeyId(pub u32);

/// The kind of key provider a key id refers to.
#[derive(Clone, Copy, Debug, PartialEq, Eq, Structural)]
pub enum EdekType {
    Standalone,
    SaasShield,
    DataControlPlatform,
}

/// The kind of data that follows a header.
#[derive(Clone, Copy, Debug, PartialEq, Eq, Structural)]
pub enum PayloadType {
    DeterministicField,
    VectorMetadata,
    StandardEdek,
}

/// A decoded header.
#[derive(Clone, Copy, Debug, PartialEq, Eq, Structural)]
pub struct KeyIdHeader {
    pub key_id: KeyId,
    pub edek_type: EdekType,
    pub payload_type: PayloadType,
}

/// The value that stands for an `EdekType` in the upper four bits of the tag byte.
pub open spec fn edek_type_tag(t: EdekType) -> int {
    match t {
        EdekType::SaasShield => 0,
        EdekType::Standalone => 128,
        EdekType::DataControlPlatform => 64,
    }
}

/// The value that stands for a `PayloadType` in the lower four bits of the tag byte.
pub open spec fn payload_type_tag(t: PayloadType) -> int {
    match t {
        PayloadType::DeterministicField => 0,
        PayloadType::VectorMetadata => 1,
        PayloadType::StandardEdek => 2,
    }
}

/// The `EdekType` that a tag byte names, if it names one.
pub open spec fn edek_type_of(tag_byte: u8) -> Option<EdekType> {
    let upper = tag_byte - tag_byte % 16;
    if upper == 0 {
        Some(EdekType::SaasShield)
    } else if upper == 128 {
        Some(EdekType::Standalone)
    } else if upper == 64 {
        Some(EdekType::DataControlPlatform)
    } else {
        None
    }
}

/// The `PayloadType` that a tag byte names, if it names one.
pub open spec fn payload_type_of(tag_byte: u8) -> Option<PayloadType> {
    let lower = tag_byte % 16;
    if lower == 0 {
        Some(PayloadType::DeterministicField)
    } else if lower == 1 {
        Some(PayloadType::VectorMetadata)
    } else if lower == 2 {
        Some(PayloadType::StandardEdek)
    } else {
        None
    }
}

/// The four bytes of a key id, most significant first.
pub open spec fn key_id_bytes(id: u32) -> Seq<u8> {
    seq![
        (id / 256 / 256 / 256) as u8,
        (id / 256 / 256 % 256) as u8,
        (id / 256 % 256) as u8,
        (id % 256) as u8,
    ]
}

/// The key id that four bytes spell, most significant first.
pub open spec fn key_id_of(b: Seq<u8>) -> u32 {
    (((b[0] * 256 + b[1]) * 256 + b[2]) * 256 + b[3]) as u32
}

/// The six bytes that encode a header.
pub open spec fn header_bytes(h: KeyIdHeader) -> Seq<u8> {
    key_id_bytes(h.key_id.0) + seq![
        (edek_type_tag(h.edek_type) + payload_type_tag(h.payload_type)) as u8,
        0u8,
    ]
}

/// The header at the front of `value` and the bytes behind it; `None` where
/// `value` is shorter than a header, its sixth byte is not zero, or its tag byte
/// names no provider or no payload.
pub open spec fn parse_header(value: Seq<u8>) -> Option<(KeyIdHeader, Seq<u8>)> {
    if value.len() < 6 || value[5] != 0 {
        None
    } else {
        match (edek_type_of(value[4]), payload_type_of(value[4])) {
            (Some(edek_type), Some(payload_type)) => Some(
                (
                    KeyIdHeader {
                        key_id: KeyId(key_id_of(value.subrange(0, 4))),
                        edek_type,
                        payload_type,
                    },
                    value.skip(6),
                ),
            ),
            _ => None,
        }
    }
}

/// The four bytes of a key id spell that key id.
pub proof fn lemma_key_id_of_bytes(id: u32)
    ensures
        key_id_bytes(id).len() == 4,
        key_id_of(key_id_bytes(id)) == id,
{
    let q1 = id / 256;
    let q2 = q1 / 256;
    let q3 = q2 / 256;
    assert(id == q1 * 256 + id % 256);
    assert(q1 == q2 * 256 + q1 % 256);
    assert(q2 == q3 * 256 + q2 % 256);
    assert(0 <= q3 < 256);
    let b = key_id_bytes(id);
    assert(b[0] == q3 && b[1] == q2 % 256 && b[2] == q1 % 256 && b[3] == id % 256);
    assert(((b[0] * 256 + b[1]) * 256 + b[2]) * 256 + b[3] == id);
}

/// The key id that four bytes spell has those four bytes.
pub proof fn lemma_bytes_of_key_id(b: Seq<u8>)
    requires
        b.len() == 4,
    ensures
        key_id_bytes(key_id_of(b)) == b,
{
    let x2 = b[0] * 256 + b[1];
    let x1 = x2 * 256 + b[2];
    let x0 = x1 * 256 + b[3];
    assert(0 <= x2 < 0x1_0000);
    assert(0 <= x1 < 0x100_0000);
    assert(0 <= x0 <= u32::MAX);
    assert(x0 % 256 == b[3] && x0 / 256 == x1);
    assert(x1 % 256 == b[2] && x1 / 256 == x2);
    assert(x2 % 256 == b[1] && x2 / 256 == b[0]);
    let id = key_id_of(b);
    assert(id == x0);
    assert(key_id_bytes(id) =~= b);
}

/// A tag byte names the two types that it was made of.
pub proof fn lemma_tag_byte(edek_type: EdekType, payload_type: PayloadType)
    ensures
        0 <= edek_type_tag(edek_type) + payload_type_tag(payload_type) < 256,
        edek_type_of((edek_type_tag(edek_type) + payload_type_tag(payload_type)) as u8) == Some(
            edek_type,
        ),
        payload_type_of((edek_type_tag(edek_type) + payload_type_tag(payload_type)) as u8) == Some(
            payload_type,
        ),
{
}

/// A tag byte that names two types is made of them.
pub proof fn lemma_tag_byte_of(tag_byte: u8)
    requires
        edek_type_of(tag_byte) is Some,
        payload_type_of(tag_byte) is Some,
    ensures
        edek_type_tag(edek_type_of(tag_byte)->Some_0) + payload_type_tag(
            payload_type_of(tag_byte)->Some_0,
        ) == tag_byte,
{
}

/// Decoding inverts encoding: a header written in front of any bytes is read
/// back unchanged, and the bytes behind it are returned untouched.
pub proof fn lemma_parse_inverts_encode(h: KeyIdHeader, body: Seq<u8>)
    ensures
        header_bytes(h).len() == 6,
        parse_header(header_bytes(h) + body) == Some((h, body)),
{
    let value = header_bytes(h) + body;
    lemma_key_id_of_bytes(h.key_id.0);
    lemma_tag_byte(h.edek_type, h.payload_type);
    assert(value.subrange(0, 4) =~= key_id_bytes(h.key_id.0));
    assert(value.skip(6) =~= body);
    assert(value[4] == (edek_type_tag(h.edek_type) + payload_type_tag(h.payload_type)) as u8);
    assert(value[5] == 0);
}

/// Encoding inverts decoding: the six bytes in front of a value that decodes
/// are the encoding of the header that was read from it.
pub proof fn lemma_encode_inverts_parse(value: Seq<u8>)
    requires
        parse_header(value) is Some,
    ensures
        header_bytes(parse_header(value)->Some_0.0) + parse_header(value)->Some_0.1 == value,
{
    let h = parse_header(value)->Some_0.0;
    let rest = parse_header(value)->Some_0.1;
    let front = value.subrange(0, 4);
    lemma_bytes_of_key_id(front);
    lemma_tag_byte_of(value[4]);
    let encoded = header_bytes(h);
    assert(h.key_id.0 == key_id_of(front));
    assert(encoded.len() == 6);
    assert forall|i: int| 0 <= i < 6 implies encoded[i] == value[i] by {
        if i < 4 {
            assert(encoded[i] == key_id_bytes(h.key_id.0)[i]);
            assert(front[i] == value[i]);
        }
    }
    assert(encoded + rest =~= value);
}

impl EdekType {
    /// The value that stands for this type in the tag byte.
    pub fn to_numeric_value(self) -> (n: u8)
        ensures
            n == edek_type_tag(self),
    {
        match self {
            EdekType::SaasShield => 0,
            EdekType::Standalone => 128,
            EdekType::DataControlPlatform => 64,
        }
    }

    /// The type that the upper four bits of `candidate` name.
    pub fn from_numeric_value(candidate: u8) -> (r: Option<EdekType>)
        ensures
            r == edek_type_of(candidate),
    {
        let upper: u8 = candidate - candidate % 16;
        if upper == 0 {
            Some(EdekType::SaasShield)
        } else if upper == 128 {
            Some(EdekType::Standalone)
        } else if upper == 64 {
            Some(EdekType::DataControlPlatform)
        } else {
            None
        }
    }
}

impl PayloadType {
    /// The value that stands for this type in the tag byte.
    pub fn to_numeric_value(self) -> (n: u8)
        ensures
            n == payload_type_tag(self),
    {
        match self {
            PayloadType::DeterministicField => 0,
            PayloadType::VectorMetadata => 1,
            PayloadType::StandardEdek => 2,
        }
    }

    /// The type that the lower four bits of `candidate` name.
    pub fn from_numeric_value(candidate: u8) -> (r: Option<PayloadType>)
        ensures
            r == payload_type_of(candidate),
    {
        let lower: u8 = candidate % 16;
        if lower == 0 {
            Some(PayloadType::DeterministicField)
        } else if lower == 1 {
            Some(PayloadType::VectorMetadata)
        } else if lower == 2 {
            Some(PayloadType::StandardEdek)
        } else {
            None
        }
    }
}

impl KeyIdHeader {
    /// A header of the given parts.
    pub fn new(edek_type: EdekType, payload_type: PayloadType, key_id: KeyId) -> (h: KeyIdHeader)
        ensures
            h == (KeyIdHeader { key_id, edek_type, payload_type }),
    {
        KeyIdHeader { key_id, edek_type, payload_type }
    }

    /// The six bytes that encode this header.
    pub fn write_to_bytes(&self) -> (bytes: Vec<u8>)
        ensures
            bytes@ == header_bytes(*self),
    {
        let id: u32 = self.key_id.0;
        let mut bytes: Vec<u8> = Vec::with_capacity(KEY_ID_HEADER_LEN);
        bytes.push((id / 256 / 256 / 256) as u8);
        bytes.push((id / 256 / 256 % 256) as u8);
        bytes.push((id / 256 % 256) as u8);
        bytes.push((id % 256) as u8);
        bytes.push(self.edek_type.to_numeric_value() + self.payload_type.to_numeric_value());
        bytes.push(0);
        assert(bytes@ =~= header_bytes(*self));
        bytes
    }

    /// The encoding of this header followed by `document`.
    pub fn put_header_on_document(&self, document: &Vec<u8>) -> (bytes: Vec<u8>)
        ensures
            bytes@ == header_bytes(*self) + document@,
    {
        let mut bytes = self.write_to_bytes();
        let mut i: usize = 0;
        while i < document.len()
            invariant
                i <= document@.len(),
                bytes@ == header_bytes(*self) + document@.take(i as int),
            decreases document@.len() - i,
        {
            bytes.push(document[i]);
            assert(document@.take(i + 1) =~= document@.take(i as int).push(document@[i as int]));
            i += 1;
        }
        assert(document@.take(document@.len() as int) =~= document@);
        bytes
    }
}

/// Splits a value into the header at its front and the bytes behind it.
///
/// Fails with `MalformedHeader` exactly where `parse_header` finds no header.
pub fn decode_version_prefixed_value(value: &Vec<u8>) -> (r: Result<
    (KeyIdHeader, Vec<u8>),
    AlloyError,
>)
    ensures
        match parse_header(value@) {
            Some((header, rest)) => r matches Ok(parsed) && parsed.0 == header && parsed.1@ == rest,
            None => r matches Err(e) && e.kind() == ErrorKind::MalformedHeader,
        },
{
    if value.len() < KEY_ID_HEADER_LEN {
        return Err(
            AlloyError::MalformedHeader { msg: "The key id header is too short.".to_string() },
        );
    }
    if value[5] != 0 {
        return Err(
            AlloyError::MalformedHeader {
                msg: "The last byte of the key id header should be 0.".to_string(),
            },
        );
    }
    let edek_type = match EdekType::from_numeric_value(value[4]) {
        Some(t) => t,
        None => {
            return Err(
                AlloyError::MalformedHeader {
                    msg: "The key id header names no known EDEK type.".to_string(),
                },
            );
        },
    };
    let payload_type = match PayloadType::from_numeric_value(value[4]) {
        Some(t) => t,
        None => {
            return Err(
                AlloyError::MalformedHeader {
                    msg: "The key id header names no known payload type.".to_string(),
                },
            );
        },
    };
    let b0: u32 = value[0] as u32;
    let b1: u32 = value[1] as u32;
    let b2: u32 = value[2] as u32;
    let b3: u32 = value[3] as u32;
    let id: u32 = ((b0 * 256 + b1) * 256 + b2) * 256 + b3;
    let mut rest: Vec<u8> = Vec::new();
    let mut i: usize = KEY_ID_HEADER_LEN;
    while i < value.len()
        invariant
            6 <= i <= value@.len(),
            rest@ == value@.subrange(6, i as int),
        decreases value@.len() - i,
    {
        rest.push(value[i]);
        assert(value@.subrange(6, i + 1) =~= value@.subrange(6, i as int).push(value@[i as int]));
        i += 1;
    }
    assert(value@.subrange(6, value@.len() as int) =~= value@.skip(6));
    Ok((KeyIdHeader { key_id: KeyId(id), edek_type, payload_type }, rest))
}

/// The bytes with which every value written under `key_id_header` begins.
pub fn get_prefix_bytes_for_search(key_id_header: KeyIdHeader) -> (bytes: Vec<u8>)
    ensures
        bytes@ == header_bytes(key_id_header),
{
    key_id_header.write_to_bytes()
}

} // verus!
