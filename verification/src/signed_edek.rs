//! The signed container in which a document's key travels.
//!
//! A document encryption key (DEK) is stored encrypted under a wrapping key,
//! together with a MAC over that wrapping which is keyed by the DEK itself. The
//! container is a protobuf record; building, reading and checking it is left to
//! the code that defines the format, and what is believed of that code is stated
//! on the six private functions at the top. Which of the wrapped keys is read,
//! and what follows from each answer, is decided below them.

use vstd::prelude::*;
use ironcore_documents::icl_header_v4::v4document_header::edek_wrapper::{
    Aes256GcmEncryptedDek, Edek,
};
use ironcore_documents::icl_header_v4::v4document_header::signature_information::SignatureType;
use protobuf::Message;
use crate::aead::EncryptionKey;
use crate::errors::{AlloyError, ErrorKind};

verus! {

/// The longest record that is handed on for reading: 2^30 - 1 bytes. Checking
/// a signature writes the payload of the record anew, and the check panics
/// where the encoder of the format gives up, which it does on messages of two
/// gigabytes. A longer record is refused with a `DecryptError` before it
/// reaches the check, so that the check never meets one.
pub const MAX_RECORD_LEN: usize = 0x3fff_ffff;

/// The longest record that the generator makes is well below this many bytes:
/// a MAC of 32 bytes, an IV of 12, a wrapped key of 48, the digits of a key id
/// and the framing of the format.
pub const MAX_GENERATED_RECORD_LEN: usize = 256;

/// A key as a record holds it.
#[derive(Clone, Debug)]
pub enum WrappedDek {
    /// Encrypted with AES-256-GCM under a wrapping key.
    Aes256Gcm { iv: Vec<u8>, ciphertext: Vec<u8> },
    /// Wrapped by other means, which this library does not undo.
    Other,
}

/// What a `WrappedDek` holds.
pub ghost enum WrappedDekView {
    Aes256Gcm { iv: Seq<u8>, ciphertext: Seq<u8> },
    Other,
}

impl View for WrappedDek {
    type V = WrappedDekView;

    open spec fn view(&self) -> WrappedDekView {
        match self {
            WrappedDek::Aes256Gcm { iv, ciphertext } => WrappedDekView::Aes256Gcm {
                iv: iv@,
                ciphertext: ciphertext@,
            },
            WrappedDek::Other => WrappedDekView::Other,
        }
    }
}

/// The views of a list of wrapped keys.
pub open spec fn wrapped_views(all: Seq<WrappedDek>) -> Seq<WrappedDekView> {
    Seq::new(all.len(), |i: int| all[i]@)
}

/// The wrapped keys that `record` lists, in its order: `None` where the record
/// cannot be read.
pub uninterp spec fn signed_edek_wrapped(record: Seq<u8>) -> Option<Seq<WrappedDekView>>;

/// The DEK that an AES-wrapped key holds for the wrapping key `kek`: `None`
/// where the IV is not 12 bytes long, the tag does not match, or what comes out
/// is not 32 bytes long.
pub uninterp spec fn aes_edek_open(kek: Seq<u8>, iv: Seq<u8>, ciphertext: Seq<u8>) -> Option<
    Seq<u8>,
>;

/// Whether `record` declares that it carries an HMAC-SHA256 signature. A
/// record that cannot be read declares nothing.
pub uninterp spec fn signed_edek_is_signed(record: Seq<u8>) -> bool;

/// How many entries of user metadata the signed payload of `record` holds;
/// none where the record cannot be read.
pub uninterp spec fn signed_edek_metadata_entries(record: Seq<u8>) -> nat;

/// Whether the signature of `record` is accepted under `dek`: the MAC in the
/// record must be that of its payload under `dek`. A record that declares
/// itself unsigned is accepted as it is; a record that cannot be read is not.
/// This says nothing of a record with more than one entry of user metadata,
/// whose payload has no one order in which it is written for the MAC.
pub uninterp spec fn signed_edek_verifies(dek: Seq<u8>, record: Seq<u8>) -> bool;

/// What is believed of a record that was just generated: it lists one key,
/// wrapped with AES under `kek`, which is `dek`; it holds no user metadata; it
/// declares a signature, and that signature verifies under `dek`.
pub open spec fn is_generated(kek: Seq<u8>, dek: Seq<u8>, record: Seq<u8>) -> bool {
    &&& signed_edek_wrapped(record) matches Some(all)
    &&& all.len() == 1
    &&& all[0] matches WrappedDekView::Aes256Gcm { iv, ciphertext }
    &&& aes_edek_open(kek, iv, ciphertext) == Some(dek)
    &&& signed_edek_metadata_entries(record) == 0
    &&& signed_edek_is_signed(record)
    &&& signed_edek_verifies(dek, record)
}

/// Calls `ironcore_documents::v4::aes::generate_aes_edek_and_sign` and writes
/// the header it returns with `protobuf::Message::write_to_bytes`.
///
/// Believed of it: it always succeeds, since the cipher never refuses the 32
/// bytes of a DEK and a record this short is always written; the record is at
/// most 256 bytes long and is as `is_generated` says. The DEK and the IV come
/// from `rng`, so nothing is said of the bytes themselves.
#[verifier::external_body]
fn generate_record(rng: &mut rand_chacha::ChaCha20Rng, kek: &EncryptionKey, key_id: u32) -> (r:
    Result<(EncryptionKey, Vec<u8>), String>)
    ensures
        r is Ok,
        r matches Ok(made) ==> made.1@.len() <= MAX_GENERATED_RECORD_LEN && is_generated(
            kek.0@,
            made.0.0@,
            made.1@,
        ),
{
    let (dek, header) = ironcore_documents::v4::aes::generate_aes_edek_and_sign(
        rng,
        ironcore_documents::aes::EncryptionKey(kek.0),
        None,
        &key_id.to_string(),
    ).map_err(|e| e.to_string())?;
    let record = header.write_to_bytes().map_err(|e| e.to_string())?;
    Ok((EncryptionKey(dek.0), record))
}

/// Reads `record` with `protobuf::Message::parse_from_bytes` and hands out
/// the wrapped keys that it lists: an AES-wrapped key with its IV and its
/// ciphertext, every other entry as `Other`.
///
/// Believed of it: its answer depends on the record alone.
#[verifier::external_body]
fn wrapped_deks(record: &Vec<u8>) -> (r: Option<Vec<WrappedDek>>)
    ensures
        match r {
            Some(all) => signed_edek_wrapped(record@) == Some(wrapped_views(all@)),
            None => signed_edek_wrapped(record@) is None,
        },
{
    let header =
        ironcore_documents::icl_header_v4::V4DocumentHeader::parse_from_bytes(record).ok()?;
    let mut all = Vec::new();
    for wrapper in header.signed_payload.edeks.iter() {
        all.push(match &wrapper.edek {
            Some(Edek::Aes256GcmEdek(e)) => WrappedDek::Aes256Gcm {
                iv: e.iv.to_vec(),
                ciphertext: e.ciphertext.to_vec(),
            },
            _ => WrappedDek::Other,
        });
    }
    Some(all)
}

/// Calls `ironcore_documents::v4::aes::decrypt_aes_edek`.
///
/// Believed of it: its outcome depends on the wrapping key, the IV and the
/// ciphertext alone.
#[verifier::external_body]
fn open_wrapped_dek(kek: &EncryptionKey, iv: &Vec<u8>, ciphertext: &Vec<u8>) -> (r: Result<
    EncryptionKey,
    String,
>)
    ensures
        match r {
            Ok(dek) => aes_edek_open(kek.0@, iv@, ciphertext@) == Some(dek.0@),
            Err(_) => aes_edek_open(kek.0@, iv@, ciphertext@) is None,
        },
{
    let wrapped = Aes256GcmEncryptedDek {
        iv: iv.clone().into(),
        ciphertext: ciphertext.clone().into(),
        ..Default::default()
    };
    ironcore_documents::v4::aes::decrypt_aes_edek(
        &ironcore_documents::aes::EncryptionKey(kek.0),
        &wrapped,
    ).map(|dek| EncryptionKey(dek.0)).map_err(|e| e.to_string())
}

/// Reads `record` with `protobuf::Message::parse_from_bytes` and asks the
/// signature type that it finds with `protobuf::EnumOrUnknown::enum_value`.
///
/// Believed of it: its answer depends on the record alone.
#[verifier::external_body]
fn record_is_signed(record: &Vec<u8>) -> (b: bool)
    ensures
        b == signed_edek_is_signed(record@),
{
    match ironcore_documents::icl_header_v4::V4DocumentHeader::parse_from_bytes(record) {
        Ok(header) => match header.signature_info.signature_type.enum_value() {
            Ok(SignatureType::HS256) => true,
            Ok(SignatureType::NONE) => false,
            Err(_) => false,
        },
        Err(_) => false,
    }
}

/// Reads `record` with `protobuf::Message::parse_from_bytes` and counts the
/// entries of user metadata in its signed payload.
///
/// Believed of it: its answer depends on the record alone.
#[verifier::external_body]
fn metadata_entries(record: &Vec<u8>) -> (n: usize)
    ensures
        n == signed_edek_metadata_entries(record@),
{
    match ironcore_documents::icl_header_v4::V4DocumentHeader::parse_from_bytes(record) {
        Ok(header) => header.signed_payload.user_metadata.len(),
        Err(_) => 0,
    }
}

/// Reads `record` with `protobuf::Message::parse_from_bytes` and calls
/// `ironcore_documents::v4::aes::verify_signature` on it.
///
/// Believed of it: for a record with at most one entry of user metadata, its
/// answer depends on the DEK and the record alone. The check writes the payload
/// anew, and more than one entry of metadata may be written in any order, so
/// nothing is said of such a record. It panics where the payload cannot be
/// written, which the bound on the record's length rules out.
#[verifier::external_body]
fn verify_record(dek: &EncryptionKey, record: &Vec<u8>) -> (b: bool)
    requires
        record@.len() <= MAX_RECORD_LEN,
    ensures
        signed_edek_metadata_entries(record@) <= 1 ==> b == signed_edek_verifies(
            dek.0@,
            record@,
        ),
{
    match ironcore_documents::icl_header_v4::V4DocumentHeader::parse_from_bytes(record) {
        Ok(header) => ironcore_documents::v4::aes::verify_signature(
            ironcore_documents::aes::EncryptionKey(dek.0),
            &header,
        ),
        Err(_) => false,
    }
}

/// The check of the signature of `record` has one answer: the record holds at
/// most one entry of user metadata.
pub open spec fn has_stable_signature(record: Seq<u8>) -> bool {
    signed_edek_metadata_entries(record) <= 1
}

/// The signature of `record` holds under `dek`: the record is short enough to
/// be read, declares a signature, and that signature verifies under `dek`.
pub open spec fn signature_holds(dek: Seq<u8>, record: Seq<u8>) -> bool {
    record.len() <= MAX_RECORD_LEN && signed_edek_is_signed(record) && signed_edek_verifies(
        dek,
        record,
    )
}

/// The DEK that the first key of a list holds for `kek`: `None` where the list
/// is empty, its first key is not wrapped with AES, or it does not open.
pub open spec fn first_dek(kek: Seq<u8>, all: Seq<WrappedDekView>) -> Option<Seq<u8>> {
    if all.len() == 0 {
        None
    } else {
        match all[0] {
            WrappedDekView::Aes256Gcm { iv, ciphertext } => aes_edek_open(kek, iv, ciphertext),
            WrappedDekView::Other => None,
        }
    }
}

/// The DEK that `record` holds for `kek`: that of the first key it lists.
pub open spec fn wrapped_dek_of(kek: Seq<u8>, record: Seq<u8>) -> Option<Seq<u8>> {
    if record.len() > MAX_RECORD_LEN {
        None
    } else {
        match signed_edek_wrapped(record) {
            Some(all) => first_dek(kek, all),
            None => None,
        }
    }
}

/// What opening a record gives: the DEK it holds for `kek`, once its signature
/// has been checked under that DEK. Every failure is a `DecryptError`.
pub open spec fn open_signed_edek(kek: Seq<u8>, record: Seq<u8>) -> Result<Seq<u8>, ErrorKind> {
    match wrapped_dek_of(kek, record) {
        Some(dek) => if signature_holds(dek, record) {
            Ok(dek)
        } else {
            Err(ErrorKind::DecryptError)
        },
        None => Err(ErrorKind::DecryptError),
    }
}

/// Whether the check of the signature of `record` has one answer.
pub fn signature_is_stable(record: &Vec<u8>) -> (b: bool)
    ensures
        b == has_stable_signature(record@),
{
    metadata_entries(record) <= 1
}

/// The first of the wrapped keys of a record; a `DecryptError` exactly where
/// there is none.
pub fn first_wrapped_dek(all: &Vec<WrappedDek>) -> (r: Result<&WrappedDek, AlloyError>)
    ensures
        all@.len() > 0 ==> r == Ok::<&WrappedDek, AlloyError>(&all@[0]),
        all@.len() == 0 ==> (r matches Err(e) && e.kind() == ErrorKind::DecryptError),
{
    if all.len() == 0 {
        Err(AlloyError::DecryptError { msg: "The EDEK holds no key.".to_string() })
    } else {
        Ok(&all[0])
    }
}

/// Opens a wrapped key under `kek`. A key that is not wrapped with AES and a
/// key that does not open are `DecryptError`s.
pub fn unwrap_dek(kek: &EncryptionKey, wrapped: &WrappedDek) -> (r: Result<
    EncryptionKey,
    AlloyError,
>)
    ensures
        match first_dek(kek.0@, seq![wrapped@]) {
            Some(dek) => r matches Ok(k) && k.0@ == dek,
            None => r matches Err(e) && e.kind() == ErrorKind::DecryptError,
        },
{
    assert(seq![wrapped@][0] == wrapped@);
    match wrapped {
        WrappedDek::Aes256Gcm { iv, ciphertext } => match open_wrapped_dek(kek, iv, ciphertext) {
            Ok(dek) => Ok(dek),
            Err(msg) => Err(AlloyError::DecryptError { msg }),
        },
        WrappedDek::Other => Err(
            AlloyError::DecryptError { msg: "The EDEK holds no AES-wrapped key.".to_string() },
        ),
    }
}

/// Finds the DEK that `record` holds for `kek`, without checking the
/// signature of the record.
pub fn find_dek(kek: &EncryptionKey, record: &Vec<u8>) -> (r: Result<EncryptionKey, AlloyError>)
    ensures
        match wrapped_dek_of(kek.0@, record@) {
            Some(dek) => r matches Ok(k) && k.0@ == dek,
            None => r matches Err(e) && e.kind() == ErrorKind::DecryptError,
        },
{
    if record.len() > MAX_RECORD_LEN {
        return Err(AlloyError::DecryptError { msg: "The EDEK is too long.".to_string() });
    }
    let all = match wrapped_deks(record) {
        Some(all) => all,
        None => {
            return Err(AlloyError::DecryptError { msg: "The EDEK cannot be read.".to_string() });
        },
    };
    let first = match first_wrapped_dek(&all) {
        Ok(first) => first,
        Err(e) => {
            return Err(e);
        },
    };
    proof {
        let views = wrapped_views(all@);
        assert(views[0] == all@[0]@);
        assert(seq![first@][0] == first@);
    }
    unwrap_dek(kek, first)
}

/// Turns the answer of a signature check into a result: a signature that does
/// not verify is a `DecryptError`.
pub fn signature_outcome(verifies: bool) -> (r: Result<(), AlloyError>)
    ensures
        verifies ==> r is Ok,
        !verifies ==> (r matches Err(AlloyError::DecryptError { msg }) && msg@
            == "EDEK signature verification failed"@),
{
    if verifies {
        Ok(())
    } else {
        Err(AlloyError::DecryptError { msg: "EDEK signature verification failed".to_string() })
    }
}

/// Checks the signature of `record` under `aes_dek`. A record without a
/// signature is refused like one whose signature does not verify.
///
/// For a record with at most one entry of user metadata the result is
/// determined: success exactly where the signature holds. For any other record
/// the check itself has no one answer; then a success still means that the
/// record declares a signature, and a failure is still a `DecryptError`.
pub fn verify_sig(aes_dek: EncryptionKey, record: &Vec<u8>) -> (r: Result<(), AlloyError>)
    ensures
        has_stable_signature(record@) ==> (r is Ok <==> signature_holds(aes_dek.0@, record@)),
        r is Ok ==> record@.len() <= MAX_RECORD_LEN && signed_edek_is_signed(record@),
        record@.len() > MAX_RECORD_LEN || !signed_edek_is_signed(record@) ==> r is Err,
        r matches Err(e) ==> e.kind() == ErrorKind::DecryptError,
        r is Err && record@.len() <= MAX_RECORD_LEN ==> (
        r matches Err(AlloyError::DecryptError { msg }) && msg@
            == "EDEK signature verification failed"@),
{
    if record.len() > MAX_RECORD_LEN {
        return Err(AlloyError::DecryptError { msg: "The EDEK is too long.".to_string() });
    }
    signature_outcome(record_is_signed(record) && verify_record(&aes_dek, record))
}

/// Turns what the generator returned into a result: its refusal is an
/// `EncryptError`, and a record that is too long to be read again an
/// `InvariantViolation`.
pub fn generated_outcome(generated: Result<(EncryptionKey, Vec<u8>), String>) -> (r: Result<
    (EncryptionKey, Vec<u8>),
    AlloyError,
>)
    ensures
        match generated {
            Ok(made) => if made.1@.len() <= MAX_RECORD_LEN {
                r == Ok::<(EncryptionKey, Vec<u8>), AlloyError>(made)
            } else {
                r matches Err(e) && e.kind() == ErrorKind::InvariantViolation
            },
            Err(_) => r matches Err(e) && e.kind() == ErrorKind::EncryptError,
        },
{
    match generated {
        Ok(made) => {
            if made.1.len() > MAX_RECORD_LEN {
                Err(
                    AlloyError::InvariantViolation {
                        msg: "The generated EDEK is too long.".to_string(),
                    },
                )
            } else {
                Ok(made)
            }
        },
        Err(msg) => Err(AlloyError::EncryptError { msg }),
    }
}

/// Makes a fresh DEK and the signed record that holds it wrapped under `kek`.
///
/// This always succeeds. The DEK is random; whatever it is, the check of the
/// record's signature has one answer, and `open_signed_edek` finds the DEK
/// again in the record.
pub fn generate_signed_edek(rng: &mut rand_chacha::ChaCha20Rng, kek: &EncryptionKey, key_id: u32) -> (r:
    Result<(EncryptionKey, Vec<u8>), AlloyError>)
    ensures
        r is Ok,
        r matches Ok(made) ==> made.1@.len() <= MAX_GENERATED_RECORD_LEN && has_stable_signature(
            made.1@,
        ) && open_signed_edek(kek.0@, made.1@) == Ok::<Seq<u8>, ErrorKind>(made.0.0@),
{
    generated_outcome(generate_record(rng, kek, key_id))
}

/// Finds the DEK in `record` and checks the record's signature under it.
///
/// For a record with at most one entry of user metadata the result is
/// determined: it is what `open_signed_edek` says. For any other record the
/// check of the signature has no one answer; then a success still returns the
/// DEK that the record holds and means that the record declares a signature,
/// and a failure is still a `DecryptError`.
pub fn decrypt_signed_edek(kek: &EncryptionKey, record: &Vec<u8>) -> (r: Result<
    EncryptionKey,
    AlloyError,
>)
    ensures
        has_stable_signature(record@) ==> match open_signed_edek(kek.0@, record@) {
            Ok(dek) => r matches Ok(k) && k.0@ == dek,
            Err(kind) => r matches Err(e) && e.kind() == kind,
        },
        r matches Ok(k) ==> wrapped_dek_of(kek.0@, record@) == Some(k.0@) && signed_edek_is_signed(
            record@,
        ),
        wrapped_dek_of(kek.0@, record@) is None || !signed_edek_is_signed(record@) ==> r is Err,
        r matches Err(e) ==> e.kind() == ErrorKind::DecryptError,
{
    let dek = match find_dek(kek, record) {
        Ok(dek) => dek,
        Err(e) => {
            return Err(e);
        },
    };
    match verify_sig(dek, record) {
        Ok(()) => Ok(dek),
        Err(e) => Err(e),
    }
}

} // verus!
