//! Application-level envelope encryption for field-keyed documents under a
//! tenant-scoped key hierarchy.
//!
//! Two modes are offered. Standard encryption gives every document a key of its
//! own and every field a random IV; nothing can be matched on the ciphertext.
//! Deterministic encryption gives equal fields equal ciphertexts under one key,
//! so that an encrypted field can be found by an exact-match query.
//!
//! Every ciphertext begins with a key id header that names the key it was made
//! with, so that a tenant's keys can change over time without old data becoming
//! unreadable. Keys come from a tenant security provider; the library states
//! what to ask it for and takes its answer as a value.
//!
//! The modules, leaves first:
//!
//! - `errors`: the kinds of failure.
//! - `label_map`: the ordered map with unique labels that documents, batches
//!   and the provider's answers are made of.
//! - `key_id_header`: the six-byte header and its codec.
//! - `aead`: the two ciphers, called as they are, and the framing around them.
//! - `signed_edek`: the signed record in which a document key travels.
//! - `tenant_security_client`: requests to the provider, its answers, and the
//!   choice of a key from an answer.
//! - `alloy_client_trait`: the pair of header tags that a client writes and expects.
//! - `batch`: how the outcomes of many fields become one result.
//! - `standard`, `deterministic`: encryption of documents and of single fields
//!   under given keys.
//! - `saas_shield`: the clients, which pick the keys from the provider's answer.
//!
//! What is proved rests on what is believed of the ciphers and of the record
//! format. Those beliefs are stated on the private functions at the top of
//! `aead` and `signed_edek`, and nowhere else.

pub mod aead;
pub mod alloy_client_trait;
pub mod batch;
pub mod deterministic;
pub mod errors;
pub mod key_id_header;
pub mod label_map;
pub mod metadata;
pub mod saas_shield;
pub mod signed_edek;
pub mod standard;
pub mod tenant_security_client;
pub mod util;
