//! What the tenant security provider (TSP) is asked for, what it answers, and
//! how a key is picked from its answer.
//!
//! The exchange with the provider itself happens outside this library. The
//! library describes the request, takes the answer as a value, and never changes it.

use vstd::prelude::*;
use crate::errors::{AlloyError, ErrorKind};
use crate::key_id_header::KeyId;
use crate::label_map::{lookup, LabelMap};

verus! {

/// The first level of the namespace for keys within a tenant.
#[derive(Clone, Debug, PartialEq, Eq)]
pub struct SecretPath(pub String);

/// The second level of the namespace for keys within a tenant.
#[derive(Clone, Debug, PartialEq, Eq)]
pub struct DerivationPath(pub String);

/// The name of a tenant.
#[derive(Clone, Debug, PartialEq, Eq)]
pub struct TenantId(pub String);

/// The identifier that the provider gave to a tenant's secret.
#[derive(Clone, Copy, Debug, PartialEq, Eq, Structural)]
pub struct TenantSecretAssignmentId(pub u32);

impl SecretPath {
    /// A copy of this path.
    pub fn duplicate(&self) -> (p: SecretPath)
        ensures
            p.0@ == self.0@,
    {
        SecretPath(self.0.clone())
    }
}

impl DerivationPath {
    /// A copy of this path.
    pub fn duplicate(&self) -> (p: DerivationPath)
        ensures
            p.0@ == self.0@,
    {
        DerivationPath(self.0.clone())
    }
}

impl TenantId {
    /// Whether two tenant ids name the same tenant.
    pub fn same_as(&self, other: &TenantId) -> (b: bool)
        ensures
            b == (self.0@ == other.0@),
    {
        self.0 == other.0
    }
}

/// How the provider derives a key from a secret.
#[derive(Clone, Copy, Debug, PartialEq, Eq, Structural)]
pub enum DerivationType {
    Argon2,
    Sha256,
    Sha512,
}

/// What a derived key is for.
#[derive(Clone, Copy, Debug, PartialEq, Eq, Structural)]
pub enum SecretType {
    Search,
    Deterministic,
    Vector,
    Standard,
}

/// A key that the provider derived for one path.
#[derive(Clone, Debug)]
pub struct DerivedKey {
    /// 64 bytes. The first 32 are used where an AES-GCM key is needed, all of
    /// them where the deterministic cipher needs a key.
    pub derived_key: Vec<u8>,
    pub tenant_secret_id: TenantSecretAssignmentId,
    /// Whether new data is encrypted under this key.
    pub current: bool,
}

/// The keys of one tenant: by secret path, then by derivation path, in the
/// order in which the provider listed them.
pub type DerivedKeys = LabelMap<LabelMap<Vec<DerivedKey>>>;

/// The provider's answer to a request for derived keys.
#[derive(Clone, Debug)]
pub struct KeyDeriveResponse {
    pub has_primary_config: bool,
    pub derived_keys: DerivedKeys,
}

/// Which of a path's keys is wanted.
#[derive(Clone, Copy, Debug, PartialEq, Eq, Structural)]
pub enum DeriveKeyChoice {
    /// The one key that new data is encrypted under.
    Current,
    /// The key with the given id.
    Specific(KeyId),
    /// Every key that is still trusted for decryption but no longer current.
    InRotation,
}

/// Why no key was picked.
#[derive(Clone, Copy, Debug, PartialEq, Eq, Structural)]
pub enum KeyLookupError {
    /// The answer holds nothing for the path.
    PathNotFound,
    /// No key of the path is current.
    NoCurrentKey,
    /// More than one key of the path is current.
    AmbiguousCurrentKey,
    /// No key of the path has the id that was asked for.
    KeyNotFound,
}

impl KeyLookupError {
    /// The kind of error that this failure is reported as: a key that is
    /// missing is an `InvalidKey`, an answer that cannot be used a `RequestError`.
    pub open spec fn spec_kind(self) -> ErrorKind {
        match self {
            KeyLookupError::PathNotFound => ErrorKind::RequestError,
            KeyLookupError::NoCurrentKey => ErrorKind::InvalidKey,
            KeyLookupError::AmbiguousCurrentKey => ErrorKind::RequestError,
            KeyLookupError::KeyNotFound => ErrorKind::InvalidKey,
        }
    }

    /// The error that this failure is reported as.
    pub fn into_alloy_error(self) -> (e: AlloyError)
        ensures
            e.kind() == self.spec_kind(),
    {
        match self {
            KeyLookupError::PathNotFound => AlloyError::RequestError {
                msg: "Failed to derive keys for provided path using the TSP.".to_string(),
            },
            KeyLookupError::NoCurrentKey => AlloyError::InvalidKey {
                msg: "The secret path, derivation path combo didn't have a current key.".to_string(),
            },
            KeyLookupError::AmbiguousCurrentKey => AlloyError::RequestError {
                msg: "The secret path, derivation path combo had an ambiguous current key.".to_string(),
            },
            KeyLookupError::KeyNotFound => AlloyError::InvalidKey {
                msg: "The secret path, derivation path combo didn't have the requested key.".to_string(),
            },
        }
    }
}

/// How many of `keys` are current.
pub open spec fn current_count(keys: Seq<DerivedKey>) -> nat
    decreases keys.len(),
{
    if keys.len() == 0 {
        0
    } else {
        current_count(keys.drop_last()) + if keys.last().current {
            1nat
        } else {
            0nat
        }
    }
}

/// The key at `i` is current and none before it is.
pub open spec fn is_first_current(keys: Seq<DerivedKey>, i: int) -> bool {
    &&& 0 <= i < keys.len()
    &&& keys[i].current
    &&& forall|j: int| 0 <= j < i ==> !keys[j].current
}

/// The key at `i` has the id `id` and none before it has.
pub open spec fn is_first_with_id(keys: Seq<DerivedKey>, id: u32, i: int) -> bool {
    &&& 0 <= i < keys.len()
    &&& keys[i].tenant_secret_id.0 == id
    &&& forall|j: int| 0 <= j < i ==> keys[j].tenant_secret_id.0 != id
}

/// The keys that are not current, in their order.
pub open spec fn in_rotation(keys: Seq<DerivedKey>) -> Seq<DerivedKey>
    decreases keys.len(),
{
    if keys.len() == 0 {
        Seq::empty()
    } else if keys.last().current {
        in_rotation(keys.drop_last())
    } else {
        in_rotation(keys.drop_last()).push(keys.last())
    }
}

/// The position of the one current key: `NoCurrentKey` where there is none,
/// `AmbiguousCurrentKey` where there are several.
pub open spec fn select_current(keys: Seq<DerivedKey>) -> Result<int, KeyLookupError> {
    if current_count(keys) == 0 {
        Err(KeyLookupError::NoCurrentKey)
    } else if current_count(keys) > 1 {
        Err(KeyLookupError::AmbiguousCurrentKey)
    } else {
        Ok(choose|i: int| is_first_current(keys, i))
    }
}

/// The position of the first key with the id `id`: `KeyNotFound` where there is none.
pub open spec fn select_specific(keys: Seq<DerivedKey>, id: u32) -> Result<int, KeyLookupError> {
    if exists|i: int| is_first_with_id(keys, id, i) {
        Ok(choose|i: int| is_first_with_id(keys, id, i))
    } else {
        Err(KeyLookupError::KeyNotFound)
    }
}

/// The keys that `choice` picks from `keys`: one key for `Current` and
/// `Specific`, any number for `InRotation`.
pub open spec fn select_keys(keys: Seq<DerivedKey>, choice: DeriveKeyChoice) -> Result<
    Seq<DerivedKey>,
    KeyLookupError,
> {
    match choice {
        DeriveKeyChoice::Current => match select_current(keys) {
            Ok(i) => Ok(seq![keys[i]]),
            Err(e) => Err(e),
        },
        DeriveKeyChoice::Specific(id) => match select_specific(keys, id.0) {
            Ok(i) => Ok(seq![keys[i]]),
            Err(e) => Err(e),
        },
        DeriveKeyChoice::InRotation => Ok(in_rotation(keys)),
    }
}

/// Every key is either current or in rotation.
pub proof fn lemma_in_rotation_len(keys: Seq<DerivedKey>)
    ensures
        in_rotation(keys).len() + current_count(keys) == keys.len(),
    decreases keys.len(),
{
    if keys.len() > 0 {
        lemma_in_rotation_len(keys.drop_last());
    }
}

/// Every key in rotation is a key of the list that is not current.
pub proof fn lemma_in_rotation_member(keys: Seq<DerivedKey>, a: int)
    requires
        0 <= a < in_rotation(keys).len(),
    ensures
        exists|i: int| 0 <= i < keys.len() && keys[i] == in_rotation(keys)[a] && !keys[i].current,
    decreases keys.len(),
{
    let front = keys.drop_last();
    let last = keys.len() - 1;
    if !keys.last().current && a == in_rotation(front).len() {
        assert(keys[last] == in_rotation(keys)[a] && !keys[last].current);
    } else {
        lemma_in_rotation_member(front, a);
        let i = choose|i: int|
            0 <= i < front.len() && front[i] == in_rotation(front)[a] && !front[i].current;
        assert(keys[i] == in_rotation(keys)[a] && !keys[i].current);
    }
}

/// The keys in rotation keep the order of the list: of two of them, the one
/// that comes first among the keys in rotation comes first in the list.
pub proof fn lemma_in_rotation_keeps_order(keys: Seq<DerivedKey>, a: int, b: int)
    requires
        0 <= a < b < in_rotation(keys).len(),
    ensures
        exists|i: int, j: int|
            0 <= i < j < keys.len() && keys[i] == in_rotation(keys)[a] && keys[j] == in_rotation(
                keys,
            )[b],
    decreases keys.len(),
{
    let front = keys.drop_last();
    let last = keys.len() - 1;
    if !keys.last().current && b == in_rotation(front).len() {
        lemma_in_rotation_member(front, a);
        let i = choose|i: int|
            0 <= i < front.len() && front[i] == in_rotation(front)[a] && !front[i].current;
        assert(0 <= i < last < keys.len() && keys[i] == in_rotation(keys)[a] && keys[last]
            == in_rotation(keys)[b]);
    } else {
        lemma_in_rotation_keeps_order(front, a, b);
        let (i, j) = choose|i: int, j: int|
            0 <= i < j < front.len() && front[i] == in_rotation(front)[a] && front[j]
                == in_rotation(front)[b];
        assert(0 <= i < j < keys.len() && keys[i] == in_rotation(keys)[a] && keys[j]
            == in_rotation(keys)[b]);
    }
}

/// No key is current exactly where the count of current keys is zero, and a
/// first current key exists wherever the count is not zero.
pub proof fn lemma_current_count(keys: Seq<DerivedKey>)
    ensures
        current_count(keys) == 0 <==> forall|j: int| 0 <= j < keys.len() ==> !keys[j].current,
        current_count(keys) > 0 ==> exists|i: int| is_first_current(keys, i),
    decreases keys.len(),
{
    if keys.len() > 0 {
        let front = keys.drop_last();
        lemma_current_count(front);
        if current_count(front) > 0 {
            let i = choose|i: int| is_first_current(front, i);
            assert forall|j: int| 0 <= j <= i implies front[j] == keys[j] by {}
            assert(keys[i].current);
            assert forall|j: int| 0 <= j < i implies !keys[j].current by {
                assert(!front[j].current);
            }
            assert(is_first_current(keys, i));
        } else if keys.last().current {
            assert forall|j: int| 0 <= j < keys.len() - 1 implies !keys[j].current by {
                assert(!front[j].current);
            }
            assert(is_first_current(keys, keys.len() - 1));
        } else {
            assert forall|j: int| 0 <= j < keys.len() implies !keys[j].current by {
                if j < keys.len() - 1 {
                    assert(!front[j].current);
                }
            }
        }
    }
}

/// No two of `keys` have the same id.
pub open spec fn distinct_key_ids(keys: Seq<DerivedKey>) -> bool {
    forall|a: int, b: int|
        0 <= a < b < keys.len() ==> keys[a].tenant_secret_id.0 != keys[b].tenant_secret_id.0
}

/// Among keys with distinct ids, looking a key up by its id finds that key.
pub proof fn lemma_specific_finds_each_key(keys: Seq<DerivedKey>, i: int)
    requires
        distinct_key_ids(keys),
        0 <= i < keys.len(),
    ensures
        select_specific(keys, keys[i].tenant_secret_id.0) == Ok::<int, KeyLookupError>(i),
{
    let id = keys[i].tenant_secret_id.0;
    assert(is_first_with_id(keys, id, i));
    let chosen = choose|c: int| is_first_with_id(keys, id, c);
    assert(chosen == i);
}

/// Two positions that are both the first current one are the same position.
pub proof fn lemma_first_current_unique(keys: Seq<DerivedKey>, i: int, j: int)
    requires
        is_first_current(keys, i),
        is_first_current(keys, j),
    ensures
        i == j,
{
}

/// Where the keys of a path have distinct ids, looking the current key up by
/// its id finds the current key.
pub proof fn lemma_current_is_found_by_id(
    response: KeyDeriveResponse,
    secret_path: Seq<char>,
    derivation_path: Seq<char>,
)
    requires
        response.keys_for_path(secret_path, derivation_path) matches Ok(keys) && distinct_key_ids(
            keys,
        ),
        response.select_one(secret_path, derivation_path, DeriveKeyChoice::Current) is Ok,
    ensures
        response.select_one(
            secret_path,
            derivation_path,
            DeriveKeyChoice::Specific(
                KeyId(
                    response.select_one(
                        secret_path,
                        derivation_path,
                        DeriveKeyChoice::Current,
                    )->Ok_0.tenant_secret_id.0,
                ),
            ),
        ) == response.select_one(secret_path, derivation_path, DeriveKeyChoice::Current),
{
    let keys = response.keys_for_path(secret_path, derivation_path)->Ok_0;
    lemma_current_count(keys);
    let i = select_current(keys)->Ok_0;
    assert(is_first_current(keys, i));
    lemma_specific_finds_each_key(keys, i);
    assert(seq![keys[i]][0] == keys[i]);
}

impl KeyDeriveResponse {
    /// The keys that the answer holds for a path.
    pub open spec fn keys_for_path(&self, secret_path: Seq<char>, derivation_path: Seq<char>) -> Result<
        Seq<DerivedKey>,
        KeyLookupError,
    > {
        match lookup(self.derived_keys@, secret_path) {
            Some(by_derivation_path) => match lookup(by_derivation_path@, derivation_path) {
                Some(keys) => Ok(keys@),
                None => Err(KeyLookupError::PathNotFound),
            },
            None => Err(KeyLookupError::PathNotFound),
        }
    }

    /// The keys that `choice` picks for a path.
    pub open spec fn select(
        &self,
        secret_path: Seq<char>,
        derivation_path: Seq<char>,
        choice: DeriveKeyChoice,
    ) -> Result<Seq<DerivedKey>, KeyLookupError> {
        match self.keys_for_path(secret_path, derivation_path) {
            Ok(keys) => select_keys(keys, choice),
            Err(e) => Err(e),
        }
    }

    /// The one key that `choice` picks for a path, where `choice` is `Current`
    /// or `Specific`.
    pub open spec fn select_one(
        &self,
        secret_path: Seq<char>,
        derivation_path: Seq<char>,
        choice: DeriveKeyChoice,
    ) -> Result<DerivedKey, KeyLookupError> {
        match self.select(secret_path, derivation_path, choice) {
            Ok(keys) => Ok(keys[0]),
            Err(e) => Err(e),
        }
    }

    /// The answer itself, if the tenant has a primary configuration; a
    /// `RequestError` if it has none.
    pub fn require_primary_config(self) -> (r: Result<KeyDeriveResponse, AlloyError>)
        ensures
            self.has_primary_config ==> r == Ok::<KeyDeriveResponse, AlloyError>(self),
            !self.has_primary_config ==> (r matches Err(e) && e.kind() == ErrorKind::RequestError),
    {
        if self.has_primary_config {
            Ok(self)
        } else {
            Err(
                AlloyError::RequestError {
                    msg: "The tenant has no primary KMS configuration.".to_string(),
                },
            )
        }
    }

    /// All keys of a path, in the provider's order.
    pub fn get_keys(&self, secret_path: &SecretPath, derivation_path: &DerivationPath) -> (r: Result<
        &Vec<DerivedKey>,
        KeyLookupError,
    >)
        ensures
            match self.keys_for_path(secret_path.0@, derivation_path.0@) {
                Ok(keys) => r matches Ok(v) && v@ == keys,
                Err(e) => r == Err::<&Vec<DerivedKey>, KeyLookupError>(e),
            },
    {
        match self.derived_keys.get(&secret_path.0) {
            Some(by_derivation_path) => match by_derivation_path.get(&derivation_path.0) {
                Some(keys) => Ok(keys),
                None => Err(KeyLookupError::PathNotFound),
            },
            None => Err(KeyLookupError::PathNotFound),
        }
    }

    /// The one current key of a path.
    pub fn get_current(&self, secret_path: &SecretPath, derivation_path: &DerivationPath) -> (r:
        Result<&DerivedKey, KeyLookupError>)
        ensures
            match self.select_one(secret_path.0@, derivation_path.0@, DeriveKeyChoice::Current) {
                Ok(key) => r matches Ok(k) && *k == key,
                Err(e) => r == Err::<&DerivedKey, KeyLookupError>(e),
            },
    {
        let keys = match self.get_keys(secret_path, derivation_path) {
            Ok(keys) => keys,
            Err(e) => {
                return Err(e);
            },
        };
        let mut found: Option<usize> = None;
        let mut count: usize = 0;
        let mut i: usize = 0;
        while i < keys.len()
            invariant
                i <= keys@.len(),
                count == current_count(keys@.take(i as int)),
                count <= i,
                count == 0 <==> found is None,
                found matches Some(f) ==> f < i && is_first_current(keys@, f as int),
            decreases keys@.len() - i,
        {
            assert(keys@.take(i + 1).drop_last() =~= keys@.take(i as int));
            if keys[i].current {
                if found.is_none() {
                    proof {
                        lemma_current_count(keys@.take(i as int));
                        assert forall|j: int| 0 <= j < i implies !keys@[j].current by {
                            assert(keys@.take(i as int)[j] == keys@[j]);
                        }
                    }
                    found = Some(i);
                }
                count += 1;
            }
            i += 1;
        }
        assert(keys@.take(keys@.len() as int) =~= keys@);
        match found {
            None => Err(KeyLookupError::NoCurrentKey),
            Some(f) => {
                if count > 1 {
                    Err(KeyLookupError::AmbiguousCurrentKey)
                } else {
                    proof {
                        let chosen = choose|i: int| is_first_current(keys@, i);
                        lemma_first_current_unique(keys@, f as int, chosen);
                    }
                    Ok(&keys[f])
                }
            },
        }
    }

    /// The first key of a path that has the id `key_id`.
    pub fn get_specific(
        &self,
        secret_path: &SecretPath,
        derivation_path: &DerivationPath,
        key_id: KeyId,
    ) -> (r: Result<&DerivedKey, KeyLookupError>)
        ensures
            match self.select_one(
                secret_path.0@,
                derivation_path.0@,
                DeriveKeyChoice::Specific(key_id),
            ) {
                Ok(key) => r matches Ok(k) && *k == key,
                Err(e) => r == Err::<&DerivedKey, KeyLookupError>(e),
            },
            r matches Ok(k) ==> k.tenant_secret_id.0 == key_id.0,
    {
        let keys = match self.get_keys(secret_path, derivation_path) {
            Ok(keys) => keys,
            Err(e) => {
                return Err(e);
            },
        };
        let mut i: usize = 0;
        while i < keys.len()
            invariant
                i <= keys@.len(),
                self.keys_for_path(secret_path.0@, derivation_path.0@) == Ok::<
                    Seq<DerivedKey>,
                    KeyLookupError,
                >(keys@),
                forall|j: int| 0 <= j < i ==> keys@[j].tenant_secret_id.0 != key_id.0,
            decreases keys@.len() - i,
        {
            if keys[i].tenant_secret_id.0 == key_id.0 {
                proof {
                    assert(is_first_with_id(keys@, key_id.0, i as int));
                    let chosen = choose|c: int| is_first_with_id(keys@, key_id.0, c);
                    assert(chosen == i);
                    assert(select_specific(keys@, key_id.0) == Ok::<int, KeyLookupError>(i as int));
                    assert(seq![keys@[i as int]][0] == keys@[i as int]);
                }
                return Ok(&keys[i]);
            }
            i += 1;
        }
        Err(KeyLookupError::KeyNotFound)
    }

    /// The keys of a path that are no longer current, in the provider's order.
    pub fn get_in_rotation(&self, secret_path: &SecretPath, derivation_path: &DerivationPath) -> (r:
        Result<Vec<&DerivedKey>, KeyLookupError>)
        ensures
            match self.select(secret_path.0@, derivation_path.0@, DeriveKeyChoice::InRotation) {
                Ok(keys) => r matches Ok(v) && v@.len() == keys.len() && forall|i: int|
                    0 <= i < keys.len() ==> *#[trigger] v@[i] == keys[i],
                Err(e) => r == Err::<Vec<&DerivedKey>, KeyLookupError>(e),
            },
    {
        let keys = match self.get_keys(secret_path, derivation_path) {
            Ok(keys) => keys,
            Err(e) => {
                return Err(e);
            },
        };
        let mut picked: Vec<&DerivedKey> = Vec::new();
        let mut i: usize = 0;
        while i < keys.len()
            invariant
                i <= keys@.len(),
                picked@.len() == in_rotation(keys@.take(i as int)).len(),
                forall|k: int|
                    0 <= k < picked@.len() ==> *#[trigger] picked@[k] == in_rotation(
                        keys@.take(i as int),
                    )[k],
            decreases keys@.len() - i,
        {
            assert(keys@.take(i + 1).drop_last() =~= keys@.take(i as int));
            if !keys[i].current {
                picked.push(&keys[i]);
            }
            i += 1;
        }
        assert(keys@.take(keys@.len() as int) =~= keys@);
        Ok(picked)
    }

    /// The keys that `choice` picks for a path: exactly one for `Current` and
    /// `Specific`, any number for `InRotation`.
    ///
    /// A path that the answer does not hold and a current key that is not unique
    /// are `RequestError`s; a key that is missing is an `InvalidKey`.
    pub fn get_key_for_path(
        &self,
        secret_path: &SecretPath,
        derivation_path: &DerivationPath,
        choice: DeriveKeyChoice,
    ) -> (r: Result<Vec<&DerivedKey>, AlloyError>)
        ensures
            match self.select(secret_path.0@, derivation_path.0@, choice) {
                Ok(keys) => r matches Ok(v) && v@.len() == keys.len() && forall|i: int|
                    0 <= i < keys.len() ==> *#[trigger] v@[i] == keys[i],
                Err(e) => r matches Err(err) && err.kind() == e.spec_kind(),
            },
            choice != DeriveKeyChoice::InRotation ==> (r matches Ok(v) ==> v@.len() == 1),
    {
        let picked = match choice {
            DeriveKeyChoice::Current => match self.get_current(secret_path, derivation_path) {
                Ok(key) => {
                    let mut one: Vec<&DerivedKey> = Vec::new();
                    one.push(key);
                    Ok(one)
                },
                Err(e) => Err(e),
            },
            DeriveKeyChoice::Specific(key_id) => match self.get_specific(
                secret_path,
                derivation_path,
                key_id,
            ) {
                Ok(key) => {
                    let mut one: Vec<&DerivedKey> = Vec::new();
                    one.push(key);
                    Ok(one)
                },
                Err(e) => Err(e),
            },
            DeriveKeyChoice::InRotation => self.get_in_rotation(secret_path, derivation_path),
        };
        match picked {
            Ok(keys) => Ok(keys),
            Err(e) => Err(e.into_alloy_error()),
        }
    }
}

/// What the provider is asked for: the paths whose keys are wanted, each of
/// them once, how the keys are to be derived, and what they are for.
#[derive(Clone, Debug)]
pub struct KeyDeriveRequest {
    pub paths: Vec<(SecretPath, DerivationPath)>,
    pub derivation_type: DerivationType,
    pub secret_type: SecretType,
}

/// The characters of a list of paths.
pub open spec fn path_model(paths: Seq<(SecretPath, DerivationPath)>) -> Seq<
    (Seq<char>, Seq<char>),
> {
    Seq::new(paths.len(), |i: int| (paths[i].0.0@, paths[i].1.0@))
}

/// `paths` names the path `path`.
pub open spec fn names_path(paths: Seq<(Seq<char>, Seq<char>)>, path: (Seq<char>, Seq<char>)) -> bool {
    exists|k: int| 0 <= k < paths.len() && #[trigger] paths[k] == path
}

/// No path occurs twice in `paths`.
pub open spec fn distinct_paths(paths: Seq<(Seq<char>, Seq<char>)>) -> bool {
    forall|i: int, j: int| 0 <= i < j < paths.len() ==> paths[i] != paths[j]
}

impl KeyDeriveRequest {
    /// The request for the keys of `paths`: it names every path of `paths`,
    /// no other, and none twice.
    pub fn for_paths(
        paths: &Vec<(SecretPath, DerivationPath)>,
        derivation_type: DerivationType,
        secret_type: SecretType,
    ) -> (request: KeyDeriveRequest)
        ensures
            request.derivation_type == derivation_type,
            request.secret_type == secret_type,
            distinct_paths(path_model(request.paths@)),
            forall|path: (Seq<char>, Seq<char>)|
                names_path(path_model(request.paths@), path) <==> names_path(
                    path_model(paths@),
                    path,
                ),
    {
        let mut wanted: Vec<(SecretPath, DerivationPath)> = Vec::new();
        let mut i: usize = 0;
        while i < paths.len()
            invariant
                i <= paths@.len(),
                distinct_paths(path_model(wanted@)),
                forall|path: (Seq<char>, Seq<char>)|
                    names_path(path_model(wanted@), path) <==> names_path(
                        path_model(paths@.take(i as int)),
                        path,
                    ),
            decreases paths@.len() - i,
        {
            let ghost this = path_model(paths@)[i as int];
            let ghost before = path_model(wanted@);
            let ghost seen = path_model(paths@.take(i as int));
            let ghost seen_after = path_model(paths@.take(i + 1));
            let mut known = false;
            let mut k: usize = 0;
            while k < wanted.len()
                invariant
                    k <= wanted@.len(),
                    i < paths@.len(),
                    this == path_model(paths@)[i as int],
                    known ==> names_path(path_model(wanted@), this),
                    !known ==> forall|n: int| 0 <= n < k ==> path_model(wanted@)[n] != this,
                decreases wanted@.len() - k,
            {
                if wanted[k].0.0 == paths[i].0.0 && wanted[k].1.0 == paths[i].1.0 {
                    assert(path_model(wanted@)[k as int] == this);
                    known = true;
                }
                k += 1;
            }
            if !known {
                wanted.push((paths[i].0.duplicate(), paths[i].1.duplicate()));
                assert(path_model(wanted@) =~= before.push(this));
            }
            proof {
                let after = path_model(wanted@);
                assert forall|n: int| 0 <= n < seen.len() implies seen[n] == seen_after[n] by {}
                assert(seen_after[i as int] == this);
                assert forall|path: (Seq<char>, Seq<char>)|
                    names_path(after, path) <==> names_path(seen_after, path) by {
                    if names_path(after, path) {
                        let n = choose|n: int| 0 <= n < after.len() && #[trigger] after[n] == path;
                        if n < before.len() {
                            assert(before[n] == path);
                            assert(names_path(before, path));
                            assert(names_path(seen, path));
                            let m = choose|m: int| 0 <= m < seen.len() && #[trigger] seen[m] == path;
                            assert(seen_after[m] == path);
                        } else {
                            assert(seen_after[i as int] == path);
                        }
                    }
                    if names_path(seen_after, path) {
                        let m = choose|m: int|
                            0 <= m < seen_after.len() && #[trigger] seen_after[m] == path;
                        if m < i {
                            assert(seen[m] == path);
                            assert(names_path(seen, path));
                            assert(names_path(before, path));
                            let n = choose|n: int|
                                0 <= n < before.len() && #[trigger] before[n] == path;
                            assert(after[n] == path);
                        } else {
                            assert(path == this);
                            if known {
                                assert(names_path(after, this));
                            } else {
                                assert(after[after.len() - 1] == this);
                            }
                        }
                    }
                }
            }
            i += 1;
        }
        assert(paths@.take(paths@.len() as int) =~= paths@);
        KeyDeriveRequest { paths: wanted, derivation_type, secret_type }
    }
}

/// The handle through which the provider is reached: where it listens and the
/// key that it expects with every request.
#[derive(Clone, Debug)]
pub struct TenantSecurityClient {
    pub tsp_address: String,
    pub api_key: String,
}

impl TenantSecurityClient {
    /// A handle for the provider at `tsp_address`.
    pub fn new(tsp_address: String, api_key: String) -> (client: TenantSecurityClient)
        ensures
            client.tsp_address == tsp_address,
            client.api_key == api_key,
    {
        TenantSecurityClient { tsp_address, api_key }
    }
}

} // verus!
