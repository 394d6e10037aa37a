//! What the authenticator remembers: credentials, the PIN, the counter of
//! signatures and its own keys.

use crate::bytes;
use crate::crypto::rng256::Rng256;
use crate::ctap::data_formats::{
    CredentialModel, CredentialProtectionPolicy, PublicKeyCredentialSource,
};
use crate::ctap::status_code::Ctap2StatusCode;
use crate::text;
use vstd::prelude::*;

verus! {

/// How many credentials can be stored.
pub const MAX_SUPPORTED_RESIDENTIAL_KEYS: usize = 150;

/// How often a wrong PIN may be given in a row.
pub const MAX_PIN_RETRIES: u8 = 8;

/// The keys that credential IDs are made with.
pub struct MasterKeys<'a> {
    pub encryption: &'a [u8; 32],
    pub hmac: &'a [u8; 32],
}

/// What the authenticator remembers.
pub struct PersistentStore {
    credentials: Vec<PublicKeyCredentialSource>,
    global_signature_counter: u32,
    pin_hash: Option<[u8; 16]>,
    pin_retries: u8,
    encryption_key: [u8; 32],
    hmac_key: [u8; 32],
}

/// What a store holds. Credentials stand in the order in which they came.
pub struct StoreModel {
    pub credentials: Seq<CredentialModel>,
    pub counter: u32,
    pub pin_hash: Option<Seq<u8>>,
    pub pin_retries: u8,
    pub encryption_key: Seq<u8>,
    pub hmac_key: Seq<u8>,
}

/// What credential sources hold.
pub open spec fn models(sources: Seq<PublicKeyCredentialSource>) -> Seq<
    CredentialModel,
> {
    sources.map_values(|source: PublicKeyCredentialSource| source@)
}

impl View for PersistentStore {
    type V = StoreModel;

    closed spec fn view(&self) -> StoreModel {
        StoreModel {
            credentials: models(self.credentials@),
            counter: self.global_signature_counter,
            pin_hash: match self.pin_hash {
                Some(hash) => Some(hash@),
                None => None,
            },
            pin_retries: self.pin_retries,
            encryption_key: self.encryption_key@,
            hmac_key: self.hmac_key@,
        }
    }
}

/// Whether two credentials are for the same user of the same relying party.
pub open spec fn same_account(
    a: CredentialModel,
    b: CredentialModel,
) -> bool {
    a.rp_id == b.rp_id && a.user_handle == b.user_handle
}

/// No user of a relying party has two credentials.
pub open spec fn accounts_differ(
    credentials: Seq<CredentialModel>,
) -> bool {
    forall|i: int, j: int|
        0 <= i < j < credentials.len() ==> !same_account(
            #[trigger] credentials[i],
            #[trigger] credentials[j],
        )
}

impl StoreModel {
    /// What holds of every store.
    pub open spec fn valid(self) -> bool {
        &&& self.credentials.len() <= MAX_SUPPORTED_RESIDENTIAL_KEYS
        &&& accounts_differ(self.credentials)
        &&& self.pin_retries <= MAX_PIN_RETRIES
        &&& self.pin_hash matches Some(hash) ==> hash.len() == 16
        &&& self.encryption_key.len() == 32
        &&& self.hmac_key.len() == 32
    }
}

/// Whether the keys of a store were drawn, the one for encryption first.
pub open spec fn drew_keys<R: Rng256>(rng: R, store: StoreModel, after: R) -> bool {
    exists|between: R| #[trigger]
        rng.draws(store.encryption_key, between) && between.draws(store.hmac_key, after)
}

/// Whether a credential belongs to a relying party and has the given ID.
pub open spec fn is_named(
    credential: CredentialModel,
    rp_id: Seq<char>,
    credential_id: Seq<u8>,
) -> bool {
    credential.rp_id == rp_id && credential.credential_id == credential_id
}

/// The first credential of a relying party that has the given ID.
pub open spec fn first_named(
    credentials: Seq<CredentialModel>,
    rp_id: Seq<char>,
    credential_id: Seq<u8>,
) -> Option<CredentialModel>
    decreases credentials.len(),
{
    if credentials.len() == 0 {
        None
    } else if is_named(credentials[0], rp_id, credential_id) {
        Some(credentials[0])
    } else {
        first_named(credentials.skip(1), rp_id, credential_id)
    }
}

/// The credential that a request finds by its ID. Unless the user is verified,
/// one that needs that is not found.
pub open spec fn found(
    credentials: Seq<CredentialModel>,
    rp_id: Seq<char>,
    credential_id: Seq<u8>,
    check_cred_protect: bool,
) -> Option<CredentialModel> {
    match first_named(credentials, rp_id, credential_id) {
        Some(c) => if check_cred_protect && c.needs_verification() {
            None
        } else {
            Some(c)
        },
        None => None,
    }
}

/// Which credentials of a relying party a request finds that names none.
/// Unless the user is verified, only the discoverable ones.
pub open spec fn is_listed(rp_id: Seq<char>, check_cred_protect: bool) -> spec_fn(
    CredentialModel,
) -> bool {
    |c: CredentialModel|
        c.rp_id == rp_id && (!check_cred_protect || c.discoverable())
}

/// The credentials of a relying party that a request finds that names none.
pub open spec fn listed(
    credentials: Seq<CredentialModel>,
    rp_id: Seq<char>,
    check_cred_protect: bool,
) -> Seq<CredentialModel> {
    credentials.filter(is_listed(rp_id, check_cred_protect))
}

/// Which credentials are for another account than the given one.
pub open spec fn is_other(
    credential: CredentialModel,
) -> spec_fn(CredentialModel) -> bool {
    |c: CredentialModel| !same_account(c, credential)
}

/// The credentials once one was stored: it takes the place of the one for the
/// same account, and comes last.
pub open spec fn with_credential(
    credentials: Seq<CredentialModel>,
    credential: CredentialModel,
) -> Seq<CredentialModel> {
    credentials.filter(is_other(credential)).push(credential)
}

/// Whether there is a credential for an account.
pub open spec fn has_account(
    credentials: Seq<CredentialModel>,
    credential: CredentialModel,
) -> bool {
    exists|i: int|
        0 <= i < credentials.len() && same_account(#[trigger] credentials[i], credential)
}

/// Whether a credential can be stored: in place of another, or where there is
/// room.
pub open spec fn can_store(
    credentials: Seq<CredentialModel>,
    credential: CredentialModel,
) -> bool {
    has_account(credentials, credential) || credentials.len() < MAX_SUPPORTED_RESIDENTIAL_KEYS
}

/// Filtering one element more.
proof fn lemma_filter_take<A>(s: Seq<A>, i: int, p: spec_fn(A) -> bool)
    requires
        0 <= i < s.len(),
    ensures
        s.take(i + 1).filter(p) == (if p(s[i]) {
            s.take(i).filter(p).push(s[i])
        } else {
            s.take(i).filter(p)
        }),
{
    reveal(Seq::filter);
    assert(s.take(i + 1).drop_last() =~= s.take(i));
}

/// Where no account occurs twice, replacing the credential of one removes it
/// from its place.
proof fn lemma_replace(
    credentials: Seq<CredentialModel>,
    credential: CredentialModel,
    i: int,
)
    requires
        accounts_differ(credentials),
        0 <= i < credentials.len(),
        same_account(credentials[i], credential),
    ensures
        credentials.filter(is_other(credential)) == credentials.remove(i),
    decreases credentials.len(),
{
    reveal(Seq::filter);
    let rest = credentials.drop_last();
    if i == credentials.len() - 1 {
        assert forall|j: int| 0 <= j < rest.len() implies !same_account(
            #[trigger] rest[j],
            credential,
        ) by {
            assert(rest[j] == credentials[j]);
        }
        lemma_keep_all(rest, credential);
        assert(credentials.remove(i) =~= rest);
    } else {
        assert forall|j: int, k: int| 0 <= j < k < rest.len() implies !same_account(
            #[trigger] rest[j],
            #[trigger] rest[k],
        ) by {
            assert(rest[j] == credentials[j] && rest[k] == credentials[k]);
        }
        assert(rest[i] == credentials[i]);
        lemma_replace(rest, credential, i);
        assert(!same_account(credentials[i], credentials.last()));
        assert(credentials.remove(i) =~= rest.remove(i).push(credentials.last()));
    }
}

/// Where an account does not occur, storing for it removes nothing.
proof fn lemma_keep_all(
    credentials: Seq<CredentialModel>,
    credential: CredentialModel,
)
    requires
        forall|i: int|
            0 <= i < credentials.len() ==> !same_account(#[trigger] credentials[i], credential),
    ensures
        credentials.filter(is_other(credential)) == credentials,
    decreases credentials.len(),
{
    reveal(Seq::filter);
    if credentials.len() > 0 {
        let rest = credentials.drop_last();
        assert forall|i: int| 0 <= i < rest.len() implies !same_account(
            #[trigger] rest[i],
            credential,
        ) by {
            assert(rest[i] == credentials[i]);
        }
        lemma_keep_all(rest, credential);
        assert(credentials =~= rest.push(credentials.last()));
    }
}

impl PersistentStore {
    /// An empty store with fresh keys.
    pub fn new<R: Rng256>(rng: &mut R) -> (store: PersistentStore)
        ensures
            store@.valid(),
            store@.credentials == Seq::<CredentialModel>::empty(),
            store@.counter == 0,
            store@.pin_hash is None,
            store@.pin_retries == MAX_PIN_RETRIES,
            drew_keys(*old(rng), store@, *final(rng)),
    {
        let encryption_key: [u8; 32] = rng.gen_uniform_u8x32();
        let ghost between = *rng;
        let hmac_key: [u8; 32] = rng.gen_uniform_u8x32();
        assert(old(rng).draws(encryption_key@, between));
        PersistentStore::with_keys(encryption_key, hmac_key)
    }

    /// An empty store with the given keys.
    pub fn with_keys(encryption_key: [u8; 32], hmac_key: [u8; 32]) -> (store: PersistentStore)
        ensures
            store@.valid(),
            store@ == (StoreModel {
                credentials: Seq::empty(),
                counter: 0,
                pin_hash: None,
                pin_retries: MAX_PIN_RETRIES,
                encryption_key: encryption_key@,
                hmac_key: hmac_key@,
            }),
    {
        let store = PersistentStore {
            credentials: Vec::new(),
            global_signature_counter: 0,
            pin_hash: None,
            pin_retries: MAX_PIN_RETRIES,
            encryption_key,
            hmac_key,
        };
        assert(store@.credentials =~= Seq::empty());
        store
    }

    /// Forgets everything, and draws fresh keys.
    pub fn reset<R: Rng256>(&mut self, rng: &mut R)
        ensures
            final(self)@.valid(),
            final(self)@.credentials == Seq::<CredentialModel>::empty(),
            final(self)@.counter == 0,
            final(self)@.pin_hash is None,
            final(self)@.pin_retries == MAX_PIN_RETRIES,
            drew_keys(*old(rng), final(self)@, *final(rng)),
    {
        *self = PersistentStore::new(rng);
    }

    /// The credential of a relying party with the given ID. With
    /// `check_cred_protect`, one that needs user verification is not found.
    pub fn find_credential(
        &self,
        rp_id: &str,
        credential_id: &[u8],
        check_cred_protect: bool,
    ) -> (credential: Option<PublicKeyCredentialSource>)
        ensures
            match credential {
                Some(c) => Some(c@) == found(
                    self@.credentials,
                    rp_id@,
                    credential_id@,
                    check_cred_protect,
                ),
                None => found(self@.credentials, rp_id@, credential_id@, check_cred_protect)
                    is None,
            },
    {
        let ghost credentials = self@.credentials;
        let mut i: usize = 0;
        assert(credentials.skip(0) =~= credentials);
        while i < self.credentials.len()
            invariant
                i <= self.credentials@.len(),
                credentials == models(self.credentials@),
                credentials == self@.credentials,
                first_named(credentials, rp_id@, credential_id@) == first_named(
                    credentials.skip(i as int),
                    rp_id@,
                    credential_id@,
                ),
            decreases self.credentials@.len() - i,
        {
            let candidate: &PublicKeyCredentialSource = &self.credentials[i];
            assert(candidate@ == credentials[i as int]);
            assert(credentials.skip(i as int)[0] == credentials[i as int]);
            if text::equal(candidate.rp_id.as_str(), rp_id) && bytes::equal(
                candidate.credential_id.as_slice(),
                credential_id,
            ) {
                let protected: bool = match candidate.cred_protect_policy {
                    Some(policy) => policy == CredentialProtectionPolicy::UserVerificationRequired,
                    None => false,
                };
                if check_cred_protect && protected {
                    return None;
                }
                return Some(candidate.clone());
            }
            assert(credentials.skip(i as int).skip(1) =~= credentials.skip(i + 1));
            i += 1;
        }
        None
    }

    /// The credentials of a relying party, in the order in which they came.
    /// With `check_cred_protect`, only the discoverable ones.
    pub fn filter_credential(&self, rp_id: &str, check_cred_protect: bool) -> (list: Vec<
        PublicKeyCredentialSource,
    >)
        ensures
            models(list@) == listed(self@.credentials, rp_id@, check_cred_protect),
    {
        let ghost credentials = self@.credentials;
        let ghost wanted = is_listed(rp_id@, check_cred_protect);
        let mut list: Vec<PublicKeyCredentialSource> = Vec::new();
        let mut i: usize = 0;
        proof {
            reveal(Seq::filter);
            assert(models(list@) =~= credentials.take(0).filter(wanted));
        }
        while i < self.credentials.len()
            invariant
                i <= self.credentials@.len(),
                credentials == models(self.credentials@),
                wanted == is_listed(rp_id@, check_cred_protect),
                models(list@) == credentials.take(i as int).filter(wanted),
            decreases self.credentials@.len() - i,
        {
            let candidate: &PublicKeyCredentialSource = &self.credentials[i];
            proof {
                assert(candidate@ == credentials[i as int]);
                lemma_filter_take(credentials, i as int, wanted);
            }
            if text::equal(candidate.rp_id.as_str(), rp_id) && (!check_cred_protect
                || candidate.is_discoverable()) {
                let ghost before = list@;
                let copy: PublicKeyCredentialSource = candidate.clone();
                list.push(copy);
                assert(models(list@) =~= models(before).push(candidate@));
            }
            i += 1;
        }
        assert(credentials.take(i as int) =~= credentials);
        list
    }

    /// How many credentials are stored.
    pub fn count_credentials(&self) -> (count: usize)
        ensures
            count == self@.credentials.len(),
    {
        self.credentials.len()
    }

    /// Stores a credential, in place of one for the same account if there is
    /// one.
    pub fn store_credential(&mut self, credential: PublicKeyCredentialSource) -> (stored: Result<
        (),
        Ctap2StatusCode,
    >)
        requires
            old(self)@.valid(),
        ensures
            final(self)@.valid(),
            match stored {
                Ok(_) => can_store(old(self)@.credentials, credential@) && final(self)@ == (
                StoreModel {
                    credentials: with_credential(old(self)@.credentials, credential@),
                    ..old(self)@
                }),
                Err(e) => !can_store(old(self)@.credentials, credential@) && e
                    == Ctap2StatusCode::CTAP2_ERR_KEY_STORE_FULL && final(self)@ == old(self)@,
            },
    {
        let ghost credentials = self@.credentials;
        let ghost new = credential@;
        let count: usize = self.credentials.len();
        let mut i: usize = 0;
        while i < count && !(text::equal(
            self.credentials[i].rp_id.as_str(),
            credential.rp_id.as_str(),
        ) && bytes::equal(
            self.credentials[i].user_handle.as_slice(),
            credential.user_handle.as_slice(),
        ))
            invariant
                i <= count,
                count == self.credentials@.len(),
                credentials == models(self.credentials@),
                new == credential@,
                forall|j: int| 0 <= j < i ==> !same_account(#[trigger] credentials[j], new),
            decreases count - i,
        {
            assert(credentials[i as int] == self.credentials@[i as int]@);
            i += 1;
        }
        if i < count {
            proof {
                assert(credentials[i as int] == self.credentials@[i as int]@);
                lemma_replace(credentials, new, i as int);
            }
            let _ = self.credentials.remove(i);
            let ghost between = self.credentials@;
            self.credentials.push(credential);
            proof {
                assert(models(between) =~= credentials.remove(i as int));
                assert(models(self.credentials@) =~= models(between).push(new));
                lemma_still_differ(credentials, new);
            }
            Ok(())
        } else if count >= MAX_SUPPORTED_RESIDENTIAL_KEYS {
            Err(Ctap2StatusCode::CTAP2_ERR_KEY_STORE_FULL)
        } else {
            proof {
                lemma_keep_all(credentials, new);
                lemma_still_differ(credentials, new);
            }
            let ghost before = self.credentials@;
            self.credentials.push(credential);
            assert(models(self.credentials@) =~= models(before).push(new));
            Ok(())
        }
    }

    /// The counter of signatures.
    pub fn global_signature_counter(&self) -> (counter: u32)
        ensures
            counter == self@.counter,
    {
        self.global_signature_counter
    }

    /// Counts one signature more. The counter starts over after its last value.
    pub fn incr_global_signature_counter(&mut self)
        ensures
            final(self)@ == (StoreModel {
                counter: if old(self)@.counter == u32::MAX {
                    0
                } else {
                    (old(self)@.counter + 1) as u32
                },
                ..old(self)@
            }),
    {
        self.global_signature_counter = self.global_signature_counter.wrapping_add(1);
    }

    /// The keys that credential IDs are made with.
    pub fn master_keys(&self) -> (keys: MasterKeys<'_>)
        ensures
            keys.encryption@ == self@.encryption_key,
            keys.hmac@ == self@.hmac_key,
    {
        MasterKeys { encryption: &self.encryption_key, hmac: &self.hmac_key }
    }

    /// The start of the hash of the PIN, if one is set.
    pub fn pin_hash(&self) -> (hash: Option<&[u8; 16]>)
        ensures
            match hash {
                Some(h) => self@.pin_hash == Some(h@),
                None => self@.pin_hash is None,
            },
    {
        match &self.pin_hash {
            Some(hash) => Some(hash),
            None => None,
        }
    }

    /// Sets the PIN to the one with the given hash.
    pub fn set_pin_hash(&mut self, pin_hash: &[u8; 16])
        ensures
            final(self)@ == (StoreModel { pin_hash: Some(pin_hash@), ..old(self)@ }),
    {
        self.pin_hash = Some(*pin_hash);
    }

    /// How often a wrong PIN may still be given.
    pub fn pin_retries(&self) -> (retries: u8)
        ensures
            retries == self@.pin_retries,
    {
        self.pin_retries
    }

    /// Takes one try, if there is one left.
    pub fn decr_pin_retries(&mut self)
        ensures
            final(self)@ == (StoreModel {
                pin_retries: if old(self)@.pin_retries == 0 {
                    0
                } else {
                    (old(self)@.pin_retries - 1) as u8
                },
                ..old(self)@
            }),
    {
        if self.pin_retries > 0 {
            self.pin_retries -= 1;
        }
    }

    /// Gives all tries back.
    pub fn reset_pin_retries(&mut self)
        ensures
            final(self)@ == (StoreModel { pin_retries: MAX_PIN_RETRIES, ..old(self)@ }),
    {
        self.pin_retries = MAX_PIN_RETRIES;
    }
}

/// Leaving an account out keeps the accounts of the others different.
proof fn lemma_filter_keeps(
    credentials: Seq<CredentialModel>,
    credential: CredentialModel,
)
    requires
        accounts_differ(credentials),
    ensures
        accounts_differ(credentials.filter(is_other(credential))),
        forall|i: int|
            0 <= i < credentials.filter(is_other(credential)).len() ==> !same_account(
                #[trigger] credentials.filter(is_other(credential))[i],
                credential,
            ),
        credentials.filter(is_other(credential)).len() <= credentials.len(),
{
    if has_account(credentials, credential) {
        let i = choose|i: int|
            0 <= i < credentials.len() && same_account(#[trigger] credentials[i], credential);
        lemma_replace(credentials, credential, i);
        let kept = credentials.remove(i);
        assert forall|j: int| 0 <= j < kept.len() implies !same_account(
            #[trigger] kept[j],
            credential,
        ) by {
            let k = if j < i {
                j
            } else {
                j + 1
            };
            assert(kept[j] == credentials[k]);
            if k < i {
                assert(!same_account(credentials[k], credentials[i]));
            } else {
                assert(!same_account(credentials[i], credentials[k]));
            }
        }
    } else {
        assert forall|i: int| 0 <= i < credentials.len() implies !same_account(
            #[trigger] credentials[i],
            credential,
        ) by {}
        lemma_keep_all(credentials, credential);
    }
}

/// Storing a credential leaves every account with at most one.
proof fn lemma_still_differ(
    credentials: Seq<CredentialModel>,
    credential: CredentialModel,
)
    requires
        accounts_differ(credentials),
    ensures
        accounts_differ(with_credential(credentials, credential)),
{
    lemma_filter_keeps(credentials, credential);
}

/// What a filter lets through it lets through.
pub proof fn lemma_filtered(
    credentials: Seq<CredentialModel>,
    wanted: spec_fn(CredentialModel) -> bool,
)
    ensures
        forall|i: int|
            0 <= i < credentials.filter(wanted).len() ==> wanted(
                #[trigger] credentials.filter(wanted)[i],
            ),
    decreases credentials.len(),
{
    reveal(Seq::filter);
    if credentials.len() > 0 {
        lemma_filtered(credentials.drop_last(), wanted);
    }
}

/// Where no credential has a name, neither do those that a filter lets through.
proof fn lemma_still_unnamed(
    credentials: Seq<CredentialModel>,
    rp_id: Seq<char>,
    credential_id: Seq<u8>,
)
    ensures
        first_named(credentials, rp_id, credential_id) is None <==> (forall|i: int|
            0 <= i < credentials.len() ==> !is_named(
                #[trigger] credentials[i],
                rp_id,
                credential_id,
            )),
    decreases credentials.len(),
{
    if credentials.len() > 0 {
        let rest = credentials.skip(1);
        lemma_still_unnamed(rest, rp_id, credential_id);
        assert(forall|i: int| 0 <= i < rest.len() ==> #[trigger] rest[i] == credentials[i + 1]);
        assert(forall|i: int|
            1 <= i < credentials.len() ==> #[trigger] credentials[i] == rest[i - 1]);
    }
}

/// Every element that a filter keeps stood in the sequence.
pub proof fn lemma_filter_subset(
    credentials: Seq<CredentialModel>,
    wanted: spec_fn(CredentialModel) -> bool,
)
    ensures
        forall|i: int|
            0 <= i < credentials.filter(wanted).len() ==> credentials.contains(
                #[trigger] credentials.filter(wanted)[i],
            ),
    decreases credentials.len(),
{
    reveal(Seq::filter);
    if credentials.len() > 0 {
        let rest = credentials.drop_last();
        lemma_filter_subset(rest, wanted);
        assert forall|i: int| 0 <= i < credentials.filter(wanted).len() implies credentials.contains(
            #[trigger] credentials.filter(wanted)[i],
        ) by {
            let c = credentials.filter(wanted)[i];
            if i < rest.filter(wanted).len() {
                assert(c == rest.filter(wanted)[i]);
                let j = choose|j: int| 0 <= j < rest.len() && rest[j] == c;
                assert(credentials[j] == c);
            } else {
                assert(credentials[credentials.len() - 1] == c);
            }
        }
    }
}

/// The first credential with a name, where only the last one has it.
proof fn lemma_last_named(
    credentials: Seq<CredentialModel>,
    credential: CredentialModel,
)
    requires
        first_named(credentials, credential.rp_id, credential.credential_id) is None,
    ensures
        first_named(
            credentials.push(credential),
            credential.rp_id,
            credential.credential_id,
        ) == Some(credential),
    decreases credentials.len(),
{
    if credentials.len() > 0 {
        assert(credentials.push(credential).skip(1) =~= credentials.skip(1).push(credential));
        lemma_last_named(credentials.skip(1), credential);
    }
}

/// A credential that was stored is found by its ID, if no other of its relying
/// party has the same; unless it needs user verification and that is checked.
pub proof fn law_stored_is_found(credentials: Seq<CredentialModel>, credential: CredentialModel)
    requires
        first_named(credentials, credential.rp_id, credential.credential_id) is None,
    ensures
        found(
            with_credential(credentials, credential),
            credential.rp_id,
            credential.credential_id,
            false,
        ) == Some(credential),
        found(
            with_credential(credentials, credential),
            credential.rp_id,
            credential.credential_id,
            true,
        ) == (if credential.needs_verification() {
            None
        } else {
            Some(credential)
        }),
{
    let kept = credentials.filter(is_other(credential));
    lemma_still_unnamed(credentials, credential.rp_id, credential.credential_id);
    lemma_filter_subset(credentials, is_other(credential));
    assert forall|i: int| 0 <= i < kept.len() implies !is_named(
        #[trigger] kept[i],
        credential.rp_id,
        credential.credential_id,
    ) by {
        let j = choose|j: int| 0 <= j < credentials.len() && credentials[j] == kept[i];
        assert(!is_named(credentials[j], credential.rp_id, credential.credential_id));
    }
    lemma_still_unnamed(kept, credential.rp_id, credential.credential_id);
    lemma_last_named(kept, credential);
}

/// A credential that was stored comes last among those of its relying party;
/// unless it is not discoverable and that is checked.
pub proof fn law_stored_is_listed(
    credentials: Seq<CredentialModel>,
    credential: CredentialModel,
    check_cred_protect: bool,
)
    ensures
        ({
            let kept = credentials.filter(is_other(credential));
            let before = listed(kept, credential.rp_id, check_cred_protect);
            listed(with_credential(credentials, credential), credential.rp_id, check_cred_protect)
                == (if check_cred_protect && !credential.discoverable() {
                before
            } else {
                before.push(credential)
            })
        }),
{
    reveal(Seq::filter);
    let kept = credentials.filter(is_other(credential));
    assert(kept.push(credential).drop_last() =~= kept);
}

/// Storing a credential loses no credential of another account.
pub proof fn law_others_are_kept(
    credentials: Seq<CredentialModel>,
    credential: CredentialModel,
    other: CredentialModel,
)
    requires
        credentials.contains(other),
        !same_account(other, credential),
    ensures
        with_credential(credentials, credential).contains(other),
    decreases credentials.len(),
{
    reveal(Seq::filter);
    let kept = credentials.filter(is_other(credential));
    let rest = credentials.drop_last();
    if credentials.last() == other {
        assert(kept.last() == other);
        assert(kept.push(credential)[kept.len() - 1] == other);
    } else {
        let i = choose|i: int| 0 <= i < credentials.len() && credentials[i] == other;
        assert(rest[i] == other);
        law_others_are_kept(rest, credential, other);
        let start = rest.filter(is_other(credential));
        let j = choose|j: int|
            0 <= j < start.push(credential).len() && start.push(credential)[j] == other;
        assert(j < start.len());
        assert(kept.push(credential)[j] == other);
    }
}

} // verus!
