//! Credential IDs that hold the credential that they name.

use crate::bytes;
use crate::crypto::cbc;
use crate::crypto::ecdsa;
use crate::crypto::hmac;
use crate::crypto::p256;
use crate::crypto::rng256::Rng256;
use crate::ctap::data_formats::{
    CredentialModel, PublicKeyCredentialSource, PublicKeyCredentialType,
};
use crate::ctap::hid::ChannelID;
use crate::ctap::state::{CtapState, ENCRYPTED_CREDENTIAL_ID_SIZE};
use crate::ctap::status_code::Ctap2StatusCode;
use crate::ctap::storage::StoreModel;
use vstd::prelude::*;
use vstd::slice::slice_subrange;

verus! {

/// The encrypted part of a credential ID, with the vector before it.
pub open spec fn sealed(
    encryption_key: Seq<u8>,
    iv: Seq<u8>,
    private_key: Seq<u8>,
    application: Seq<u8>,
) -> Seq<u8> {
    iv + cbc::cbc_enc(encryption_key, iv, private_key + application)
}

/// The credential ID that holds a private key for a relying party.
pub open spec fn key_handle(
    store: StoreModel,
    iv: Seq<u8>,
    private_key: Seq<u8>,
    application: Seq<u8>,
) -> Seq<u8> {
    let body = sealed(store.encryption_key, iv, private_key, application);
    body + hmac::hmac_sha256(store.hmac_key, body)
}

/// The private key that a credential ID holds for a relying party. There is
/// none if the length or the HMAC is wrong, if the ID is for another relying
/// party, or if no private key is in it.
pub open spec fn opened(
    store: StoreModel,
    credential_id: Seq<u8>,
    rp_id_hash: Seq<u8>,
) -> Option<Seq<u8>> {
    let body = credential_id.take(80);
    let plain = cbc::cbc_dec(
        store.encryption_key,
        credential_id.take(16),
        credential_id.subrange(16, 80),
    );
    if credential_id.len() != ENCRYPTED_CREDENTIAL_ID_SIZE {
        None
    } else if hmac::hmac_sha256(store.hmac_key, body) != credential_id.skip(80) {
        None
    } else if plain.skip(32) != rp_id_hash {
        None
    } else if !p256::is_scalar(plain.take(32)) {
        None
    } else {
        Some(plain.take(32))
    }
}

/// The credential that a credential ID holds: nothing is known of it but its
/// private key.
pub open spec fn opened_credential(
    credential_id: Seq<u8>,
    private_key: Seq<u8>,
) -> CredentialModel {
    CredentialModel {
        key_type: PublicKeyCredentialType::PublicKey,
        credential_id,
        private_key,
        rp_id: Seq::empty(),
        user_handle: Seq::empty(),
        other_ui: None,
        cred_random: None,
        cred_protect_policy: None,
    }
}

impl<'a, R, CheckUserPresence> CtapState<'a, R, CheckUserPresence> where
    R: Rng256,
    CheckUserPresence: Fn(ChannelID) -> Result<(), Ctap2StatusCode>,
 {
    /// Puts a private key into a credential ID for a relying party. The ID
    /// gives the key back to that relying party.
    pub fn encrypt_key_handle(
        &mut self,
        private_key: ecdsa::SecKey,
        application: &[u8; 32],
    ) -> (credential_id: Vec<u8>)
        ensures
            final(self)@ == old(self)@,
            final(self).check_user_presence == old(self).check_user_presence,
            credential_id@.len() == ENCRYPTED_CREDENTIAL_ID_SIZE,
            credential_id@ == key_handle(
                old(self)@.store,
                credential_id@.take(16),
                private_key@,
                application@,
            ),
            opened(old(self)@.store, credential_id@, application@) == Some(private_key@),
            exists|drawn: Seq<u8>| #[trigger]
                old(self).rng.draws(drawn, *final(self).rng) && credential_id@.take(16)
                    == drawn.take(16),
    {
        let drawn: [u8; 32] = self.rng.gen_uniform_u8x32();
        let iv: [u8; 16] = bytes::to_array(slice_subrange(&drawn, 0, 16));
        let credential_id: Vec<u8> = self.encrypt_key_handle_with(&iv, private_key, application);
        assert(credential_id@.take(16) =~= iv@);
        assert(credential_id@.take(16) =~= drawn@.take(16));
        assert(old(self).rng.draws(drawn@, *self.rng));
        credential_id
    }

    /// Puts a private key into a credential ID for a relying party, with the
    /// given vector.
    pub fn encrypt_key_handle_with(
        &self,
        iv: &[u8; 16],
        private_key: ecdsa::SecKey,
        application: &[u8; 32],
    ) -> (credential_id: Vec<u8>)
        ensures
            credential_id@.len() == ENCRYPTED_CREDENTIAL_ID_SIZE,
            credential_id@ == key_handle(self@.store, iv@, private_key@, application@),
            opened(self@.store, credential_id@, application@) == Some(private_key@),
    {
        let master_keys = self.persistent_store.master_keys();
        let mut sk_bytes: [u8; 32] = [0u8; 32];
        private_key.to_bytes(&mut sk_bytes);
        let plain: Vec<u8> = bytes::concat(&sk_bytes, application);
        let encrypted: Vec<u8> = cbc::cbc_encrypt(master_keys.encryption, iv, plain.as_slice());
        let mut credential_id: Vec<u8> = bytes::concat(iv, encrypted.as_slice());
        let ghost body = credential_id@;
        let mac: [u8; 32] = hmac::hmac_256(master_keys.hmac, credential_id.as_slice());
        bytes::append(&mut credential_id, &mac);
        proof {
            assert(credential_id@.take(80) =~= body);
            assert(credential_id@.skip(80) =~= mac@);
            assert(credential_id@.take(16) =~= iv@);
            assert(credential_id@.subrange(16, 80) =~= encrypted@);
            assert(plain@.take(32) =~= private_key@);
            assert(plain@.skip(32) =~= application@);
        }
        credential_id
    }

    /// The credential that a credential ID holds for a relying party, if it
    /// holds one.
    pub fn decrypt_credential_source(
        &self,
        credential_id: Vec<u8>,
        rp_id_hash: &[u8],
    ) -> (source: Option<PublicKeyCredentialSource>)
        ensures
            match source {
                Some(s) => opened(self@.store, credential_id@, rp_id_hash@) matches Some(key) && s@
                    == opened_credential(credential_id@, key),
                None => opened(self@.store, credential_id@, rp_id_hash@) is None,
            },
    {
        if credential_id.len() != ENCRYPTED_CREDENTIAL_ID_SIZE {
            return None;
        }
        let master_keys = self.persistent_store.master_keys();
        let id: &[u8] = credential_id.as_slice();
        let mac: [u8; 32] = bytes::to_array(slice_subrange(id, 80, 112));
        proof {
            assert(id@.subrange(0, 80) =~= id@.take(80));
            assert(mac@ =~= id@.skip(80));
            assert(id@.subrange(0, 16) =~= id@.take(16));
        }
        if !hmac::verify_hmac_256(master_keys.hmac, slice_subrange(id, 0, 80), &mac) {
            return None;
        }
        let iv: [u8; 16] = bytes::to_array(slice_subrange(id, 0, 16));
        let plain: Vec<u8> = cbc::cbc_decrypt(
            master_keys.encryption,
            &iv,
            slice_subrange(id, 16, 80),
        );
        let decrypted_sk: [u8; 32] = bytes::to_array(slice_subrange(plain.as_slice(), 0, 32));
        let decrypted_rp_id_hash: [u8; 32] = bytes::to_array(
            slice_subrange(plain.as_slice(), 32, 64),
        );
        proof {
            assert(decrypted_sk@ =~= plain@.take(32));
            assert(decrypted_rp_id_hash@ =~= plain@.skip(32));
        }
        if !bytes::equal(rp_id_hash, &decrypted_rp_id_hash) {
            return None;
        }
        match ecdsa::SecKey::from_bytes(&decrypted_sk) {
            Some(private_key) => {
                let source = PublicKeyCredentialSource {
                    key_type: PublicKeyCredentialType::PublicKey,
                    credential_id,
                    private_key,
                    rp_id: String::new(),
                    user_handle: Vec::new(),
                    other_ui: None,
                    cred_random: None,
                    cred_protect_policy: None,
                };
                assert(source@ =~= opened_credential(source.credential_id@, private_key@));
                Some(source)
            },
            None => None,
        }
    }
}

} // verus!
