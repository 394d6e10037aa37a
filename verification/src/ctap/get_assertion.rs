//! Using credentials.

use crate::bytes;
use crate::cbor::builder;
use crate::cbor::model;
use crate::cbor::model::{Item, Value};
use crate::cbor::writer;
use crate::crypto::ecdh;
use crate::crypto::ecdsa;
use crate::crypto::p256;
use crate::crypto::rng256::Rng256;
use crate::crypto::sha256;
use crate::ctap::command::{AuthenticatorGetAssertionParameters, GetAssertionModel};
use crate::ctap::credential_id;
use crate::ctap::data_formats::{
    CredentialModel, GetAssertionHmacSecretInput, PublicKeyCredentialDescriptor,
    PublicKeyCredentialSource, PublicKeyCredentialType, PublicKeyCredentialUserEntity,
};
use crate::ctap::hid::ChannelID;
use crate::ctap::make_credential;
use crate::ctap::parse;
use crate::ctap::parse::{DescriptorModel, HmacInputModel};
use crate::ctap::pin;
use crate::ctap::response::{AuthenticatorGetAssertionResponse, ResponseData};
use crate::ctap::state;
use crate::ctap::state::{CtapState, StateModel};
use crate::ctap::status_code::Ctap2StatusCode;
use crate::ctap::storage;
use vstd::prelude::*;
use vstd::slice::slice_to_vec;

verus! {

/// What the hmac-secret extension is asked to compute on, if it is used.
pub open spec fn hmac_input(params: GetAssertionModel) -> Option<
    HmacInputModel,
> {
    match params.extensions {
        Some(input) => input,
        None => None,
    }
}

/// Why a request is refused, whatever credentials there are. It may be made
/// without authentication, but only if it does not ask for it.
pub open spec fn assertion_refusal(
    state: StateModel,
    params: GetAssertionModel,
) -> Option<Ctap2StatusCode> {
    match pin::auth_param_refusal(state, params.pin_uv_auth_param, params.pin_uv_auth_protocol) {
        Some(code) => Some(code),
        None => if hmac_input(params) is Some && !params.options.up {
            Some(Ctap2StatusCode::CTAP2_ERR_UNSUPPORTED_EXTENSION)
        } else {
            match params.pin_uv_auth_param {
                Some(pin_auth) => if state.store.pin_hash is None {
                    Some(Ctap2StatusCode::CTAP2_ERR_PIN_NOT_SET)
                } else if !pin::authenticated(
                    state.pin_token,
                    params.client_data_hash,
                    pin_auth,
                ) {
                    Some(Ctap2StatusCode::CTAP2_ERR_PIN_AUTH_INVALID)
                } else {
                    None
                },
                None => if params.options.uv {
                    Some(Ctap2StatusCode::CTAP2_ERR_INVALID_OPTION)
                } else {
                    None
                },
            }
        },
    }
}

/// The first credential that is stored under one of the names.
pub open spec fn first_found(
    state: StateModel,
    rp_id: Seq<char>,
    list: Seq<DescriptorModel>,
    check_cred_protect: bool,
) -> Option<CredentialModel>
    decreases list.len(),
{
    if list.len() == 0 {
        None
    } else {
        match storage::found(
            state.store.credentials,
            rp_id,
            list[0].key_id,
            check_cred_protect,
        ) {
            Some(c) => Some(c),
            None => first_found(state, rp_id, list.skip(1), check_cred_protect),
        }
    }
}

/// The credential that the first of the names holds that holds one.
pub open spec fn first_opened(
    state: StateModel,
    rp_id_hash: Seq<u8>,
    list: Seq<DescriptorModel>,
) -> Option<CredentialModel>
    decreases list.len(),
{
    if list.len() == 0 {
        None
    } else {
        match credential_id::opened(state.store, list[0].key_id, rp_id_hash) {
            Some(key) => Some(credential_id::opened_credential(list[0].key_id, key)),
            None => first_opened(state, rp_id_hash, list.skip(1)),
        }
    }
}

/// The credential that a request uses: of those that it names, the first that
/// is stored, or else the first that its name holds; if it names none, the
/// first that is stored and may be found.
pub open spec fn chosen(
    state: StateModel,
    params: GetAssertionModel,
) -> Option<CredentialModel> {
    let check = params.pin_uv_auth_param is None;
    match params.allow_list {
        Some(list) => match first_found(state, params.rp_id, list, check) {
            Some(c) => Some(c),
            None => first_opened(state, make_credential::rp_id_hash(params.rp_id), list),
        },
        None => {
            let listed = storage::listed(state.store.credentials, params.rp_id, check);
            if listed.len() == 0 {
                None
            } else {
                Some(listed[0])
            }
        },
    }
}

/// The secret output of the hmac-secret extension, or why there is none.
pub open spec fn hmac_output(
    state: StateModel,
    credential: CredentialModel,
    input: HmacInputModel,
) -> Result<Seq<u8>, Ctap2StatusCode> {
    let secret = pin::secret_with(state, input.key_agreement);
    let salts = input.salt_enc;
    if !p256::is_point(input.key_agreement.0, input.key_agreement.1) {
        Err(Ctap2StatusCode::CTAP1_ERR_INVALID_PARAMETER)
    } else if !pin::authenticated(secret, salts, input.salt_auth) {
        Err(Ctap2StatusCode::CTAP2_ERR_UNSUPPORTED_EXTENSION)
    } else {
        match credential.cred_random {
            None => Err(Ctap2StatusCode::CTAP2_ERR_UNSUPPORTED_EXTENSION),
            Some(random) => if salts.len() != 32 && salts.len() != 64 || random.len() != 32 {
                Err(Ctap2StatusCode::CTAP2_ERR_UNSUPPORTED_EXTENSION)
            } else {
                Ok(pin::encrypted(secret, pin::salted(random, pin::decrypted(secret, salts))))
            },
        }
    }
}

/// Whether the output of the hmac-secret extension, if there is one, is as long
/// as the encrypted salts, and decrypts to the HMACs of the salts.
pub open spec fn output_decrypts(
    state: StateModel,
    credential: CredentialModel,
    input: HmacInputModel,
) -> bool {
    let secret = pin::secret_with(state, input.key_agreement);
    hmac_output(state, credential, input) matches Ok(output) ==> {
        &&& output.len() == input.salt_enc.len()
        &&& credential.cred_random matches Some(random) && pin::decrypted(secret, output)
            == pin::salted(random, pin::decrypted(secret, input.salt_enc))
    }
}

/// The output of the hmac-secret extension as it stands in the answer.
pub open spec fn hmac_output_item(output: Seq<u8>) -> Item {
    Item::Table(seq![(Item::TextString("hmac-secret"@), Item::ByteString(output))])
}

/// What the answer says of extensions, or why there is no answer.
pub open spec fn extension_data(
    state: StateModel,
    credential: CredentialModel,
    input: Option<HmacInputModel>,
) -> Result<Seq<u8>, Ctap2StatusCode> {
    match input {
        None => Ok(Seq::empty()),
        Some(i) => match hmac_output(state, credential, i) {
            Ok(output) => Ok(model::encode(hmac_output_item(output))),
            Err(e) => Err(e),
        },
    }
}

/// Whether a result is the use of a credential, with the given data and
/// signature. It tells of the user only if the user was verified.
pub open spec fn is_assertion(
    result: Result<ResponseData, Ctap2StatusCode>,
    credential: CredentialModel,
    verified: bool,
    auth_data: Seq<u8>,
    signature: (Seq<u8>, Seq<u8>),
) -> bool {
    result matches Ok(ResponseData::AuthenticatorGetAssertion(r)) && {
        &&& r.credential matches Some(descriptor) && descriptor.key_type
            == PublicKeyCredentialType::PublicKey && descriptor.key_id@
            == credential.credential_id && descriptor.transports is None
        &&& r.auth_data@ == auth_data
        &&& r.signature@ == ecdsa::der_signature(signature)
        &&& r.number_of_credentials is None
        &&& match r.user {
            Some(user) => {
                &&& verified
                &&& user.user_id@ == credential.user_handle
                &&& user.user_name is None
                &&& crate::ctap::data_formats::text_model(user.user_display_name)
                    == credential.other_ui
                &&& user.user_icon is None
            },
            None => !verified,
        }
    }
}

/// What comes of the use of a credential, once the user was present if that is
/// asked for. It is counted in any case. The signature is accepted by the
/// public key of the credential.
pub open spec fn asserted_with(
    pre: StateModel,
    params: GetAssertionModel,
    credential: CredentialModel,
    result: Result<ResponseData, Ctap2StatusCode>,
    post: StateModel,
) -> bool {
    let verified = params.pin_uv_auth_param is Some;
    &&& post == pin::with_store(pre, state::counted(pre.store))
    &&& hmac_input(params) matches Some(input) ==> output_decrypts(pre, credential, input)
    &&& match extension_data(pre, credential, hmac_input(params)) {
        Err(e) => result == Err::<ResponseData, _>(e),
        Ok(extension) => {
            let auth_data = state::auth_data(
                make_credential::rp_id_hash(params.rp_id),
                state::flag_byte(params.options.up, verified, false, hmac_input(params) is Some),
                post.store.counter,
            ) + extension;
            let signed = auth_data + params.client_data_hash;
            match ecdsa::signature(credential.private_key, signed) {
                Some(signature) => {
                    &&& is_assertion(result, credential, verified, auth_data, signature)
                    &&& ecdsa::accepts(
                        ecdsa::public_key(credential.private_key),
                        signed,
                        signature,
                    )
                },
                None => result == Err::<ResponseData, _>(Ctap2StatusCode::CTAP1_ERR_OTHER),
            }
        },
    }
}

/// What a request to use a credential does.
pub open spec fn did_get_assertion<C: Fn(ChannelID) -> Result<(), Ctap2StatusCode>>(
    pre: StateModel,
    check: C,
    cid: ChannelID,
    params: GetAssertionModel,
    result: Result<ResponseData, Ctap2StatusCode>,
    post: StateModel,
) -> bool {
    if let Some(code) = assertion_refusal(pre, params) {
        result == Err::<ResponseData, _>(code) && post == pre
    } else {
        match chosen(pre, params) {
            None => result == Err::<ResponseData, _>(Ctap2StatusCode::CTAP2_ERR_NO_CREDENTIALS)
                && post == pre,
            Some(credential) => if params.options.up {
                exists|presence: Result<(), Ctap2StatusCode>| #[trigger]
                    call_ensures(check, (cid,), presence) && match presence {
                        Err(e) => result == Err::<ResponseData, _>(e) && post == pre,
                        Ok(_) => asserted_with(pre, params, credential, result, post),
                    }
            } else {
                asserted_with(pre, params, credential, result, post)
            },
        }
    }
}

/// The output of the hmac-secret extension as it stands in the answer.
fn hmac_output_value(output: Vec<u8>) -> (value: Value)
    ensures
        value@ == hmac_output_item(output@),
        model::nested_at_most(value@, 4),
{
    let mut pairs: Vec<(Value, Value)> = Vec::new();
    builder::push(&mut pairs, builder::text("hmac-secret"), Value::ByteString(output));
    assert(builder::flat(pairs@, 3));
    assert(model::entries(pairs@) =~= hmac_output_item(output@)->Table_0);
    Value::Table(pairs)
}

impl<'a, R, CheckUserPresence> CtapState<'a, R, CheckUserPresence> where
    R: Rng256,
    CheckUserPresence: Fn(ChannelID) -> Result<(), Ctap2StatusCode>,
 {
    /// Checks a request, whatever credentials there are.
    fn check_assertion(&self, params: &AuthenticatorGetAssertionParameters) -> (result: Result<
        (),
        Ctap2StatusCode,
    >)
        ensures
            match result {
                Ok(_) => assertion_refusal(self@, params@) is None,
                Err(e) => assertion_refusal(self@, params@) == Some(e),
            },
    {
        self.check_auth_param(&params.pin_uv_auth_param, params.pin_uv_auth_protocol)?;
        let has_hmac_input: bool = match &params.extensions {
            Some(e) => e.hmac_secret.is_some(),
            None => false,
        };
        if has_hmac_input && !params.options.up {
            // The extension is supported, but only with user presence.
            return Err(Ctap2StatusCode::CTAP2_ERR_UNSUPPORTED_EXTENSION);
        }
        match &params.pin_uv_auth_param {
            Some(pin_auth) => {
                if self.persistent_store.pin_hash().is_none() {
                    return Err(Ctap2StatusCode::CTAP2_ERR_PIN_NOT_SET);
                }
                if !pin::check_pin_auth(
                    &self.pin_uv_auth_token,
                    params.client_data_hash.as_slice(),
                    pin_auth.as_slice(),
                ) {
                    return Err(Ctap2StatusCode::CTAP2_ERR_PIN_AUTH_INVALID);
                }
            },
            None => {
                if params.options.uv {
                    return Err(Ctap2StatusCode::CTAP2_ERR_INVALID_OPTION);
                }
            },
        }
        Ok(())
    }

    /// The credential that a request uses among those that it names.
    fn choose_named(
        &self,
        rp_id: &str,
        rp_id_hash: &[u8; 32],
        list: &Vec<PublicKeyCredentialDescriptor>,
        check_cred_protect: bool,
    ) -> (credential: Option<PublicKeyCredentialSource>)
        ensures
            ({
                let stored = first_found(self@, rp_id@, parse::views(list@), check_cred_protect);
                let expected = if stored is Some {
                    stored
                } else {
                    first_opened(self@, rp_id_hash@, parse::views(list@))
                };
                match credential {
                    Some(c) => expected == Some(c@),
                    None => expected is None,
                }
            }),
    {
        let ghost names = parse::views(list@);
        let mut decrypted: Option<PublicKeyCredentialSource> = None;
        let mut i: usize = 0;
        assert(names.skip(0) =~= names);
        while i < list.len()
            invariant
                i <= list@.len(),
                names == parse::views(list@),
                first_found(self@, rp_id@, names, check_cred_protect) == first_found(
                    self@,
                    rp_id@,
                    names.skip(i as int),
                    check_cred_protect,
                ),
                match decrypted {
                    Some(c) => first_opened(self@, rp_id_hash@, names) == Some(c@),
                    None => first_opened(self@, rp_id_hash@, names) == first_opened(
                        self@,
                        rp_id_hash@,
                        names.skip(i as int),
                    ),
                },
            decreases list@.len() - i,
        {
            let ghost rest = names.skip(i as int);
            proof {
                assert(rest[0] == list@[i as int]@);
                assert(rest.skip(1) =~= names.skip(i + 1));
            }
            match self.persistent_store.find_credential(
                rp_id,
                list[i].key_id.as_slice(),
                check_cred_protect,
            ) {
                Some(credential) => {
                    return Some(credential);
                },
                None => {
                    if decrypted.is_none() {
                        decrypted = self.decrypt_credential_source(
                            slice_to_vec(list[i].key_id.as_slice()),
                            rp_id_hash,
                        );
                    }
                },
            }
            i += 1;
        }
        decrypted
    }

    /// The credential that a request uses.
    fn choose_credential(
        &self,
        params: &AuthenticatorGetAssertionParameters,
        rp_id_hash: &[u8; 32],
    ) -> (credential: Option<PublicKeyCredentialSource>)
        requires
            rp_id_hash@ == make_credential::rp_id_hash(params.rp_id@),
        ensures
            match credential {
                Some(c) => chosen(self@, params@) == Some(c@),
                None => chosen(self@, params@) is None,
            },
    {
        let check: bool = params.pin_uv_auth_param.is_none();
        match &params.allow_list {
            Some(list) => self.choose_named(params.rp_id.as_str(), rp_id_hash, list, check),
            None => {
                let mut listed: Vec<PublicKeyCredentialSource> =
                    self.persistent_store.filter_credential(params.rp_id.as_str(), check);
                let ghost models = storage::models(listed@);
                if listed.len() == 0 {
                    None
                } else {
                    assert(models[0] == listed@[0]@);
                    Some(listed.remove(0))
                }
            },
        }
    }

    /// The secret output of the hmac-secret extension. It decrypts to the HMACs
    /// of the salts.
    fn compute_hmac_output(
        &self,
        credential: &PublicKeyCredentialSource,
        input: &GetAssertionHmacSecretInput,
    ) -> (output: Result<Vec<u8>, Ctap2StatusCode>)
        ensures
            match output {
                Ok(o) => hmac_output(self@, credential@, input@) == Ok::<Seq<u8>, Ctap2StatusCode>(
                    o@,
                ),
                Err(e) => hmac_output(self@, credential@, input@) == Err::<Seq<u8>, _>(e),
            },
            output_decrypts(self@, credential@, input@),
    {
        let pk: ecdh::PubKey = match input.key_agreement.try_into() {
            Ok(pk) => pk,
            Err(e) => {
                return Err(e);
            },
        };
        let secret: [u8; 32] = self.key_agreement_key.exchange_x_sha256(&pk);
        // The truncated check of the PIN protocol is the one for salts too.
        if !pin::check_pin_auth(&secret, input.salt_enc.as_slice(), input.salt_auth.as_slice()) {
            return Err(Ctap2StatusCode::CTAP2_ERR_UNSUPPORTED_EXTENSION);
        }
        match &credential.cred_random {
            Some(random) => pin::encrypt_hmac_secret_output(
                &secret,
                input.salt_enc.as_slice(),
                random.as_slice(),
            ),
            // The credential was made without the extension.
            None => Err(Ctap2StatusCode::CTAP2_ERR_UNSUPPORTED_EXTENSION),
        }
    }

    /// Uses a credential, for a request that was not refused, once the user was
    /// present if that is asked for.
    pub fn get_assertion_with(
        &mut self,
        params: &AuthenticatorGetAssertionParameters,
        credential: &PublicKeyCredentialSource,
    ) -> (result: Result<ResponseData, Ctap2StatusCode>)
        requires
            old(self)@.valid(),
        ensures
            final(self)@.valid(),
            final(self).check_user_presence == old(self).check_user_presence,
            *final(self).rng == *old(self).rng,
            asserted_with(old(self)@, params@, credential@, result, final(self)@),
    {
        let ghost pre = self@;
        self.increment_global_signature_counter();
        let rp_id_hash: [u8; 32] = sha256::hash(params.rp_id.as_str().as_bytes());
        let verified: bool = params.pin_uv_auth_param.is_some();
        let hmac_input: &Option<GetAssertionHmacSecretInput> = match &params.extensions {
            Some(e) => &e.hmac_secret,
            None => &None,
        };
        assert(parse::hmac_input_model(*hmac_input) == self::hmac_input(params@));
        let flags: u8 = state::make_flags(params.options.up, verified, false, hmac_input.is_some());
        let mut auth_data: Vec<u8> = self.generate_auth_data(&rp_id_hash, flags);
        let ghost start = auth_data@;
        if let Some(input) = hmac_input {
            let output: Vec<u8> = match self.compute_hmac_output(credential, input) {
                Ok(output) => output,
                Err(e) => {
                    assert(hmac_output(self@, credential@, input@) == hmac_output(
                        pre,
                        credential@,
                        input@,
                    ));
                    return Err(e);
                },
            };
            assert(hmac_output(self@, credential@, input@) == hmac_output(
                pre,
                credential@,
                input@,
            ));
            if !writer::write(hmac_output_value(output), &mut auth_data) {
                return Err(Ctap2StatusCode::CTAP2_ERR_VENDOR_RESPONSE_CANNOT_WRITE_CBOR);
            }
        }
        assert(auth_data@ =~= start + extension_data(
            pre,
            credential@,
            parse::hmac_input_model(*hmac_input),
        )->Ok_0);
        let signature_data: Vec<u8> = bytes::concat(
            auth_data.as_slice(),
            params.client_data_hash.as_slice(),
        );
        let signature: Vec<u8> = match credential.private_key.sign_rfc6979(
            signature_data.as_slice(),
        ) {
            Some(signature) => signature.to_asn1_der(),
            None => {
                return Err(Ctap2StatusCode::CTAP1_ERR_OTHER);
            },
        };
        let descriptor = PublicKeyCredentialDescriptor {
            key_type: PublicKeyCredentialType::PublicKey,
            key_id: slice_to_vec(credential.credential_id.as_slice()),
            transports: None,
        };
        let user: Option<PublicKeyCredentialUserEntity> = if verified {
            Some(
                PublicKeyCredentialUserEntity {
                    user_id: slice_to_vec(credential.user_handle.as_slice()),
                    user_name: None,
                    user_display_name: match &credential.other_ui {
                        Some(name) => Some(name.clone()),
                        None => None,
                    },
                    user_icon: None,
                },
            )
        } else {
            None
        };
        Ok(
            ResponseData::AuthenticatorGetAssertion(
                AuthenticatorGetAssertionResponse {
                    credential: Some(descriptor),
                    auth_data,
                    signature,
                    user,
                    number_of_credentials: None,
                },
            ),
        )
    }

    /// Answers a request to use a credential.
    pub fn process_get_assertion(
        &mut self,
        params: AuthenticatorGetAssertionParameters,
        cid: ChannelID,
    ) -> (result: Result<ResponseData, Ctap2StatusCode>)
        requires
            old(self)@.valid(),
            call_requires(old(self).check_user_presence, (cid,)),
        ensures
            final(self)@.valid(),
            final(self).check_user_presence == old(self).check_user_presence,
            *final(self).rng == *old(self).rng,
            did_get_assertion(
                old(self)@,
                old(self).check_user_presence,
                cid,
                params@,
                result,
                final(self)@,
            ),
    {
        self.check_assertion(&params)?;
        let rp_id_hash: [u8; 32] = sha256::hash(params.rp_id.as_str().as_bytes());
        let credential: PublicKeyCredentialSource = match self.choose_credential(
            &params,
            &rp_id_hash,
        ) {
            Some(credential) => credential,
            None => {
                return Err(Ctap2StatusCode::CTAP2_ERR_NO_CREDENTIALS);
            },
        };
        if params.options.up {
            let presence: Result<(), Ctap2StatusCode> = (self.check_user_presence)(cid);
            match presence {
                Ok(_) => {},
                Err(e) => {
                    return Err(e);
                },
            }
        }
        self.get_assertion_with(&params, &credential)
    }
}

} // verus!
