use opensk::cbor::model::Value;
use opensk::cbor::reader::read;
use opensk::crypto::cbc::{cbc_decrypt, cbc_encrypt};
use opensk::crypto::ecdh;
use opensk::crypto::ecdsa;
use opensk::crypto::hmac::hmac_256;
use opensk::crypto::p256::Scalar;
use opensk::crypto::rng256::Rng256;
use opensk::crypto::sha256;
use opensk::ctap::command::{
    AuthenticatorGetAssertionParameters, AuthenticatorMakeCredentialParameters,
};
use opensk::ctap::data_formats::{
    CoseKey, CredentialProtectionPolicy, GetAssertionExtensions, GetAssertionHmacSecretInput,
    GetAssertionOptions, MakeCredentialExtensions, MakeCredentialOptions,
    PublicKeyCredentialDescriptor, PublicKeyCredentialParameter, PublicKeyCredentialRpEntity,
    PublicKeyCredentialSource, PublicKeyCredentialType, PublicKeyCredentialUserEntity,
    SignatureAlgorithm,
};
use opensk::ctap::hid::ChannelID;
use opensk::ctap::make_credential::{attest, attested_credential_data, choose_policy, BatchKey};
use opensk::ctap::pin::encrypt_hmac_secret_output;
use opensk::ctap::response::{
    AuthenticatorGetAssertionResponse, AuthenticatorMakeCredentialResponse, ResponseData,
};
use opensk::ctap::state::{es256_cred_param, CtapState};
use opensk::ctap::status_code::Ctap2StatusCode;
use opensk::ctap::storage::{PersistentStore, MAX_SUPPORTED_RESIDENTIAL_KEYS};
use p256::ecdsa::signature::hazmat::PrehashVerifier;

struct CountingRng {
    draws: u64,
}

impl Rng256 for CountingRng {
    fn gen_uniform_u8x32(&mut self) -> [u8; 32] {
        self.draws += 1;
        sha256::hash(&self.draws.to_le_bytes())
    }

    fn gen_uniform_scalar(&mut self) -> Scalar {
        loop {
            let bytes = self.gen_uniform_u8x32();
            if let Some(scalar) = Scalar::from_bytes(&bytes) {
                return scalar;
            }
        }
    }
}

const CID: ChannelID = [0x12, 0x34, 0x56, 0x78];

fn present(_: ChannelID) -> Result<(), Ctap2StatusCode> {
    Ok(())
}

fn absent(_: ChannelID) -> Result<(), Ctap2StatusCode> {
    Err(Ctap2StatusCode::CTAP2_ERR_USER_ACTION_TIMEOUT)
}

type State<'a> = CtapState<'a, CountingRng, fn(ChannelID) -> Result<(), Ctap2StatusCode>>;

fn start(rng: &mut CountingRng) -> State<'_> {
    CtapState::new(rng, present)
}

fn make_params(rk: bool) -> AuthenticatorMakeCredentialParameters {
    AuthenticatorMakeCredentialParameters {
        client_data_hash: vec![0xCD; 32],
        rp: PublicKeyCredentialRpEntity {
            rp_id: String::from("example.com"),
            rp_name: None,
            rp_icon: None,
        },
        user: PublicKeyCredentialUserEntity {
            user_id: vec![0x1D],
            user_name: None,
            user_display_name: None,
            user_icon: None,
        },
        pub_key_cred_params: vec![es256_cred_param()],
        exclude_list: None,
        extensions: None,
        options: MakeCredentialOptions { rk, uv: false },
        pin_uv_auth_param: None,
        pin_uv_auth_protocol: None,
    }
}

fn get_params() -> AuthenticatorGetAssertionParameters {
    AuthenticatorGetAssertionParameters {
        rp_id: String::from("example.com"),
        client_data_hash: vec![0xCE; 32],
        allow_list: None,
        extensions: None,
        options: GetAssertionOptions {
            up: true,
            uv: false,
        },
        pin_uv_auth_param: None,
        pin_uv_auth_protocol: None,
    }
}

fn descriptor(id: &[u8]) -> PublicKeyCredentialDescriptor {
    PublicKeyCredentialDescriptor {
        key_type: PublicKeyCredentialType::PublicKey,
        key_id: id.to_vec(),
        transports: None,
    }
}

fn source(rng: &mut CountingRng, rp_id: &str, user: u8) -> PublicKeyCredentialSource {
    PublicKeyCredentialSource {
        key_type: PublicKeyCredentialType::PublicKey,
        credential_id: rng.gen_uniform_u8x32().to_vec(),
        private_key: ecdsa::SecKey::gensk(rng),
        rp_id: String::from(rp_id),
        user_handle: vec![user],
        other_ui: None,
        cred_random: None,
        cred_protect_policy: None,
    }
}

fn made(result: Result<ResponseData, Ctap2StatusCode>) -> AuthenticatorMakeCredentialResponse {
    match result {
        Ok(ResponseData::AuthenticatorMakeCredential(response)) => response,
        _ => panic!("no credential"),
    }
}

fn asserted(result: Result<ResponseData, Ctap2StatusCode>) -> AuthenticatorGetAssertionResponse {
    match result {
        Ok(ResponseData::AuthenticatorGetAssertion(response)) => response,
        _ => panic!("no assertion"),
    }
}

// The ID and the public key of the credential that is attested to.
fn attested(auth_data: &[u8]) -> (Vec<u8>, Vec<u8>) {
    let len = auth_data[53] as usize * 256 + auth_data[54] as usize;
    let id = auth_data[55..55 + len].to_vec();
    let cose = &auth_data[55 + len..55 + len + 77];
    let mut point = vec![0x04];
    point.extend(&cose[10..42]);
    point.extend(&cose[45..77]);
    (id, point)
}

fn verifies(point: &[u8], signed: &[u8], der: &[u8]) -> bool {
    let key = p256::ecdsa::VerifyingKey::from_sec1_bytes(point).unwrap();
    let signature = p256::ecdsa::Signature::from_der(der).unwrap();
    key.verify_prehash(&sha256::hash(signed), &signature).is_ok()
}

#[test]
fn stored_credential_is_attested_and_used() {
    let mut rng = CountingRng { draws: 0 };
    let mut state = start(&mut rng);
    let response = made(state.process_make_credential(make_params(true), CID));
    let (id, point) = attested(&response.auth_data);
    let mut signed = response.auth_data.clone();
    signed.extend(&[0xCD; 32]);
    assert!(verifies(&point, &signed, &response.att_stmt.sig));
    assert!(response.att_stmt.x5c.is_none());

    let assertion = asserted(state.process_get_assertion(get_params(), CID));
    assert_eq!(assertion.credential, Some(descriptor(&id)));
    let mut signed = assertion.auth_data.clone();
    signed.extend(&[0xCE; 32]);
    assert!(verifies(&point, &signed, &assertion.signature));
    // User presence, and the first signature.
    assert_eq!(assertion.auth_data[32..], [0x01, 0, 0, 0, 1]);
    assert_eq!(assertion.user, None);
    let second = asserted(state.process_get_assertion(get_params(), CID));
    assert_eq!(second.auth_data[32..], [0x01, 0, 0, 0, 2]);
}

#[test]
fn credential_id_holds_its_credential() {
    let mut rng = CountingRng { draws: 0 };
    let mut state = start(&mut rng);
    let response = made(state.process_make_credential(make_params(false), CID));
    assert_eq!(state.persistent_store.count_credentials(), 0);
    let (id, point) = attested(&response.auth_data);
    assert_eq!(id.len(), 112);

    let mut params = get_params();
    params.allow_list = Some(vec![descriptor(b"unknown"), descriptor(&id)]);
    let assertion = asserted(state.process_get_assertion(params.clone(), CID));
    assert_eq!(assertion.credential, Some(descriptor(&id)));
    let mut signed = assertion.auth_data.clone();
    signed.extend(&[0xCE; 32]);
    assert!(verifies(&point, &signed, &assertion.signature));

    // It is of no use to another relying party.
    params.rp_id = String::from("example.org");
    assert_eq!(
        state.process_get_assertion(params, CID),
        Err(Ctap2StatusCode::CTAP2_ERR_NO_CREDENTIALS)
    );
    // Nor without its name.
    assert_eq!(
        state.process_get_assertion(get_params(), CID),
        Err(Ctap2StatusCode::CTAP2_ERR_NO_CREDENTIALS)
    );
    // Nor after a reset.
    assert_eq!(
        state.process_reset(CID),
        Ok(ResponseData::AuthenticatorReset)
    );
    assert!(state
        .decrypt_credential_source(id, &sha256::hash(b"example.com"))
        .is_none());
}

#[test]
fn stored_credential_goes_before_a_held_one() {
    let mut rng = CountingRng { draws: 0 };
    let mut state = start(&mut rng);
    let held = made(state.process_make_credential(make_params(false), CID));
    let stored = made(state.process_make_credential(make_params(true), CID));
    let (held_id, _) = attested(&held.auth_data);
    let (stored_id, _) = attested(&stored.auth_data);
    let mut params = get_params();
    params.allow_list = Some(vec![descriptor(&held_id), descriptor(&stored_id)]);
    let assertion = asserted(state.process_get_assertion(params, CID));
    assert_eq!(assertion.credential, Some(descriptor(&stored_id)));
}

#[test]
fn credential_ids_of_wrong_length_do_not_open() {
    let mut rng = CountingRng { draws: 0 };
    let key = ecdsa::SecKey::gensk(&mut rng);
    let mut state = start(&mut rng);
    let id = state.encrypt_key_handle(key, &[0x55; 32]);
    assert!(state
        .decrypt_credential_source(id[..111].to_vec(), &[0x55; 32])
        .is_none());
    assert!(state
        .decrypt_credential_source(id.clone(), &[0x56; 32])
        .is_none());
    assert!(state.decrypt_credential_source(id, &[0x55; 31]).is_none());
}

#[test]
fn long_names_are_cropped() {
    let mut rng = CountingRng { draws: 0 };
    let mut state = start(&mut rng);
    let mut params = make_params(true);
    // 32 characters of two bytes fit, and no half of one.
    let mut name = String::from("x");
    for _ in 0..40 {
        name.push('é');
    }
    params.user.user_display_name = Some(name);
    made(state.process_make_credential(params, CID));
    let stored = state.persistent_store.filter_credential("example.com", false);
    let kept = stored[0].other_ui.clone().unwrap();
    assert_eq!(kept.len(), 63);
    assert_eq!(kept.chars().count(), 32);
}

#[test]
fn batch_key_attests_with_its_certificate() {
    let mut rng = CountingRng { draws: 0 };
    let key = ecdsa::SecKey::gensk(&mut rng);
    let batch = ecdsa::SecKey::gensk(&mut rng);
    let statement = attest(
        &key,
        Some(BatchKey {
            key: batch,
            certificate: vec![1, 2, 3],
        }),
        b"data",
    )
    .unwrap();
    assert_eq!(statement.x5c, Some(vec![vec![1, 2, 3]]));
    assert_eq!(statement.alg, -7);
    assert_eq!(
        statement.sig,
        batch.sign_rfc6979(b"data").unwrap().to_asn1_der()
    );
    let own = attest(&key, None, b"data").unwrap();
    assert_eq!(own.x5c, None);
    assert_eq!(own.sig, key.sign_rfc6979(b"data").unwrap().to_asn1_der());
}

#[test]
fn long_credential_ids_are_refused() {
    let mut rng = CountingRng { draws: 0 };
    let key = ecdsa::SecKey::gensk(&mut rng).genpk();
    assert_eq!(
        attested_credential_data(&[0; 256], &key),
        Err(Ctap2StatusCode::CTAP2_ERR_VENDOR_RESPONSE_TOO_LONG)
    );
    let data = attested_credential_data(&[7; 255], &key).unwrap();
    assert_eq!(data[16..19], [0x00, 0xff, 7]);
    assert_eq!(data.len(), 16 + 2 + 255 + 77);
}

#[test]
fn stricter_policy_is_chosen() {
    let loose = CredentialProtectionPolicy::UserVerificationOptional;
    let listed = CredentialProtectionPolicy::UserVerificationOptionalWithCredentialIdList;
    let strict = CredentialProtectionPolicy::UserVerificationRequired;
    assert_eq!(choose_policy(None, None), None);
    assert_eq!(choose_policy(Some(loose), None), Some(loose));
    assert_eq!(choose_policy(None, Some(listed)), Some(listed));
    assert_eq!(choose_policy(Some(loose), Some(strict)), Some(strict));
    assert_eq!(choose_policy(Some(strict), Some(listed)), Some(strict));
    assert_eq!(choose_policy(None, Some(loose)), None);
}

#[test]
fn extensions_are_reported_in_order() {
    let mut rng = CountingRng { draws: 0 };
    let mut state = start(&mut rng);
    let mut params = make_params(true);
    params.extensions = Some(MakeCredentialExtensions {
        hmac_secret: true,
        cred_protect: Some(CredentialProtectionPolicy::UserVerificationRequired),
    });
    let response = made(state.process_make_credential(params, CID));
    assert_eq!(response.auth_data[32], 0xC1);
    let mut expected = vec![0xA2, 0x6B];
    expected.extend(b"credProtect");
    expected.extend(&[0x03, 0x6B]);
    expected.extend(b"hmac-secret");
    expected.push(0xF5);
    assert!(response.auth_data.ends_with(&expected));
}

#[test]
fn hmac_extension_needs_a_stored_credential() {
    let mut rng = CountingRng { draws: 0 };
    let mut state = start(&mut rng);
    let mut params = make_params(false);
    params.extensions = Some(MakeCredentialExtensions {
        hmac_secret: true,
        cred_protect: None,
    });
    assert_eq!(
        state.process_make_credential(params, CID),
        Err(Ctap2StatusCode::CTAP2_ERR_UNSUPPORTED_EXTENSION)
    );
}

#[test]
fn hmac_output_is_the_hmac_of_the_whole_salt() {
    let secret = [0x55; 32];
    let random = [0xC9; 32];
    let salts: Vec<u8> = (0..64).collect();
    let one = cbc_encrypt(&secret, &[0; 16], &salts[..32]);
    let output = encrypt_hmac_secret_output(&secret, &one, &random).unwrap();
    assert_eq!(
        cbc_decrypt(&secret, &[0; 16], &output),
        hmac_256(&random, &salts[..32]).to_vec()
    );
    let two = cbc_encrypt(&secret, &[0; 16], &salts);
    let output = encrypt_hmac_secret_output(&secret, &two, &random).unwrap();
    let mut expected = hmac_256(&random, &salts[..32]).to_vec();
    expected.extend(&hmac_256(&random, &salts[32..]));
    assert_eq!(cbc_decrypt(&secret, &[0; 16], &output), expected);
}

fn hmac_input(state: &State, salt: &[u8]) -> ([u8; 32], GetAssertionHmacSecretInput) {
    let mut rng = CountingRng { draws: 5000 };
    let sk = ecdh::SecKey::gensk(&mut rng);
    let device = state
        .process_get_key_agreement()
        .unwrap()
        .key_agreement
        .unwrap()
        .try_into()
        .unwrap();
    let secret = sk.exchange_x_sha256(&device);
    let salt_enc = cbc_encrypt(&secret, &[0; 16], salt);
    let salt_auth = hmac_256(&secret, &salt_enc)[..16].to_vec();
    (
        secret,
        GetAssertionHmacSecretInput {
            key_agreement: CoseKey::from(sk.genpk()),
            salt_enc,
            salt_auth,
        },
    )
}

#[test]
fn hmac_extension_answers_with_the_hmac() {
    let mut rng = CountingRng { draws: 0 };
    let mut state = start(&mut rng);
    let mut make = make_params(true);
    make.extensions = Some(MakeCredentialExtensions {
        hmac_secret: true,
        cred_protect: None,
    });
    made(state.process_make_credential(make, CID));
    let random = state.persistent_store.filter_credential("example.com", true)[0]
        .cred_random
        .clone()
        .unwrap();

    let (secret, input) = hmac_input(&state, &[0x11; 32]);
    let mut params = get_params();
    params.extensions = Some(GetAssertionExtensions {
        hmac_secret: Some(input.clone()),
    });
    let assertion = asserted(state.process_get_assertion(params.clone(), CID));
    assert_eq!(assertion.auth_data[32], 0x81);
    let extension = read(&assertion.auth_data[37..]).unwrap();
    let output = match extension {
        Value::Table(mut pairs) => match pairs.pop() {
            Some((Value::TextString(name), Value::ByteString(output))) => {
                assert_eq!(name, "hmac-secret");
                output
            }
            _ => panic!("no output"),
        },
        _ => panic!("no map"),
    };
    assert_eq!(
        cbc_decrypt(&secret, &[0; 16], &output),
        hmac_256(&random, &[0x11; 32]).to_vec()
    );

    // Without presence it is refused.
    let mut silent = params.clone();
    silent.options.up = false;
    assert_eq!(
        state.process_get_assertion(silent, CID),
        Err(Ctap2StatusCode::CTAP2_ERR_UNSUPPORTED_EXTENSION)
    );
    // So it is with salts that are not authentic, a key that is no point, and
    // salts of the wrong length. The use is counted all the same.
    let counter = state.persistent_store.global_signature_counter();
    let mut forged = input.clone();
    forged.salt_auth[0] ^= 1;
    params.extensions = Some(GetAssertionExtensions {
        hmac_secret: Some(forged),
    });
    assert_eq!(
        state.process_get_assertion(params.clone(), CID),
        Err(Ctap2StatusCode::CTAP2_ERR_UNSUPPORTED_EXTENSION)
    );
    let mut no_point = input;
    no_point.key_agreement.y[31] ^= 1;
    params.extensions = Some(GetAssertionExtensions {
        hmac_secret: Some(no_point),
    });
    assert_eq!(
        state.process_get_assertion(params.clone(), CID),
        Err(Ctap2StatusCode::CTAP1_ERR_INVALID_PARAMETER)
    );
    let (_, short) = hmac_input(&state, &[0x11; 48]);
    params.extensions = Some(GetAssertionExtensions {
        hmac_secret: Some(short),
    });
    assert_eq!(
        state.process_get_assertion(params, CID),
        Err(Ctap2StatusCode::CTAP2_ERR_UNSUPPORTED_EXTENSION)
    );
    assert_eq!(
        state.persistent_store.global_signature_counter(),
        counter + 3
    );
}

#[test]
fn hmac_extension_needs_a_credential_made_with_it() {
    let mut rng = CountingRng { draws: 0 };
    let mut state = start(&mut rng);
    made(state.process_make_credential(make_params(true), CID));
    let (_, input) = hmac_input(&state, &[0x11; 32]);
    let mut params = get_params();
    params.extensions = Some(GetAssertionExtensions {
        hmac_secret: Some(input),
    });
    assert_eq!(
        state.process_get_assertion(params, CID),
        Err(Ctap2StatusCode::CTAP2_ERR_UNSUPPORTED_EXTENSION)
    );
}

#[test]
fn pin_protects_making() {
    let mut rng = CountingRng { draws: 0 };
    let mut state = start(&mut rng);
    let token = state.pin_uv_auth_token;
    let right = hmac_256(&token, &[0xCD; 32])[..16].to_vec();

    let with = |param: Option<Vec<u8>>, protocol: Option<u64>| {
        let mut params = make_params(true);
        params.pin_uv_auth_param = param;
        params.pin_uv_auth_protocol = protocol;
        params
    };
    let mut error = |state: &mut State, params| match state.process_make_credential(params, CID) {
        Err(e) => e,
        Ok(_) => panic!("a credential"),
    };

    // Without a PIN.
    assert_eq!(
        error(&mut state, with(Some(vec![]), None)),
        Ctap2StatusCode::CTAP2_ERR_PIN_NOT_SET
    );
    assert_eq!(
        error(&mut state, with(Some(right.clone()), Some(1))),
        Ctap2StatusCode::CTAP2_ERR_PIN_NOT_SET
    );
    let mut uv = make_params(true);
    uv.options.uv = true;
    assert_eq!(
        error(&mut state, uv),
        Ctap2StatusCode::CTAP2_ERR_INVALID_OPTION
    );

    // With one.
    state.persistent_store.set_pin_hash(&[0x77; 16]);
    assert_eq!(
        error(&mut state, with(Some(vec![]), None)),
        Ctap2StatusCode::CTAP2_ERR_PIN_INVALID
    );
    assert_eq!(
        error(&mut state, with(None, None)),
        Ctap2StatusCode::CTAP2_ERR_PIN_REQUIRED
    );
    assert_eq!(
        error(&mut state, with(Some(right.clone()), None)),
        Ctap2StatusCode::CTAP2_ERR_MISSING_PARAMETER
    );
    assert_eq!(
        error(&mut state, with(Some(right.clone()), Some(2))),
        Ctap2StatusCode::CTAP2_ERR_PIN_AUTH_INVALID
    );
    assert_eq!(
        error(&mut state, with(Some(vec![0; 16]), Some(1))),
        Ctap2StatusCode::CTAP2_ERR_PIN_AUTH_INVALID
    );
    assert_eq!(state.persistent_store.count_credentials(), 0);
    let response = made(state.process_make_credential(with(Some(right), Some(1)), CID));
    assert_eq!(response.auth_data[32], 0x45);
}

#[test]
fn verified_user_is_told_who_they_are() {
    let mut rng = CountingRng { draws: 0 };
    let mut state = start(&mut rng);
    let mut make = make_params(true);
    make.user.user_display_name = Some(String::from("Jo"));
    made(state.process_make_credential(make, CID));
    let token = state.pin_uv_auth_token;

    let mut params = get_params();
    params.pin_uv_auth_param = Some(hmac_256(&token, &[0xCE; 32])[..16].to_vec());
    params.pin_uv_auth_protocol = Some(1);
    assert_eq!(
        state.process_get_assertion(params.clone(), CID),
        Err(Ctap2StatusCode::CTAP2_ERR_PIN_NOT_SET)
    );
    state.persistent_store.set_pin_hash(&[0x77; 16]);
    let assertion = asserted(state.process_get_assertion(params.clone(), CID));
    assert_eq!(assertion.auth_data[32], 0x05);
    assert_eq!(
        assertion.user,
        Some(PublicKeyCredentialUserEntity {
            user_id: vec![0x1D],
            user_name: None,
            user_display_name: Some(String::from("Jo")),
            user_icon: None,
        })
    );

    params.pin_uv_auth_param = Some(vec![0; 16]);
    assert_eq!(
        state.process_get_assertion(params.clone(), CID),
        Err(Ctap2StatusCode::CTAP2_ERR_PIN_AUTH_INVALID)
    );
    params.pin_uv_auth_protocol = None;
    assert_eq!(
        state.process_get_assertion(params.clone(), CID),
        Err(Ctap2StatusCode::CTAP2_ERR_MISSING_PARAMETER)
    );
    params.pin_uv_auth_param = Some(vec![]);
    assert_eq!(
        state.process_get_assertion(params, CID),
        Err(Ctap2StatusCode::CTAP2_ERR_PIN_INVALID)
    );
    let mut uv = get_params();
    uv.options.uv = true;
    assert_eq!(
        state.process_get_assertion(uv, CID),
        Err(Ctap2StatusCode::CTAP2_ERR_INVALID_OPTION)
    );
}

#[test]
fn absent_user_changes_nothing() {
    let mut rng = CountingRng { draws: 0 };
    let excluded = source(&mut rng, "example.com", 9);
    let id = excluded.credential_id.clone();
    let mut state: State = CtapState::new(&mut rng, absent);
    let timeout = Err(Ctap2StatusCode::CTAP2_ERR_USER_ACTION_TIMEOUT);
    state.persistent_store.store_credential(excluded).unwrap();
    assert_eq!(state.process_make_credential(make_params(true), CID), timeout);
    let mut exclude = make_params(true);
    exclude.exclude_list = Some(vec![descriptor(&id)]);
    assert_eq!(state.process_make_credential(exclude, CID), timeout);
    assert_eq!(state.process_get_assertion(get_params(), CID), timeout);
    assert_eq!(state.process_reset(CID), timeout);
    assert_eq!(state.persistent_store.count_credentials(), 1);
    assert_eq!(state.persistent_store.global_signature_counter(), 0);
    // A use without presence does not ask for it.
    let mut silent = get_params();
    silent.options.up = false;
    assert!(state.process_get_assertion(silent, CID).is_ok());
}

#[test]
fn reset_is_possible_for_ten_seconds() {
    let mut rng = CountingRng { draws: 0 };
    let mut state = start(&mut rng);
    state.check_disable_reset(10000);
    assert!(state.accepts_reset);
    state.check_disable_reset(10001);
    assert!(!state.accepts_reset);
    state.check_disable_reset(0);
    assert_eq!(
        state.process_reset(CID),
        Err(Ctap2StatusCode::CTAP2_ERR_NOT_ALLOWED)
    );
}

#[test]
fn reset_forgets_the_pin() {
    let mut rng = CountingRng { draws: 0 };
    let mut state = start(&mut rng);
    state.persistent_store.set_pin_hash(&[1; 16]);
    state.persistent_store.decr_pin_retries();
    state.increment_global_signature_counter();
    let token = state.pin_uv_auth_token;
    assert!(state.process_reset(CID).is_ok());
    assert!(state.persistent_store.pin_hash().is_none());
    assert_eq!(state.persistent_store.pin_retries(), 8);
    assert_eq!(state.persistent_store.global_signature_counter(), 0);
    assert_ne!(state.pin_uv_auth_token, token);
}

#[test]
fn auth_data_holds_the_counter() {
    let mut rng = CountingRng { draws: 0 };
    let mut state = start(&mut rng);
    for _ in 0..0x0102 {
        state.increment_global_signature_counter();
    }
    let mut expected = vec![0x33; 32];
    expected.extend(&[0x41, 0x00, 0x00, 0x01, 0x02]);
    assert_eq!(state.generate_auth_data(&[0x33; 32], 0x41), expected);
}

#[test]
fn account_has_one_credential() {
    let mut rng = CountingRng { draws: 0 };
    let first = source(&mut rng, "example.com", 1);
    let second = source(&mut rng, "example.com", 2);
    let elsewhere = source(&mut rng, "example.org", 1);
    let replacement = source(&mut rng, "example.com", 1);
    let mut store = PersistentStore::new(&mut rng);
    store.store_credential(first.clone()).unwrap();
    store.store_credential(second.clone()).unwrap();
    store.store_credential(elsewhere.clone()).unwrap();
    assert_eq!(store.count_credentials(), 3);
    store.store_credential(replacement.clone()).unwrap();
    assert_eq!(store.count_credentials(), 3);
    assert_eq!(
        store.filter_credential("example.com", false),
        vec![second, replacement.clone()]
    );
    assert_eq!(
        store.filter_credential("example.org", false),
        vec![elsewhere.clone()]
    );
    assert!(store
        .find_credential("example.com", &first.credential_id, false)
        .is_none());
    assert!(store
        .find_credential("example.com", &elsewhere.credential_id, false)
        .is_none());
    assert_eq!(
        store.find_credential("example.com", &replacement.credential_id, false),
        Some(replacement)
    );
}

#[test]
fn policies_hide_credentials() {
    let mut rng = CountingRng { draws: 0 };
    let mut listed = source(&mut rng, "example.com", 1);
    listed.cred_protect_policy =
        Some(CredentialProtectionPolicy::UserVerificationOptionalWithCredentialIdList);
    let mut required = source(&mut rng, "example.com", 2);
    required.cred_protect_policy = Some(CredentialProtectionPolicy::UserVerificationRequired);
    let mut optional = source(&mut rng, "example.com", 3);
    optional.cred_protect_policy = Some(CredentialProtectionPolicy::UserVerificationOptional);
    let mut store = PersistentStore::with_keys([1; 32], [2; 32]);
    for credential in [&listed, &required, &optional] {
        store.store_credential(credential.clone()).unwrap();
    }
    assert_eq!(store.filter_credential("example.com", false).len(), 3);
    assert_eq!(
        store.filter_credential("example.com", true),
        vec![optional.clone()]
    );
    assert!(store
        .find_credential("example.com", &listed.credential_id, true)
        .is_some());
    assert!(store
        .find_credential("example.com", &required.credential_id, true)
        .is_none());
    assert!(store
        .find_credential("example.com", &required.credential_id, false)
        .is_some());
    assert!(optional.is_discoverable());
    assert!(!listed.is_discoverable());
}

#[test]
fn store_is_full_at_some_point() {
    let mut rng = CountingRng { draws: 0 };
    let mut state = start(&mut rng);
    let mut other = CountingRng { draws: 70000 };
    for i in 0..MAX_SUPPORTED_RESIDENTIAL_KEYS {
        state
            .persistent_store
            .store_credential(source(&mut other, "example.org", i as u8))
            .unwrap();
    }
    assert_eq!(
        state.process_make_credential(make_params(true), CID),
        Err(Ctap2StatusCode::CTAP2_ERR_KEY_STORE_FULL)
    );
    // One can still take the place of another.
    assert!(state
        .persistent_store
        .store_credential(source(&mut other, "example.org", 0))
        .is_ok());
    assert_eq!(
        state.persistent_store.count_credentials(),
        MAX_SUPPORTED_RESIDENTIAL_KEYS
    );
}

#[test]
fn unknown_algorithms_are_passed_over() {
    let mut rng = CountingRng { draws: 0 };
    let mut state = start(&mut rng);
    let unknown = PublicKeyCredentialParameter {
        cred_type: PublicKeyCredentialType::PublicKey,
        alg: SignatureAlgorithm::Unknown,
    };
    let mut params = make_params(true);
    params.pub_key_cred_params = vec![unknown];
    assert_eq!(
        state.process_make_credential(params.clone(), CID),
        Err(Ctap2StatusCode::CTAP2_ERR_UNSUPPORTED_ALGORITHM)
    );
    params.pub_key_cred_params.push(es256_cred_param());
    assert!(state.process_make_credential(params, CID).is_ok());
}

#[test]
fn only_what_is_needed_is_drawn() {
    let mut rng = CountingRng { draws: 0 };
    let mut state = start(&mut rng);
    // The two keys of the authenticator, its token, and its key for agreement.
    assert_eq!(state.rng.draws, 4);
    state.check_disable_reset(5);
    state.increment_global_signature_counter();
    let mut refused = make_params(true);
    refused.pub_key_cred_params = vec![];
    assert!(state.process_make_credential(refused, CID).is_err());
    assert!(state.process_get_assertion(get_params(), CID).is_err());
    assert_eq!(state.rng.draws, 4);
    // A private key and an ID.
    made(state.process_make_credential(make_params(true), CID));
    assert_eq!(state.rng.draws, 6);
    asserted(state.process_get_assertion(get_params(), CID));
    assert_eq!(state.rng.draws, 6);
    // And a secret, which is drawn before anyone is asked.
    let mut hmac = make_params(true);
    hmac.extensions = Some(MakeCredentialExtensions {
        hmac_secret: true,
        cred_protect: None,
    });
    hmac.options.uv = true;
    assert!(state.process_make_credential(hmac.clone(), CID).is_err());
    assert_eq!(state.rng.draws, 7);
    hmac.options.uv = false;
    made(state.process_make_credential(hmac, CID));
    assert_eq!(state.rng.draws, 10);
    assert!(state.process_reset(CID).is_ok());
    assert_eq!(state.rng.draws, 14);
}
