use opensk::crypto::ecdh;
use opensk::crypto::ecdsa;
use opensk::crypto::p256::Scalar;
use opensk::crypto::rng256::Rng256;
use opensk::crypto::sha256;
use opensk::ctap::command::{
    AuthenticatorGetAssertionParameters, AuthenticatorMakeCredentialParameters,
};
use opensk::ctap::data_formats::{
    CoseKey, CredentialProtectionPolicy, GetAssertionExtensions, GetAssertionHmacSecretInput,
    GetAssertionOptions, MakeCredentialExtensions, MakeCredentialOptions,
    PublicKeyCredentialDescriptor, PublicKeyCredentialRpEntity, PublicKeyCredentialSource,
    PublicKeyCredentialType, PublicKeyCredentialUserEntity, SignatureAlgorithm,
};
use opensk::ctap::hid::ChannelID;
use opensk::ctap::key_material::AAGUID;
use opensk::ctap::pin::encrypt_hmac_secret_output;
use opensk::ctap::response::{
    AuthenticatorGetAssertionResponse, AuthenticatorMakeCredentialResponse, ResponseData,
};
use opensk::ctap::state::{es256_cred_param, CtapState, ENCRYPTED_CREDENTIAL_ID_SIZE};
use opensk::ctap::status_code::Ctap2StatusCode;

// The number of draws, hashed.
struct ThreadRng256 {
    draws: u64,
}

impl Rng256 for ThreadRng256 {
    fn gen_uniform_u8x32(&mut self) -> [u8; 32] {
        self.draws += 1;
        sha256::hash(&self.draws.to_be_bytes())
    }

    fn gen_uniform_scalar(&mut self) -> Scalar {
        loop {
            let bytes = self.gen_uniform_u8x32();
            if let Some(scalar) = Scalar::from_bytes(&bytes) {
                return scalar;
            }
        }
    }
}

// In tests where the user-presence check returns at once, the channel ID does
// not matter.
const DUMMY_CHANNEL_ID: ChannelID = [0x12, 0x34, 0x56, 0x78];

#[test]
fn test_get_info() {
    let mut rng = ThreadRng256 { draws: 0 };
    let user_immediately_present = |_| Ok(());
    let mut ctap_state = CtapState::new(&mut rng, user_immediately_present);
    let info_reponse = ctap_state.process_command(&[0x04], DUMMY_CHANNEL_ID);

    let mut expected_response = vec![0x00, 0xA8, 0x01];
    expected_response.extend(&[
        0x82, 0x66, 0x55, 0x32, 0x46, 0x5F, 0x56, 0x32, 0x68, 0x46, 0x49, 0x44, 0x4F, 0x5F, 0x32,
        0x5F, 0x30,
    ]);
    expected_response.extend(&[
        0x02, 0x81, 0x6B, 0x68, 0x6D, 0x61, 0x63, 0x2D, 0x73, 0x65, 0x63, 0x72, 0x65, 0x74, 0x03,
        0x50,
    ]);
    expected_response.extend(&AAGUID);
    expected_response.extend(&[
        0x04, 0xA3, 0x62, 0x72, 0x6B, 0xF5, 0x62, 0x75, 0x70, 0xF5, 0x69, 0x63, 0x6C, 0x69, 0x65,
        0x6E, 0x74, 0x50, 0x69, 0x6E, 0xF4, 0x05, 0x19, 0x04, 0x00, 0x06, 0x81, 0x01,
    ]);
    expected_response.extend(&[
        0x09, 0x81, 0x63, 0x75, 0x73, 0x62, 0x0A, 0x81, 0xA2, 0x63, 0x61, 0x6C, 0x67, 0x26, 0x64,
        0x74, 0x79, 0x70, 0x65, 0x6A, 0x70, 0x75, 0x62, 0x6C, 0x69, 0x63, 0x2D, 0x6B, 0x65, 0x79,
    ]);

    assert_eq!(info_reponse, expected_response);
}

fn create_minimal_make_credential_parameters() -> AuthenticatorMakeCredentialParameters {
    let client_data_hash = vec![0xCD];
    let rp = PublicKeyCredentialRpEntity {
        rp_id: String::from("example.com"),
        rp_name: None,
        rp_icon: None,
    };
    let user = PublicKeyCredentialUserEntity {
        user_id: vec![0xFA, 0xB1, 0xA2],
        user_name: None,
        user_display_name: None,
        user_icon: None,
    };
    let pub_key_cred_params = vec![es256_cred_param()];
    let options = MakeCredentialOptions { rk: true, uv: false };
    AuthenticatorMakeCredentialParameters {
        client_data_hash,
        rp,
        user,
        pub_key_cred_params,
        exclude_list: None,
        extensions: None,
        options,
        pin_uv_auth_param: None,
        pin_uv_auth_protocol: None,
    }
}

fn create_make_credential_parameters_with_exclude_list(
    excluded_credential_id: &[u8],
) -> AuthenticatorMakeCredentialParameters {
    let excluded_credential_descriptor = PublicKeyCredentialDescriptor {
        key_type: PublicKeyCredentialType::PublicKey,
        key_id: excluded_credential_id.to_vec(),
        transports: None,
    };
    let exclude_list = Some(vec![excluded_credential_descriptor]);
    let mut make_credential_params = create_minimal_make_credential_parameters();
    make_credential_params.exclude_list = exclude_list;
    make_credential_params
}

fn create_make_credential_parameters_with_cred_protect_policy(
    policy: CredentialProtectionPolicy,
) -> AuthenticatorMakeCredentialParameters {
    let extensions = Some(MakeCredentialExtensions {
        hmac_secret: false,
        cred_protect: Some(policy),
    });
    let mut make_credential_params = create_minimal_make_credential_parameters();
    make_credential_params.extensions = extensions;
    make_credential_params
}

#[test]
fn test_residential_process_make_credential() {
    let mut rng = ThreadRng256 { draws: 0 };
    let user_immediately_present = |_| Ok(());
    let mut ctap_state = CtapState::new(&mut rng, user_immediately_present);

    let make_credential_params = create_minimal_make_credential_parameters();
    let make_credential_response =
        ctap_state.process_make_credential(make_credential_params, DUMMY_CHANNEL_ID);

    match make_credential_response.unwrap() {
        ResponseData::AuthenticatorMakeCredential(make_credential_response) => {
            let AuthenticatorMakeCredentialResponse {
                fmt,
                auth_data,
                att_stmt,
            } = make_credential_response;
            // The expected response is split to only assert the non-random parts.
            assert_eq!(fmt, "packed");
            let mut expected_auth_data = vec![
                0xA3, 0x79, 0xA6, 0xF6, 0xEE, 0xAF, 0xB9, 0xA5, 0x5E, 0x37, 0x8C, 0x11, 0x80, 0x34,
                0xE2, 0x75, 0x1E, 0x68, 0x2F, 0xAB, 0x9F, 0x2D, 0x30, 0xAB, 0x13, 0xD2, 0x12, 0x55,
                0x86, 0xCE, 0x19, 0x47, 0x41, 0x00, 0x00, 0x00, 0x00,
            ];
            expected_auth_data.extend(&AAGUID);
            expected_auth_data.extend(&[0x00, 0x20]);
            assert_eq!(
                auth_data[0..expected_auth_data.len()],
                expected_auth_data[..]
            );
            assert_eq!(att_stmt.alg, SignatureAlgorithm::ES256.to_i64());
        }
        _ => panic!("Invalid response type"),
    }
}

#[test]
fn test_non_residential_process_make_credential() {
    let mut rng = ThreadRng256 { draws: 0 };
    let user_immediately_present = |_| Ok(());
    let mut ctap_state = CtapState::new(&mut rng, user_immediately_present);

    let mut make_credential_params = create_minimal_make_credential_parameters();
    make_credential_params.options.rk = false;
    let make_credential_response =
        ctap_state.process_make_credential(make_credential_params, DUMMY_CHANNEL_ID);

    match make_credential_response.unwrap() {
        ResponseData::AuthenticatorMakeCredential(make_credential_response) => {
            let AuthenticatorMakeCredentialResponse {
                fmt,
                auth_data,
                att_stmt,
            } = make_credential_response;
            // The expected response is split to only assert the non-random parts.
            assert_eq!(fmt, "packed");
            let mut expected_auth_data = vec![
                0xA3, 0x79, 0xA6, 0xF6, 0xEE, 0xAF, 0xB9, 0xA5, 0x5E, 0x37, 0x8C, 0x11, 0x80, 0x34,
                0xE2, 0x75, 0x1E, 0x68, 0x2F, 0xAB, 0x9F, 0x2D, 0x30, 0xAB, 0x13, 0xD2, 0x12, 0x55,
                0x86, 0xCE, 0x19, 0x47, 0x41, 0x00, 0x00, 0x00, 0x00,
            ];
            expected_auth_data.extend(&AAGUID);
            expected_auth_data.extend(&[0x00, ENCRYPTED_CREDENTIAL_ID_SIZE as u8]);
            assert_eq!(
                auth_data[0..expected_auth_data.len()],
                expected_auth_data[..]
            );
            assert_eq!(att_stmt.alg, SignatureAlgorithm::ES256.to_i64());
        }
        _ => panic!("Invalid response type"),
    }
}

#[test]
fn test_process_make_credential_unsupported_algorithm() {
    let mut rng = ThreadRng256 { draws: 0 };
    let user_immediately_present = |_| Ok(());
    let mut ctap_state = CtapState::new(&mut rng, user_immediately_present);

    let mut make_credential_params = create_minimal_make_credential_parameters();
    make_credential_params.pub_key_cred_params = vec![];
    let make_credential_response =
        ctap_state.process_make_credential(make_credential_params, DUMMY_CHANNEL_ID);

    assert_eq!(
        make_credential_response,
        Err(Ctap2StatusCode::CTAP2_ERR_UNSUPPORTED_ALGORITHM)
    );
}

#[test]
fn test_process_make_credential_credential_excluded() {
    let mut rng = ThreadRng256 { draws: 0 };
    let excluded_private_key = ecdsa::SecKey::gensk(&mut rng);
    let user_immediately_present = |_| Ok(());
    let mut ctap_state = CtapState::new(&mut rng, user_immediately_present);

    let excluded_credential_id = vec![0x01, 0x23, 0x45, 0x67];
    let make_credential_params =
        create_make_credential_parameters_with_exclude_list(&excluded_credential_id);
    let excluded_credential_source = PublicKeyCredentialSource {
        key_type: PublicKeyCredentialType::PublicKey,
        credential_id: excluded_credential_id,
        private_key: excluded_private_key,
        rp_id: String::from("example.com"),
        user_handle: vec![],
        other_ui: None,
        cred_random: None,
        cred_protect_policy: None,
    };
    assert!(ctap_state
        .persistent_store
        .store_credential(excluded_credential_source)
        .is_ok());

    let make_credential_response =
        ctap_state.process_make_credential(make_credential_params, DUMMY_CHANNEL_ID);
    assert_eq!(
        make_credential_response,
        Err(Ctap2StatusCode::CTAP2_ERR_CREDENTIAL_EXCLUDED)
    );
}

#[test]
fn test_process_make_credential_credential_with_cred_protect() {
    let mut rng = ThreadRng256 { draws: 0 };
    let user_immediately_present = |_| Ok(());
    let mut ctap_state = CtapState::new(&mut rng, user_immediately_present);

    let test_policy = CredentialProtectionPolicy::UserVerificationOptionalWithCredentialIdList;
    let make_credential_params =
        create_make_credential_parameters_with_cred_protect_policy(test_policy);
    let make_credential_response =
        ctap_state.process_make_credential(make_credential_params, DUMMY_CHANNEL_ID);
    assert!(make_credential_response.is_ok());

    let stored_credential = ctap_state
        .persistent_store
        .filter_credential("example.com", false)
        .pop()
        .unwrap();
    let credential_id = stored_credential.credential_id;
    assert_eq!(stored_credential.cred_protect_policy, Some(test_policy));

    let make_credential_params =
        create_make_credential_parameters_with_exclude_list(&credential_id);
    let make_credential_response =
        ctap_state.process_make_credential(make_credential_params, DUMMY_CHANNEL_ID);
    assert_eq!(
        make_credential_response,
        Err(Ctap2StatusCode::CTAP2_ERR_CREDENTIAL_EXCLUDED)
    );

    let test_policy = CredentialProtectionPolicy::UserVerificationRequired;
    let make_credential_params =
        create_make_credential_parameters_with_cred_protect_policy(test_policy);
    let make_credential_response =
        ctap_state.process_make_credential(make_credential_params, DUMMY_CHANNEL_ID);
    assert!(make_credential_response.is_ok());

    let stored_credential = ctap_state
        .persistent_store
        .filter_credential("example.com", false)
        .pop()
        .unwrap();
    let credential_id = stored_credential.credential_id;
    assert_eq!(stored_credential.cred_protect_policy, Some(test_policy));

    let make_credential_params =
        create_make_credential_parameters_with_exclude_list(&credential_id);
    let make_credential_response =
        ctap_state.process_make_credential(make_credential_params, DUMMY_CHANNEL_ID);
    assert!(make_credential_response.is_ok());
}

#[test]
fn test_process_make_credential_hmac_secret() {
    let mut rng = ThreadRng256 { draws: 0 };
    let user_immediately_present = |_| Ok(());
    let mut ctap_state = CtapState::new(&mut rng, user_immediately_present);

    let extensions = Some(MakeCredentialExtensions {
        hmac_secret: true,
        cred_protect: None,
    });
    let mut make_credential_params = create_minimal_make_credential_parameters();
    make_credential_params.extensions = extensions;
    let make_credential_response =
        ctap_state.process_make_credential(make_credential_params, DUMMY_CHANNEL_ID);

    match make_credential_response.unwrap() {
        ResponseData::AuthenticatorMakeCredential(make_credential_response) => {
            let AuthenticatorMakeCredentialResponse {
                fmt,
                auth_data,
                att_stmt,
            } = make_credential_response;
            // The expected response is split to only assert the non-random parts.
            assert_eq!(fmt, "packed");
            let mut expected_auth_data = vec![
                0xA3, 0x79, 0xA6, 0xF6, 0xEE, 0xAF, 0xB9, 0xA5, 0x5E, 0x37, 0x8C, 0x11, 0x80, 0x34,
                0xE2, 0x75, 0x1E, 0x68, 0x2F, 0xAB, 0x9F, 0x2D, 0x30, 0xAB, 0x13, 0xD2, 0x12, 0x55,
                0x86, 0xCE, 0x19, 0x47, 0xC1, 0x00, 0x00, 0x00, 0x00,
            ];
            expected_auth_data.extend(&AAGUID);
            expected_auth_data.extend(&[0x00, 0x20]);
            assert_eq!(
                auth_data[0..expected_auth_data.len()],
                expected_auth_data[..]
            );
            let expected_extension_cbor = vec![
                0xA1, 0x6B, 0x68, 0x6D, 0x61, 0x63, 0x2D, 0x73, 0x65, 0x63, 0x72, 0x65, 0x74, 0xF5,
            ];
            assert_eq!(
                auth_data[auth_data.len() - expected_extension_cbor.len()..auth_data.len()],
                expected_extension_cbor[..]
            );
            assert_eq!(att_stmt.alg, SignatureAlgorithm::ES256.to_i64());
        }
        _ => panic!("Invalid response type"),
    }
}

#[test]
fn test_process_make_credential_cancelled() {
    let mut rng = ThreadRng256 { draws: 0 };
    let user_presence_always_cancel = |_| Err(Ctap2StatusCode::CTAP2_ERR_KEEPALIVE_CANCEL);
    let mut ctap_state = CtapState::new(&mut rng, user_presence_always_cancel);

    let make_credential_params = create_minimal_make_credential_parameters();
    let make_credential_response =
        ctap_state.process_make_credential(make_credential_params, DUMMY_CHANNEL_ID);

    assert_eq!(
        make_credential_response,
        Err(Ctap2StatusCode::CTAP2_ERR_KEEPALIVE_CANCEL)
    );
}

#[test]
fn test_residential_process_get_assertion() {
    let mut rng = ThreadRng256 { draws: 0 };
    let user_immediately_present = |_| Ok(());
    let mut ctap_state = CtapState::new(&mut rng, user_immediately_present);

    let make_credential_params = create_minimal_make_credential_parameters();
    assert!(ctap_state
        .process_make_credential(make_credential_params, DUMMY_CHANNEL_ID)
        .is_ok());

    let get_assertion_params = AuthenticatorGetAssertionParameters {
        rp_id: String::from("example.com"),
        client_data_hash: vec![0xCD],
        allow_list: None,
        extensions: None,
        options: GetAssertionOptions {
            up: false,
            uv: false,
        },
        pin_uv_auth_param: None,
        pin_uv_auth_protocol: None,
    };
    let get_assertion_response =
        ctap_state.process_get_assertion(get_assertion_params, DUMMY_CHANNEL_ID);

    match get_assertion_response.unwrap() {
        ResponseData::AuthenticatorGetAssertion(get_assertion_response) => {
            let AuthenticatorGetAssertionResponse {
                auth_data,
                user,
                number_of_credentials,
                ..
            } = get_assertion_response;
            let expected_auth_data = vec![
                0xA3, 0x79, 0xA6, 0xF6, 0xEE, 0xAF, 0xB9, 0xA5, 0x5E, 0x37, 0x8C, 0x11, 0x80, 0x34,
                0xE2, 0x75, 0x1E, 0x68, 0x2F, 0xAB, 0x9F, 0x2D, 0x30, 0xAB, 0x13, 0xD2, 0x12, 0x55,
                0x86, 0xCE, 0x19, 0x47, 0x00, 0x00, 0x00, 0x00, 0x01,
            ];
            assert_eq!(auth_data, expected_auth_data);
            assert!(user.is_none());
            assert!(number_of_credentials.is_none());
        }
        _ => panic!("Invalid response type"),
    }
}

#[test]
fn test_residential_process_get_assertion_hmac_secret() {
    let mut rng = ThreadRng256 { draws: 0 };
    let sk = ecdh::SecKey::gensk(&mut rng);
    let user_immediately_present = |_| Ok(());
    let mut ctap_state = CtapState::new(&mut rng, user_immediately_present);

    let make_extensions = Some(MakeCredentialExtensions {
        hmac_secret: true,
        cred_protect: None,
    });
    let mut make_credential_params = create_minimal_make_credential_parameters();
    make_credential_params.extensions = make_extensions;
    assert!(ctap_state
        .process_make_credential(make_credential_params, DUMMY_CHANNEL_ID)
        .is_ok());

    let pk = sk.genpk();
    let hmac_secret_input = GetAssertionHmacSecretInput {
        key_agreement: CoseKey::from(pk),
        salt_enc: vec![0x02; 32],
        salt_auth: vec![0x03; 16],
    };
    let get_extensions = Some(GetAssertionExtensions {
        hmac_secret: Some(hmac_secret_input),
    });

    let get_assertion_params = AuthenticatorGetAssertionParameters {
        rp_id: String::from("example.com"),
        client_data_hash: vec![0xCD],
        allow_list: None,
        extensions: get_extensions,
        options: GetAssertionOptions {
            up: false,
            uv: false,
        },
        pin_uv_auth_param: None,
        pin_uv_auth_protocol: None,
    };
    let get_assertion_response =
        ctap_state.process_get_assertion(get_assertion_params, DUMMY_CHANNEL_ID);

    assert_eq!(
        get_assertion_response,
        Err(Ctap2StatusCode::CTAP2_ERR_UNSUPPORTED_EXTENSION)
    );
}

#[test]
fn test_residential_process_get_assertion_with_cred_protect() {
    let mut rng = ThreadRng256 { draws: 0 };
    let private_key = ecdsa::SecKey::gensk(&mut rng);
    let credential_id = rng.gen_uniform_u8x32().to_vec();
    let user_immediately_present = |_| Ok(());
    let mut ctap_state = CtapState::new(&mut rng, user_immediately_present);

    let cred_desc = PublicKeyCredentialDescriptor {
        key_type: PublicKeyCredentialType::PublicKey,
        key_id: credential_id.clone(),
        transports: None, // You can set USB as a hint here.
    };
    let credential = PublicKeyCredentialSource {
        key_type: PublicKeyCredentialType::PublicKey,
        credential_id: credential_id.clone(),
        private_key: private_key.clone(),
        rp_id: String::from("example.com"),
        user_handle: vec![0x00],
        other_ui: None,
        cred_random: None,
        cred_protect_policy: Some(
            CredentialProtectionPolicy::UserVerificationOptionalWithCredentialIdList,
        ),
    };
    assert!(ctap_state
        .persistent_store
        .store_credential(credential)
        .is_ok());

    let get_assertion_params = AuthenticatorGetAssertionParameters {
        rp_id: String::from("example.com"),
        client_data_hash: vec![0xCD],
        allow_list: None,
        extensions: None,
        options: GetAssertionOptions {
            up: false,
            uv: false,
        },
        pin_uv_auth_param: None,
        pin_uv_auth_protocol: None,
    };
    let get_assertion_response =
        ctap_state.process_get_assertion(get_assertion_params, DUMMY_CHANNEL_ID);
    assert_eq!(
        get_assertion_response,
        Err(Ctap2StatusCode::CTAP2_ERR_NO_CREDENTIALS),
    );

    let get_assertion_params = AuthenticatorGetAssertionParameters {
        rp_id: String::from("example.com"),
        client_data_hash: vec![0xCD],
        allow_list: Some(vec![cred_desc.clone()]),
        extensions: None,
        options: GetAssertionOptions {
            up: false,
            uv: false,
        },
        pin_uv_auth_param: None,
        pin_uv_auth_protocol: None,
    };
    let get_assertion_response =
        ctap_state.process_get_assertion(get_assertion_params, DUMMY_CHANNEL_ID);
    assert!(get_assertion_response.is_ok());

    let credential = PublicKeyCredentialSource {
        key_type: PublicKeyCredentialType::PublicKey,
        credential_id,
        private_key,
        rp_id: String::from("example.com"),
        user_handle: vec![0x00],
        other_ui: None,
        cred_random: None,
        cred_protect_policy: Some(CredentialProtectionPolicy::UserVerificationRequired),
    };
    assert!(ctap_state
        .persistent_store
        .store_credential(credential)
        .is_ok());

    let get_assertion_params = AuthenticatorGetAssertionParameters {
        rp_id: String::from("example.com"),
        client_data_hash: vec![0xCD],
        allow_list: Some(vec![cred_desc]),
        extensions: None,
        options: GetAssertionOptions {
            up: false,
            uv: false,
        },
        pin_uv_auth_param: None,
        pin_uv_auth_protocol: None,
    };
    let get_assertion_response =
        ctap_state.process_get_assertion(get_assertion_params, DUMMY_CHANNEL_ID);
    assert_eq!(
        get_assertion_response,
        Err(Ctap2StatusCode::CTAP2_ERR_NO_CREDENTIALS),
    );
}

#[test]
fn test_process_reset() {
    let mut rng = ThreadRng256 { draws: 0 };
    let user_immediately_present = |_| Ok(());
    let private_key = ecdsa::SecKey::gensk(&mut rng);
    let mut ctap_state = CtapState::new(&mut rng, user_immediately_present);

    let credential_id = vec![0x01, 0x23, 0x45, 0x67];
    let credential_source = PublicKeyCredentialSource {
        key_type: PublicKeyCredentialType::PublicKey,
        credential_id,
        private_key,
        rp_id: String::from("example.com"),
        user_handle: vec![],
        other_ui: None,
        cred_random: None,
        cred_protect_policy: None,
    };
    assert!(ctap_state
        .persistent_store
        .store_credential(credential_source)
        .is_ok());
    assert!(ctap_state.persistent_store.count_credentials() > 0);

    let reset_reponse = ctap_state.process_command(&[0x07], DUMMY_CHANNEL_ID);
    let expected_response = vec![0x00];
    assert_eq!(reset_reponse, expected_response);
    assert!(ctap_state.persistent_store.count_credentials() == 0);
}

#[test]
fn test_process_reset_cancelled() {
    let mut rng = ThreadRng256 { draws: 0 };
    let user_presence_always_cancel = |_| Err(Ctap2StatusCode::CTAP2_ERR_KEEPALIVE_CANCEL);
    let mut ctap_state = CtapState::new(&mut rng, user_presence_always_cancel);

    let reset_reponse = ctap_state.process_reset(DUMMY_CHANNEL_ID);

    assert_eq!(
        reset_reponse,
        Err(Ctap2StatusCode::CTAP2_ERR_KEEPALIVE_CANCEL)
    );
}

#[test]
fn test_encrypt_decrypt_credential() {
    let mut rng = ThreadRng256 { draws: 0 };
    let user_immediately_present = |_| Ok(());
    let private_key = ecdsa::SecKey::gensk(&mut rng);
    let mut ctap_state = CtapState::new(&mut rng, user_immediately_present);

    // Usually, the relying party ID or its hash is provided by the client.
    // We are not testing the correctness of our SHA256 here, only if it is checked.
    let rp_id_hash = [0x55; 32];
    let encrypted_id = ctap_state.encrypt_key_handle(private_key.clone(), &rp_id_hash);
    let decrypted_source = ctap_state
        .decrypt_credential_source(encrypted_id, &rp_id_hash)
        .unwrap();

    assert_eq!(private_key, decrypted_source.private_key);
}

#[test]
fn test_encrypt_decrypt_bad_hmac() {
    let mut rng = ThreadRng256 { draws: 0 };
    let user_immediately_present = |_| Ok(());
    let private_key = ecdsa::SecKey::gensk(&mut rng);
    let mut ctap_state = CtapState::new(&mut rng, user_immediately_present);

    // Same as above.
    let rp_id_hash = [0x55; 32];
    let encrypted_id = ctap_state.encrypt_key_handle(private_key, &rp_id_hash);
    for i in 0..encrypted_id.len() {
        let mut modified_id = encrypted_id.clone();
        modified_id[i] ^= 0x01;
        assert!(ctap_state
            .decrypt_credential_source(modified_id, &rp_id_hash)
            .is_none());
    }
}

#[test]
fn test_encrypt_hmac_secret_output() {
    let shared_secret = [0x55; 32];
    let salt_enc = [0x5E; 32];
    let cred_random = [0xC9; 32];
    let output = encrypt_hmac_secret_output(&shared_secret, &salt_enc, &cred_random);
    assert_eq!(output.unwrap().len(), 32);

    let salt_enc = [0x5E; 48];
    let output = encrypt_hmac_secret_output(&shared_secret, &salt_enc, &cred_random);
    assert_eq!(
        output,
        Err(Ctap2StatusCode::CTAP2_ERR_UNSUPPORTED_EXTENSION)
    );

    let salt_enc = [0x5E; 64];
    let output = encrypt_hmac_secret_output(&shared_secret, &salt_enc, &cred_random);
    assert_eq!(output.unwrap().len(), 64);

    let salt_enc = [0x5E; 32];
    let cred_random = [0xC9; 33];
    let output = encrypt_hmac_secret_output(&shared_secret, &salt_enc, &cred_random);
    assert_eq!(
        output,
        Err(Ctap2StatusCode::CTAP2_ERR_UNSUPPORTED_EXTENSION)
    );
}
