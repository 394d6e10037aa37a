use opensk::cbor::builder;
use opensk::cbor::model::Value;
use opensk::cbor::reader::read;
use opensk::crypto::p256::Scalar;
use opensk::crypto::rng256::Rng256;
use opensk::crypto::sha256;
use opensk::ctap::command::Command;
use opensk::ctap::data_formats::{
    AuthenticatorTransport, ClientPinSubCommand, CoseKey, CredentialProtectionPolicy,
    GetAssertionOptions, MakeCredentialExtensions, MakeCredentialOptions,
    PublicKeyCredentialParameter, PublicKeyCredentialType, SignatureAlgorithm,
};
use opensk::ctap::hid::ChannelID;
use opensk::ctap::process::encode_response;
use opensk::ctap::response::ResponseData;
use opensk::ctap::state::CtapState;
use opensk::ctap::status_code::Ctap2StatusCode;

struct CountingRng {
    draws: u64,
}

impl Rng256 for CountingRng {
    fn gen_uniform_u8x32(&mut self) -> [u8; 32] {
        self.draws += 1;
        sha256::hash(&self.draws.to_le_bytes())
    }

    fn gen_uniform_scalar(&mut self) -> Scalar {
        loop {
            let bytes = self.gen_uniform_u8x32();
            if let Some(scalar) = Scalar::from_bytes(&bytes) {
                return scalar;
            }
        }
    }
}

const CID: ChannelID = [0x12, 0x34, 0x56, 0x78];

fn number(n: u64) -> Value {
    Value::Unsigned(n)
}

fn text(s: &str) -> Value {
    builder::text(s)
}

fn bytes(s: &[u8]) -> Value {
    builder::byte_string(s)
}

fn request(command: u8, parameters: Vec<(Value, Value)>) -> Vec<u8> {
    let mut out = vec![command];
    assert!(opensk::cbor::writer::write(
        Value::Table(parameters),
        &mut out
    ));
    out
}

fn rp() -> Value {
    Value::Table(vec![(text("id"), text("example.com"))])
}

fn user() -> Value {
    Value::Table(vec![
        (text("id"), bytes(&[0x1D])),
        (text("displayName"), text("Jo")),
    ])
}

fn es256() -> Value {
    Value::Table(vec![
        (text("alg"), builder::integer(-7)),
        (text("type"), text("public-key")),
    ])
}

fn make_parameters() -> Vec<(Value, Value)> {
    vec![
        (number(1), bytes(&[0xCD; 32])),
        (number(2), rp()),
        (number(3), user()),
        (number(4), Value::Array(vec![es256()])),
    ]
}

fn error(bytes: &[u8]) -> Ctap2StatusCode {
    match Command::deserialize(bytes) {
        Err(e) => e,
        Ok(_) => panic!("a command"),
    }
}

#[test]
fn commands_are_told_by_their_first_byte() {
    assert_eq!(error(&[]), Ctap2StatusCode::CTAP2_ERR_MISSING_PARAMETER);
    assert_eq!(error(&[0x00]), Ctap2StatusCode::CTAP1_ERR_INVALID_COMMAND);
    assert_eq!(error(&[0x03]), Ctap2StatusCode::CTAP1_ERR_INVALID_COMMAND);
    assert_eq!(error(&[0xff]), Ctap2StatusCode::CTAP1_ERR_INVALID_COMMAND);
    assert_eq!(
        Command::deserialize(&[0x04, 0xff]),
        Ok(Command::AuthenticatorGetInfo)
    );
    assert_eq!(
        Command::deserialize(&[0x07]),
        Ok(Command::AuthenticatorReset)
    );
    assert_eq!(
        Command::deserialize(&[0x08]),
        Ok(Command::AuthenticatorGetNextAssertion)
    );
    assert_eq!(
        Command::deserialize(&[0x0b]),
        Ok(Command::AuthenticatorSelection)
    );
    for command in [0x01, 0x02, 0x06] {
        assert_eq!(error(&[command]), Ctap2StatusCode::CTAP2_ERR_INVALID_CBOR);
        assert_eq!(
            error(&[command, 0x80]),
            Ctap2StatusCode::CTAP2_ERR_CBOR_UNEXPECTED_TYPE
        );
        assert_eq!(
            error(&[command, 0xa0]),
            Ctap2StatusCode::CTAP2_ERR_MISSING_PARAMETER
        );
    }
}

#[test]
fn make_credential_is_read() {
    let params = match Command::deserialize(&request(0x01, make_parameters())) {
        Ok(Command::AuthenticatorMakeCredential(params)) => params,
        _ => panic!("another command"),
    };
    assert_eq!(params.client_data_hash, vec![0xCD; 32]);
    assert_eq!(params.rp.rp_id, "example.com");
    assert_eq!(params.user.user_id, vec![0x1D]);
    assert_eq!(params.user.user_display_name, Some(String::from("Jo")));
    assert_eq!(params.user.user_name, None);
    assert_eq!(
        params.pub_key_cred_params,
        vec![PublicKeyCredentialParameter {
            cred_type: PublicKeyCredentialType::PublicKey,
            alg: SignatureAlgorithm::ES256,
        }]
    );
    assert_eq!(params.exclude_list, None);
    assert_eq!(params.extensions, None);
    assert_eq!(
        params.options,
        MakeCredentialOptions {
            rk: false,
            uv: false
        }
    );
    assert_eq!(params.pin_uv_auth_param, None);
    assert_eq!(params.pin_uv_auth_protocol, None);

    let mut full = make_parameters();
    full.push((
        number(5),
        Value::Array(vec![Value::Table(vec![
            (text("id"), bytes(&[1, 2])),
            (text("type"), text("other")),
            (
                text("transports"),
                Value::Array(vec![text("usb"), text("nfc"), text("ble"), text("internal")]),
            ),
        ])]),
    ));
    full.push((
        number(6),
        Value::Table(vec![
            (text("credProtect"), number(2)),
            (text("hmac-secret"), builder::boolean(true)),
        ]),
    ));
    full.push((
        number(7),
        Value::Table(vec![
            (text("rk"), builder::boolean(true)),
            (text("up"), builder::boolean(true)),
            (text("uv"), builder::boolean(true)),
        ]),
    ));
    full.push((number(8), bytes(&[9; 16])));
    full.push((number(9), number(1)));
    let params = match Command::deserialize(&request(0x01, full)) {
        Ok(Command::AuthenticatorMakeCredential(params)) => params,
        _ => panic!("another command"),
    };
    let list = params.exclude_list.unwrap();
    assert_eq!(list.len(), 1);
    assert_eq!(list[0].key_id, vec![1, 2]);
    assert_eq!(list[0].key_type, PublicKeyCredentialType::Unknown);
    assert_eq!(
        list[0].transports,
        Some(vec![
            AuthenticatorTransport::Usb,
            AuthenticatorTransport::Nfc,
            AuthenticatorTransport::Ble,
            AuthenticatorTransport::Internal,
        ])
    );
    assert_eq!(
        params.extensions,
        Some(MakeCredentialExtensions {
            hmac_secret: true,
            cred_protect: Some(
                CredentialProtectionPolicy::UserVerificationOptionalWithCredentialIdList
            ),
        })
    );
    assert_eq!(params.options, MakeCredentialOptions { rk: true, uv: true });
    assert_eq!(params.pin_uv_auth_param, Some(vec![9; 16]));
    assert_eq!(params.pin_uv_auth_protocol, Some(1));
}

#[test]
fn bad_make_credential_is_refused() {
    let unexpected = Ctap2StatusCode::CTAP2_ERR_CBOR_UNEXPECTED_TYPE;
    for i in 0..4 {
        let mut parameters = make_parameters();
        parameters[i].1 = number(0);
        assert_eq!(error(&request(0x01, parameters)), unexpected);
        let mut parameters = make_parameters();
        parameters.remove(i);
        assert_eq!(
            error(&request(0x01, parameters)),
            Ctap2StatusCode::CTAP2_ERR_MISSING_PARAMETER
        );
    }
    for i in 5..10 {
        let mut parameters = make_parameters();
        parameters.push((number(i), builder::boolean(false)));
        assert_eq!(error(&request(0x01, parameters)), unexpected);
    }
    let mut parameters = make_parameters();
    parameters.push((
        number(6),
        Value::Table(vec![(text("credProtect"), number(4))]),
    ));
    assert_eq!(error(&request(0x01, parameters)), unexpected);
    let mut parameters = make_parameters();
    parameters.push((
        number(7),
        Value::Table(vec![(text("up"), builder::boolean(false))]),
    ));
    assert_eq!(
        error(&request(0x01, parameters)),
        Ctap2StatusCode::CTAP2_ERR_INVALID_OPTION
    );
}

fn cose(key_type: u64, alg: i64, curve: u64, x: usize) -> Value {
    Value::Table(vec![
        (number(1), number(key_type)),
        (number(3), builder::integer(alg)),
        (builder::integer(-1), number(curve)),
        (builder::integer(-2), bytes(&vec![1; x])),
        (builder::integer(-3), bytes(&[2; 32])),
    ])
}

#[test]
fn get_assertion_is_read() {
    let minimal = vec![
        (number(1), text("example.com")),
        (number(2), bytes(&[0xCE; 32])),
    ];
    let params = match Command::deserialize(&request(0x02, minimal)) {
        Ok(Command::AuthenticatorGetAssertion(params)) => params,
        _ => panic!("another command"),
    };
    assert_eq!(params.rp_id, "example.com");
    assert_eq!(params.client_data_hash, vec![0xCE; 32]);
    assert_eq!(params.allow_list, None);
    assert_eq!(params.extensions, None);
    assert_eq!(
        params.options,
        GetAssertionOptions {
            up: true,
            uv: false
        }
    );

    let full = vec![
        (number(1), text("example.com")),
        (number(2), bytes(&[0xCE; 32])),
        (
            number(3),
            Value::Array(vec![Value::Table(vec![
                (text("id"), bytes(&[1])),
                (text("type"), text("public-key")),
            ])]),
        ),
        (
            number(4),
            Value::Table(vec![(
                text("hmac-secret"),
                Value::Table(vec![
                    (number(1), cose(2, -25, 1, 32)),
                    (number(2), bytes(&[3; 32])),
                    (number(3), bytes(&[4; 16])),
                ]),
            )]),
        ),
        (
            number(5),
            Value::Table(vec![
                (text("up"), builder::boolean(false)),
                (text("uv"), builder::boolean(true)),
            ]),
        ),
        (number(6), bytes(&[5; 16])),
        (number(7), number(1)),
    ];
    let params = match Command::deserialize(&request(0x02, full)) {
        Ok(Command::AuthenticatorGetAssertion(params)) => params,
        _ => panic!("another command"),
    };
    assert_eq!(params.allow_list.unwrap()[0].key_id, vec![1]);
    let input = params.extensions.unwrap().hmac_secret.unwrap();
    assert_eq!(
        input.key_agreement,
        CoseKey {
            x: [1; 32],
            y: [2; 32]
        }
    );
    assert_eq!(input.salt_enc, vec![3; 32]);
    assert_eq!(input.salt_auth, vec![4; 16]);
    assert_eq!(
        params.options,
        GetAssertionOptions {
            up: false,
            uv: true
        }
    );
    assert_eq!(params.pin_uv_auth_param, Some(vec![5; 16]));
    assert_eq!(params.pin_uv_auth_protocol, Some(1));

    let rk = vec![
        (number(1), text("example.com")),
        (number(2), bytes(&[0xCE; 32])),
        (
            number(5),
            Value::Table(vec![(text("rk"), builder::boolean(true))]),
        ),
    ];
    assert_eq!(
        error(&request(0x02, rk)),
        Ctap2StatusCode::CTAP2_ERR_INVALID_OPTION
    );
}

fn pin_request(sub_command: u64, more: Vec<(Value, Value)>) -> Vec<u8> {
    let mut parameters = vec![(number(1), number(1)), (number(2), number(sub_command))];
    parameters.extend(more);
    request(0x06, parameters)
}

#[test]
fn client_pin_is_read() {
    let names = [
        ClientPinSubCommand::GetPinRetries,
        ClientPinSubCommand::GetKeyAgreement,
        ClientPinSubCommand::SetPin,
        ClientPinSubCommand::ChangePin,
        ClientPinSubCommand::GetPinToken,
        ClientPinSubCommand::GetPinUvAuthTokenUsingUvWithPermissions,
        ClientPinSubCommand::GetUvRetries,
        ClientPinSubCommand::SetMinPinLength,
        ClientPinSubCommand::GetPinUvAuthTokenUsingPinWithPermissions,
    ];
    for (i, name) in names.iter().enumerate() {
        match Command::deserialize(&pin_request(i as u64 + 1, vec![])) {
            Ok(Command::AuthenticatorClientPin(params)) => {
                assert_eq!(params.sub_command, *name);
                assert_eq!(params.pin_protocol, 1);
                assert_eq!(params.key_agreement, None);
            }
            _ => panic!("another command"),
        }
    }
    assert_eq!(
        error(&pin_request(0, vec![])),
        Ctap2StatusCode::CTAP1_ERR_INVALID_PARAMETER
    );
    assert_eq!(
        error(&pin_request(10, vec![])),
        Ctap2StatusCode::CTAP1_ERR_INVALID_PARAMETER
    );

    let full = vec![
        (number(3), cose(2, -7, 1, 32)),
        (number(4), bytes(&[4])),
        (number(5), bytes(&[5])),
        (number(6), bytes(&[6])),
        (number(7), number(7)),
        (number(8), Value::Array(vec![text("a"), text("b")])),
        (number(9), number(0x1ff)),
        (number(10), text("example.com")),
    ];
    match Command::deserialize(&pin_request(4, full)) {
        Ok(Command::AuthenticatorClientPin(params)) => {
            assert_eq!(params.pin_auth, Some(vec![4]));
            assert_eq!(params.new_pin_enc, Some(vec![5]));
            assert_eq!(params.pin_hash_enc, Some(vec![6]));
            assert_eq!(params.min_pin_length, Some(7));
            assert_eq!(
                params.min_pin_length_rp_ids,
                Some(vec![String::from("a"), String::from("b")])
            );
            assert_eq!(params.permissions, Some(0xff));
            assert_eq!(
                params.permissions_rp_id,
                Some(String::from("example.com"))
            );
        }
        _ => panic!("another command"),
    }
}

#[test]
fn bad_cose_keys_are_refused() {
    let refused = |key: Value| error(&pin_request(2, vec![(number(3), key)]));
    let algorithm = Ctap2StatusCode::CTAP2_ERR_UNSUPPORTED_ALGORITHM;
    assert_eq!(refused(cose(1, -25, 1, 32)), algorithm);
    assert_eq!(refused(cose(2, -26, 1, 32)), algorithm);
    assert_eq!(refused(cose(2, -25, 2, 32)), algorithm);
    assert_eq!(
        refused(cose(2, -25, 1, 31)),
        Ctap2StatusCode::CTAP1_ERR_INVALID_PARAMETER
    );
    assert_eq!(
        refused(Value::Table(vec![])),
        Ctap2StatusCode::CTAP2_ERR_MISSING_PARAMETER
    );
    assert_eq!(
        refused(number(0)),
        Ctap2StatusCode::CTAP2_ERR_CBOR_UNEXPECTED_TYPE
    );
}

#[test]
fn errors_are_answered_by_one_byte() {
    let mut rng = CountingRng { draws: 0 };
    let mut state = CtapState::new(&mut rng, |_| Ok(()));
    assert_eq!(state.process_command(&[], CID), vec![0x14]);
    assert_eq!(state.process_command(&[0xfe], CID), vec![0x01]);
    assert_eq!(state.process_command(&[0x01, 0xff], CID), vec![0x12]);
    assert_eq!(state.process_command(&[0x06, 0x00], CID), vec![0x11]);
    assert_eq!(
        encode_response(Err(
            Ctap2StatusCode::CTAP2_ERR_VENDOR_RESPONSE_CANNOT_WRITE_CBOR
        )),
        vec![0xf1]
    );
    assert_eq!(
        encode_response(Ok(ResponseData::AuthenticatorReset)),
        vec![0x00]
    );
}

#[test]
fn requests_are_answered_in_canonical_form() {
    let mut rng = CountingRng { draws: 0 };
    let mut state = CtapState::new(&mut rng, |_| Ok(()));
    let mut parameters = make_parameters();
    parameters.push((
        number(7),
        Value::Table(vec![(text("rk"), builder::boolean(true))]),
    ));
    let made = state.process_command(&request(0x01, parameters), CID);
    assert_eq!(made[..10], [0x00, 0xa3, 0x01, 0x66, 0x70, 0x61, 0x63, 0x6b, 0x65, 0x64]);
    assert!(read(&made[1..]).is_some());

    let used = state.process_command(
        &request(
            0x02,
            vec![
                (number(1), text("example.com")),
                (number(2), bytes(&[0xCE; 32])),
            ],
        ),
        CID,
    );
    assert_eq!(used[0], 0x00);
    match read(&used[1..]) {
        Some(Value::Table(entries)) => {
            let keys: Vec<Value> = entries.into_iter().map(|e| e.0).collect();
            assert_eq!(keys, vec![number(1), number(2), number(3)]);
        }
        _ => panic!("no map"),
    }

    let retries = state.process_command(&pin_request(1, vec![]), CID);
    assert_eq!(retries, vec![0x00, 0xa1, 0x03, 0x08]);
    let key = state.process_command(&pin_request(2, vec![]), CID);
    assert_eq!(
        key[..12],
        [0x00, 0xa1, 0x01, 0xa5, 0x01, 0x02, 0x03, 0x38, 0x18, 0x20, 0x01, 0x21]
    );
    assert!(read(&key[1..]).is_some());
    let info = state.process_command(&[0x04], CID);
    assert!(read(&info[1..]).is_some());
}

#[test]
fn touch_for_u2f_does_not_outlast_a_command() {
    let mut rng = CountingRng { draws: 0 };
    let mut state = CtapState::new(&mut rng, |_| Ok(()));
    let fresh = state.u2f_up_state;
    assert_eq!(fresh.has_up, None);
    assert_eq!(fresh.request_duration, 10000);
    assert_eq!(fresh.presence_duration, 30000);
    state.u2f_up_state.has_up = Some(5);
    // What cannot be read leaves it.
    state.process_command(&[0xfe], CID);
    assert_eq!(state.u2f_up_state.has_up, Some(5));
    state.process_command(&[0x04], CID);
    assert_eq!(state.u2f_up_state, fresh);
}
