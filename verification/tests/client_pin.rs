use opensk::crypto::cbc::{cbc_decrypt, cbc_encrypt};
use opensk::crypto::ecdh;
use opensk::crypto::hmac::hmac_256;
use opensk::crypto::p256::Scalar;
use opensk::crypto::rng256::Rng256;
use opensk::crypto::sha256;
use opensk::ctap::command::AuthenticatorClientPinParameters;
use opensk::ctap::data_formats::{ClientPinSubCommand, CoseKey};
use opensk::ctap::hid::ChannelID;
use opensk::ctap::pin::check_pin_auth;
use opensk::ctap::response::{AuthenticatorClientPinResponse, ResponseData};
use opensk::ctap::state::CtapState;
use opensk::ctap::status_code::Ctap2StatusCode;
use opensk::ctap::storage::{PersistentStore, MAX_PIN_RETRIES};

struct CountingRng {
    draws: u64,
}

impl Rng256 for CountingRng {
    fn gen_uniform_u8x32(&mut self) -> [u8; 32] {
        self.draws += 1;
        sha256::hash(&self.draws.to_le_bytes())
    }

    fn gen_uniform_scalar(&mut self) -> Scalar {
        loop {
            let bytes = self.gen_uniform_u8x32();
            if let Some(scalar) = Scalar::from_bytes(&bytes) {
                return scalar;
            }
        }
    }
}

fn always_present(_: ChannelID) -> Result<(), Ctap2StatusCode> {
    Ok(())
}

type State<'a> = CtapState<'a, CountingRng, fn(ChannelID) -> Result<(), Ctap2StatusCode>>;

fn start(rng: &mut CountingRng) -> State<'_> {
    CtapState::new(rng, always_present)
}

// A client: its key, and what it shares with the authenticator.
struct Client {
    key: CoseKey,
    secret: [u8; 32],
}

fn device_key(state: &State) -> CoseKey {
    state
        .process_get_key_agreement()
        .unwrap()
        .key_agreement
        .unwrap()
}

fn connect(state: &State) -> Client {
    let mut rng = CountingRng { draws: 9000 };
    let sk = ecdh::SecKey::gensk(&mut rng);
    let device = device_key(state).try_into().unwrap();
    Client {
        key: CoseKey::from(sk.genpk()),
        secret: sk.exchange_x_sha256(&device),
    }
}

impl Client {
    fn encrypt(&self, data: &[u8]) -> Vec<u8> {
        cbc_encrypt(&self.secret, &[0; 16], data)
    }

    fn new_pin(&self, pin: &[u8]) -> Vec<u8> {
        let mut padded = [0; 64];
        padded[..pin.len()].copy_from_slice(pin);
        self.encrypt(&padded)
    }

    fn pin_hash(&self, pin: &[u8]) -> Vec<u8> {
        self.encrypt(&sha256::hash(pin)[..16])
    }

    fn auth(&self, data: &[u8]) -> Vec<u8> {
        hmac_256(&self.secret, data)[..16].to_vec()
    }
}

fn set_pin(state: &mut State, pin: &[u8]) -> Result<(), Ctap2StatusCode> {
    let client = connect(state);
    let enc = client.new_pin(pin);
    state.process_set_pin(client.key, client.auth(&enc), enc)
}

fn get_token(state: &mut State, pin: &[u8]) -> Result<Vec<u8>, Ctap2StatusCode> {
    let client = connect(state);
    let response = state.process_get_pin_token(client.key, client.pin_hash(pin))?;
    Ok(cbc_decrypt(
        &client.secret,
        &[0; 16],
        &response.pin_token.unwrap(),
    ))
}

fn change_pin(state: &mut State, old: &[u8], new: &[u8]) -> Result<(), Ctap2StatusCode> {
    let client = connect(state);
    let enc = client.new_pin(new);
    let hash = client.pin_hash(old);
    let mut both = enc.clone();
    both.extend(&hash);
    state.process_change_pin(client.key, client.auth(&both), enc, hash)
}

#[test]
fn pin_auth_is_the_start_of_the_hmac() {
    let mac = hmac_256(&[1; 32], b"contents");
    assert!(check_pin_auth(&[1; 32], b"contents", &mac[..16]));
    assert!(!check_pin_auth(&[1; 32], b"contents", &mac[..15]));
    assert!(!check_pin_auth(&[1; 32], b"contents", &mac));
    assert!(!check_pin_auth(&[2; 32], b"contents", &mac[..16]));
    assert!(!check_pin_auth(&[1; 32], b"contentz", &mac[..16]));
    assert!(!check_pin_auth(&[1; 32], b"contents", &[]));
}

#[test]
fn set_pin_gives_the_token() {
    let mut rng = CountingRng { draws: 0 };
    let mut state = start(&mut rng);
    assert_eq!(
        get_token(&mut state, b"1234"),
        Err(Ctap2StatusCode::CTAP2_ERR_PIN_REQUIRED)
    );
    assert_eq!(set_pin(&mut state, b"1234"), Ok(()));
    let token = get_token(&mut state, b"1234").unwrap();
    assert_eq!(token, state.pin_uv_auth_token.to_vec());
    assert_eq!(
        state.persistent_store.pin_hash().unwrap().to_vec(),
        sha256::hash(b"1234")[..16].to_vec()
    );
}

#[test]
fn pin_is_set_once() {
    let mut rng = CountingRng { draws: 0 };
    let mut state = start(&mut rng);
    assert_eq!(set_pin(&mut state, b"1234"), Ok(()));
    assert_eq!(
        set_pin(&mut state, b"5678"),
        Err(Ctap2StatusCode::CTAP2_ERR_PIN_AUTH_INVALID)
    );
    assert!(get_token(&mut state, b"1234").is_ok());
}

#[test]
fn pins_have_four_to_sixty_three_bytes() {
    let mut rng = CountingRng { draws: 0 };
    let mut state = start(&mut rng);
    let violation = Err(Ctap2StatusCode::CTAP2_ERR_PIN_POLICY_VIOLATION);
    assert_eq!(set_pin(&mut state, b"123"), violation);
    assert_eq!(set_pin(&mut state, &[0x31; 64]), violation);
    assert_eq!(set_pin(&mut state, b"12\x003456"), violation);
    let client = connect(&state);
    let short = client.encrypt(&[0x31; 48]);
    assert_eq!(
        state.process_set_pin(client.key, client.auth(&short), short),
        violation
    );
    assert!(state.persistent_store.pin_hash().is_none());
    assert_eq!(set_pin(&mut state, &[0x31; 63]), Ok(()));
    assert!(get_token(&mut state, &[0x31; 63]).is_ok());
}

#[test]
fn set_pin_is_authenticated() {
    let mut rng = CountingRng { draws: 0 };
    let mut state = start(&mut rng);
    let client = connect(&state);
    let enc = client.new_pin(b"1234");
    assert_eq!(
        state.process_set_pin(client.key, vec![0; 16], enc.clone()),
        Err(Ctap2StatusCode::CTAP2_ERR_PIN_AUTH_INVALID)
    );
    let no_point = CoseKey {
        x: [1; 32],
        y: [1; 32],
    };
    assert_eq!(
        state.process_set_pin(no_point, client.auth(&enc), enc),
        Err(Ctap2StatusCode::CTAP1_ERR_INVALID_PARAMETER)
    );
}

#[test]
fn wrong_pins_take_tries_and_block() {
    let mut rng = CountingRng { draws: 0 };
    let mut state = start(&mut rng);
    set_pin(&mut state, b"1234").unwrap();
    let key = device_key(&state);
    assert_eq!(
        get_token(&mut state, b"4321"),
        Err(Ctap2StatusCode::CTAP2_ERR_PIN_INVALID)
    );
    // The next client agrees on another secret.
    assert_ne!(device_key(&state), key);
    assert_eq!(state.persistent_store.pin_retries(), MAX_PIN_RETRIES - 1);
    assert_eq!(
        get_token(&mut state, b"4321"),
        Err(Ctap2StatusCode::CTAP2_ERR_PIN_INVALID)
    );
    assert_eq!(
        get_token(&mut state, b"4321"),
        Err(Ctap2StatusCode::CTAP2_ERR_PIN_AUTH_BLOCKED)
    );
    assert_eq!(state.persistent_store.pin_retries(), MAX_PIN_RETRIES - 3);
    // Now not even the right PIN is checked.
    assert_eq!(
        get_token(&mut state, b"1234"),
        Err(Ctap2StatusCode::CTAP2_ERR_PIN_AUTH_BLOCKED)
    );
    assert_eq!(state.persistent_store.pin_retries(), MAX_PIN_RETRIES - 3);
}

#[test]
fn right_pin_restores_tries() {
    let mut rng = CountingRng { draws: 0 };
    let mut state = start(&mut rng);
    set_pin(&mut state, b"1234").unwrap();
    for _ in 0..2 {
        assert!(get_token(&mut state, b"4321").is_err());
    }
    assert_eq!(state.consecutive_pin_mismatches, 2);
    assert!(get_token(&mut state, b"1234").is_ok());
    assert_eq!(state.consecutive_pin_mismatches, 0);
    assert_eq!(state.persistent_store.pin_retries(), MAX_PIN_RETRIES);
}

#[test]
fn no_tries_no_service() {
    let mut rng = CountingRng { draws: 0 };
    let mut state = start(&mut rng);
    set_pin(&mut state, b"1234").unwrap();
    for _ in 0..MAX_PIN_RETRIES - 1 {
        state.persistent_store.decr_pin_retries();
    }
    // The last try.
    assert_eq!(
        get_token(&mut state, b"4321"),
        Err(Ctap2StatusCode::CTAP2_ERR_PIN_BLOCKED)
    );
    assert_eq!(state.persistent_store.pin_retries(), 0);
    assert_eq!(
        get_token(&mut state, b"1234"),
        Err(Ctap2StatusCode::CTAP2_ERR_PIN_BLOCKED)
    );
    assert_eq!(
        change_pin(&mut state, b"1234", b"5678"),
        Err(Ctap2StatusCode::CTAP2_ERR_PIN_BLOCKED)
    );
}

#[test]
fn short_pin_hash_takes_a_try() {
    let mut rng = CountingRng { draws: 0 };
    let mut state = start(&mut rng);
    set_pin(&mut state, b"1234").unwrap();
    let client = connect(&state);
    assert_eq!(
        state.process_get_pin_token(client.key, vec![0; 15]),
        Err(Ctap2StatusCode::CTAP2_ERR_PIN_INVALID)
    );
    assert_eq!(state.persistent_store.pin_retries(), MAX_PIN_RETRIES - 1);
    assert_eq!(state.consecutive_pin_mismatches, 0);
}

#[test]
fn pin_is_changed() {
    let mut rng = CountingRng { draws: 0 };
    let mut state = start(&mut rng);
    set_pin(&mut state, b"1234").unwrap();
    let token = state.pin_uv_auth_token;
    assert_eq!(
        change_pin(&mut state, b"4321", b"5678"),
        Err(Ctap2StatusCode::CTAP2_ERR_PIN_INVALID)
    );
    assert_eq!(
        change_pin(&mut state, b"1234", b"567"),
        Err(Ctap2StatusCode::CTAP2_ERR_PIN_POLICY_VIOLATION)
    );
    assert_eq!(state.pin_uv_auth_token, token);
    assert_eq!(change_pin(&mut state, b"1234", b"5678"), Ok(()));
    assert_ne!(state.pin_uv_auth_token, token);
    assert!(get_token(&mut state, b"5678").is_ok());
    assert_eq!(
        get_token(&mut state, b"1234"),
        Err(Ctap2StatusCode::CTAP2_ERR_PIN_INVALID)
    );
    let client = connect(&state);
    let enc = client.new_pin(b"9999");
    let hash = client.pin_hash(b"5678");
    assert_eq!(
        state.process_change_pin(client.key, client.auth(&enc), enc, hash),
        Err(Ctap2StatusCode::CTAP2_ERR_PIN_AUTH_INVALID)
    );
}

fn request(sub_command: ClientPinSubCommand) -> AuthenticatorClientPinParameters {
    AuthenticatorClientPinParameters {
        pin_protocol: 1,
        sub_command,
        key_agreement: None,
        pin_auth: None,
        new_pin_enc: None,
        pin_hash_enc: None,
        min_pin_length: None,
        min_pin_length_rp_ids: None,
        permissions: None,
        permissions_rp_id: None,
    }
}

fn answer(retries: Option<u64>, token: Option<Vec<u8>>) -> Result<ResponseData, Ctap2StatusCode> {
    Ok(ResponseData::AuthenticatorClientPin(Some(
        AuthenticatorClientPinResponse {
            key_agreement: None,
            pin_token: token,
            retries,
        },
    )))
}

#[test]
fn client_pin_requests_are_told_apart() {
    let mut rng = CountingRng { draws: 0 };
    let mut state = start(&mut rng);
    let client = connect(&state);
    let missing = Err(Ctap2StatusCode::CTAP2_ERR_MISSING_PARAMETER);
    let silent = Ok(ResponseData::AuthenticatorClientPin(None));

    let mut wrong_protocol = request(ClientPinSubCommand::GetPinRetries);
    wrong_protocol.pin_protocol = 2;
    assert_eq!(
        state.process_client_pin(wrong_protocol),
        Err(Ctap2StatusCode::CTAP2_ERR_PIN_AUTH_INVALID)
    );
    assert_eq!(
        state.process_client_pin(request(ClientPinSubCommand::GetPinRetries)),
        answer(Some(8), None)
    );
    let key = device_key(&state);
    assert_eq!(
        state.process_client_pin(request(ClientPinSubCommand::GetKeyAgreement)),
        Ok(ResponseData::AuthenticatorClientPin(Some(
            AuthenticatorClientPinResponse {
                key_agreement: Some(key),
                pin_token: None,
                retries: None,
            }
        )))
    );
    assert_eq!(
        state.process_client_pin(request(ClientPinSubCommand::GetUvRetries)),
        answer(Some(0), None)
    );
    for sub_command in [
        ClientPinSubCommand::SetPin,
        ClientPinSubCommand::ChangePin,
        ClientPinSubCommand::GetPinToken,
        ClientPinSubCommand::GetPinUvAuthTokenUsingUvWithPermissions,
        ClientPinSubCommand::SetMinPinLength,
        ClientPinSubCommand::GetPinUvAuthTokenUsingPinWithPermissions,
    ] {
        assert_eq!(state.process_client_pin(request(sub_command)), missing);
    }

    let mut set = request(ClientPinSubCommand::SetPin);
    let enc = client.new_pin(b"1234");
    set.key_agreement = Some(client.key);
    set.pin_auth = Some(client.auth(&enc));
    set.new_pin_enc = Some(enc);
    assert_eq!(state.process_client_pin(set), silent);

    let mut change = request(ClientPinSubCommand::ChangePin);
    let enc = client.new_pin(b"5678");
    let hash = client.pin_hash(b"1234");
    let mut both = enc.clone();
    both.extend(&hash);
    change.key_agreement = Some(client.key);
    change.pin_auth = Some(client.auth(&both));
    change.new_pin_enc = Some(enc);
    change.pin_hash_enc = Some(hash);
    assert_eq!(state.process_client_pin(change), silent);

    let mut token = request(ClientPinSubCommand::GetPinToken);
    token.key_agreement = Some(client.key);
    token.pin_hash_enc = Some(client.pin_hash(b"5678"));
    let expected = client.encrypt(&state.pin_uv_auth_token);
    assert_eq!(state.process_client_pin(token), answer(None, Some(expected)));

    let mut uv = request(ClientPinSubCommand::GetPinUvAuthTokenUsingUvWithPermissions);
    uv.key_agreement = Some(client.key);
    assert_eq!(state.process_client_pin(uv), answer(None, Some(vec![])));

    let mut min = request(ClientPinSubCommand::SetMinPinLength);
    min.min_pin_length = Some(4);
    min.min_pin_length_rp_ids = Some(vec![]);
    min.pin_auth = Some(vec![]);
    assert_eq!(state.process_client_pin(min), silent);

    let mut permissions = request(ClientPinSubCommand::GetPinUvAuthTokenUsingPinWithPermissions);
    permissions.key_agreement = Some(client.key);
    permissions.pin_hash_enc = Some(vec![]);
    permissions.permissions = Some(1);
    permissions.permissions_rp_id = Some(String::from("example.com"));
    assert_eq!(state.process_client_pin(permissions), silent);
}

#[test]
fn drawn_values_are_taken() {
    let mut other = CountingRng { draws: 3000 };
    let key = ecdh::SecKey::gensk(&mut other);
    let next_key = ecdh::SecKey::gensk(&mut other);
    let store = PersistentStore::with_keys([1; 32], [2; 32]);
    let mut rng = CountingRng { draws: 0 };
    let mut state: State = CtapState::new_with(&mut rng, always_present, store, key, [3; 32]);
    assert_eq!(state.persistent_store.master_keys().encryption, &[1; 32]);
    assert_eq!(state.persistent_store.master_keys().hmac, &[2; 32]);
    assert_eq!(device_key(&state), CoseKey::from(key.genpk()));
    assert_eq!(state.pin_uv_auth_token, [3; 32]);
    assert!(state.accepts_reset);

    state.replace_pin_token([4; 32]);
    assert_eq!(state.pin_uv_auth_token, [4; 32]);
    assert_eq!(
        state.note_pin_mismatch(next_key),
        Ctap2StatusCode::CTAP2_ERR_PIN_INVALID
    );
    assert_eq!(state.consecutive_pin_mismatches, 1);
    assert_eq!(device_key(&state), CoseKey::from(next_key.genpk()));

    state.u2f_up_state.has_up = Some(7);
    state.start_over_with(key, [5; 32]);
    assert_eq!(state.consecutive_pin_mismatches, 0);
    assert_eq!(device_key(&state), CoseKey::from(key.genpk()));
    assert_eq!(state.pin_uv_auth_token, [5; 32]);
    assert_eq!(state.u2f_up_state.has_up, None);
}
