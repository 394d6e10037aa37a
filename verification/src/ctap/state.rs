//! The state of the authenticator.

use crate::bytes;
use crate::crypto::ecdh;
use crate::crypto::rng256::Rng256;
use crate::ctap::data_formats::{
    CredentialProtectionPolicy, PublicKeyCredentialParameter, PublicKeyCredentialType,
    SignatureAlgorithm,
};
use crate::ctap::hid::ChannelID;
use crate::ctap::response::ResponseData;
use crate::ctap::status_code::Ctap2StatusCode;
use crate::ctap::storage;
use crate::ctap::storage::{PersistentStore, StoreModel};
use crate::ctap::timed_permission::U2fUserPresenceState;
use byteorder::{BigEndian, ByteOrder};
use vstd::prelude::*;

verus! {

/// The counter of signatures is one for all credentials. With this flag off it
/// stands still.
pub const USE_SIGNATURE_COUNTER: bool = true;

/// The length of what authenticates a request by the PIN.
pub const PIN_AUTH_LENGTH: usize = 16;

/// The length of the token that stands for the PIN.
pub const PIN_TOKEN_LENGTH: usize = 32;

/// The length that a PIN is filled up to before it is encrypted.
pub const PIN_PADDED_LENGTH: usize = 64;

/// The length of a credential ID that holds its credential: 16 bytes of
/// initialization vector, 32 bytes of private key and 32 bytes of hash of the
/// relying party's ID, both encrypted, and 32 bytes of HMAC over all of that.
pub const ENCRYPTED_CREDENTIAL_ID_SIZE: usize = 112;

/// Set when the user was present.
pub const UP_FLAG: u8 = 0x01;

/// Set when the user was verified.
pub const UV_FLAG: u8 = 0x04;

/// Set when a credential is attested.
pub const AT_FLAG: u8 = 0x40;

/// Set when an extension is used.
pub const ED_FLAG: u8 = 0x80;

/// For how many milliseconds a touch is waited for.
pub const TOUCH_TIMEOUT_MS: isize = 30000;

/// For how many milliseconds a U2F request waits for a touch.
pub const U2F_UP_PROMPT_TIMEOUT_MS: isize = 10000;

/// For how many milliseconds after booting a reset is possible.
pub const RESET_TIMEOUT_MS: isize = 10000;

/// The version of FIDO2 that is spoken.
pub const FIDO2_VERSION_STRING: &'static str = "FIDO_2_0";

/// The version of U2F that is spoken.
pub const U2F_VERSION_STRING: &'static str = "U2F_V2";

/// The version of the PIN protocol that is spoken.
pub const PIN_PROTOCOL_VERSION: u64 = 1;

/// The one kind of credential that is made, with the one algorithm.
pub open spec fn is_es256(parameter: PublicKeyCredentialParameter) -> bool {
    parameter.cred_type == PublicKeyCredentialType::PublicKey && parameter.alg
        == SignatureAlgorithm::ES256
}

/// The one kind of credential that is made, with the one algorithm.
pub fn es256_cred_param() -> (parameter: PublicKeyCredentialParameter)
    ensures
        is_es256(parameter),
{
    PublicKeyCredentialParameter {
        cred_type: PublicKeyCredentialType::PublicKey,
        alg: SignatureAlgorithm::ES256,
    }
}

/// The policy that a credential has at least; `None` for the loosest.
pub const DEFAULT_CRED_PROTECT: Option<CredentialProtectionPolicy> = None;

/// The state of the authenticator, of which `persistent_store` outlives it.
pub struct CtapState<'a, R: Rng256, CheckUserPresence: Fn(ChannelID) -> Result<
    (),
    Ctap2StatusCode,
>> {
    pub rng: &'a mut R,
    /// Asks the user for a touch, and says whether and why there was none.
    pub check_user_presence: CheckUserPresence,
    pub persistent_store: PersistentStore,
    pub key_agreement_key: ecdh::SecKey,
    pub pin_uv_auth_token: [u8; PIN_TOKEN_LENGTH],
    pub consecutive_pin_mismatches: u64,
    /// Whether a reset is still possible. Once it is not, it never is again.
    pub accepts_reset: bool,
    pub u2f_up_state: U2fUserPresenceState,
}

/// What the state holds.
pub struct StateModel {
    pub store: StoreModel,
    pub key_agreement_key: Seq<u8>,
    pub pin_token: Seq<u8>,
    pub mismatches: u64,
    pub accepts_reset: bool,
    pub u2f_up_state: U2fUserPresenceState,
}

impl<'a, R: Rng256, C: Fn(ChannelID) -> Result<(), Ctap2StatusCode>> View for CtapState<'a, R, C> {
    type V = StateModel;

    open spec fn view(&self) -> StateModel {
        StateModel {
            store: self.persistent_store@,
            key_agreement_key: self.key_agreement_key@,
            pin_token: self.pin_uv_auth_token@,
            mismatches: self.consecutive_pin_mismatches,
            accepts_reset: self.accepts_reset,
            u2f_up_state: self.u2f_up_state,
        }
    }
}

/// How often a wrong PIN may be given until the next start.
pub const MAX_CONSECUTIVE_MISMATCHES: u64 = 3;

impl StateModel {
    /// What holds of every state.
    pub open spec fn valid(self) -> bool {
        &&& self.store.valid()
        &&& self.mismatches <= MAX_CONSECUTIVE_MISMATCHES
        &&& self.pin_token.len() == PIN_TOKEN_LENGTH
    }
}

/// The state in which no touch is waited for and none was given.
pub open spec fn fresh_up_state() -> U2fUserPresenceState {
    U2fUserPresenceState {
        needs_up: None,
        has_up: None,
        request_duration: U2F_UP_PROMPT_TIMEOUT_MS,
        presence_duration: TOUCH_TIMEOUT_MS,
    }
}

/// The state in which no touch is waited for and none was given.
pub(crate) fn new_up_state() -> (state: U2fUserPresenceState)
    ensures
        state == fresh_up_state(),
{
    U2fUserPresenceState::new(U2F_UP_PROMPT_TIMEOUT_MS, TOUCH_TIMEOUT_MS)
}

/// The byte of flags.
pub open spec fn flag_byte(up: bool, uv: bool, at: bool, ed: bool) -> u8 {
    ((if up {
        UP_FLAG as int
    } else {
        0
    }) + (if uv {
        UV_FLAG as int
    } else {
        0
    }) + (if at {
        AT_FLAG as int
    } else {
        0
    }) + (if ed {
        ED_FLAG as int
    } else {
        0
    })) as u8
}

/// The byte of flags.
pub(crate) fn make_flags(up: bool, uv: bool, at: bool, ed: bool) -> (flags: u8)
    ensures
        flags == flag_byte(up, uv, at, ed),
{
    let mut flags: u8 = 0x00;
    if up {
        flags |= UP_FLAG;
        assert(0u8 | 0x01u8 == 0x01u8) by (bit_vector);
    }
    let ghost low = flags;
    if uv {
        flags |= UV_FLAG;
        assert(low | 0x04u8 == low + 0x04) by (bit_vector)
            requires
                low <= 0x01,
        ;
    }
    let ghost low = flags;
    if at {
        flags |= AT_FLAG;
        assert(low | 0x40u8 == low + 0x40) by (bit_vector)
            requires
                low <= 0x05,
        ;
    }
    let ghost low = flags;
    if ed {
        flags |= ED_FLAG;
        assert(low | 0x80u8 == low + 0x80) by (bit_vector)
            requires
                low <= 0x45,
        ;
    }
    flags
}

/// The start of the data that a signature is made over: the hash of the relying
/// party's ID, the flags, and the counter of signatures.
pub open spec fn auth_data(rp_id_hash: Seq<u8>, flags: u8, counter: u32) -> Seq<u8> {
    rp_id_hash + seq![flags] + bytes::be_bytes(counter as nat, 4)
}

/// Calls `byteorder::BigEndian::write_u32`: the four bytes spell the number,
/// most significant byte first.
#[verifier::external_body]
fn write_u32(n: u32) -> (out: [u8; 4])
    ensures
        out@ == bytes::be_bytes(n as nat, 4),
{
    let mut out = [0u8; 4];
    BigEndian::write_u32(&mut out, n);
    out
}

/// The state of an authenticator right after it started, but for its keys and
/// its token, which were drawn.
pub open spec fn is_initial(state: StateModel) -> bool {
    &&& state.store.credentials == Seq::<crate::ctap::data_formats::CredentialModel>::empty()
    &&& state.store.counter == 0
    &&& state.store.pin_hash is None
    &&& state.store.pin_retries == crate::ctap::storage::MAX_PIN_RETRIES
    &&& state.mismatches == 0
    &&& state.u2f_up_state == fresh_up_state()
}

/// Whether the keys and the token of an authenticator that started were drawn:
/// the key for key agreement, the token, and the keys of the store.
pub open spec fn drew_at_start<R: Rng256>(rng: R, state: StateModel, after: R) -> bool {
    exists|first: R, second: R| #[trigger]
        rng.draws_scalar(state.key_agreement_key, first) && #[trigger] first.draws(
            state.pin_token,
            second,
        ) && storage::drew_keys(second, state.store, after)
}

/// Whether the keys and the token after a reset were drawn: the keys of the
/// store, the key for key agreement, and the token.
pub open spec fn drew_at_reset<R: Rng256>(rng: R, state: StateModel, after: R) -> bool {
    exists|first: R, second: R| #[trigger]
        storage::drew_keys(rng, state.store, first) && #[trigger] first.draws_scalar(
            state.key_agreement_key,
            second,
        ) && second.draws(state.pin_token, after)
}

/// What a reset does, given whether the user was present.
pub open spec fn reset_outcome<R: Rng256>(
    pre: StateModel,
    rng: R,
    presence: Result<(), Ctap2StatusCode>,
    result: Result<ResponseData, Ctap2StatusCode>,
    post: StateModel,
    after: R,
) -> bool {
    match presence {
        Err(e) => result == Err::<ResponseData, Ctap2StatusCode>(e) && post == pre && after == rng,
        Ok(_) => {
            &&& result == Ok::<ResponseData, Ctap2StatusCode>(ResponseData::AuthenticatorReset)
            &&& is_initial(post)
            &&& post.accepts_reset
            &&& drew_at_reset(rng, post, after)
        },
    }
}

/// What a request for a reset does: it is refused once it is too late, and
/// needs the user to be present before.
pub open spec fn did_reset<R: Rng256, C: Fn(ChannelID) -> Result<(), Ctap2StatusCode>>(
    pre: StateModel,
    rng: R,
    check: C,
    cid: ChannelID,
    result: Result<ResponseData, Ctap2StatusCode>,
    post: StateModel,
    after: R,
) -> bool {
    if !pre.accepts_reset {
        result == Err::<ResponseData, Ctap2StatusCode>(Ctap2StatusCode::CTAP2_ERR_NOT_ALLOWED)
            && post == pre && after == rng
    } else {
        exists|presence: Result<(), Ctap2StatusCode>| #[trigger]
            call_ensures(check, (cid,), presence) && reset_outcome(
                pre,
                rng,
                presence,
                result,
                post,
                after,
            )
    }
}

/// What the passing of time does: a reset is ruled out once it is too late.
pub open spec fn time_passed(pre: StateModel, timestamp: isize, post: StateModel) -> bool {
    post == (StateModel {
        accepts_reset: pre.accepts_reset && timestamp <= RESET_TIMEOUT_MS,
        ..pre
    })
}

/// Whether an authenticator has just started with what was drawn for it.
pub open spec fn started<R: Rng256>(rng: R, state: StateModel, after: R) -> bool {
    is_initial(state) && state.accepts_reset && drew_at_start(rng, state, after)
}

impl<'a, R, CheckUserPresence> CtapState<'a, R, CheckUserPresence> where
    R: Rng256,
    CheckUserPresence: Fn(ChannelID) -> Result<(), Ctap2StatusCode>,
 {
    /// Starts an authenticator.
    pub fn new(rng: &'a mut R, check_user_presence: CheckUserPresence) -> (state: CtapState<
        'a,
        R,
        CheckUserPresence,
    >)
        ensures
            state@.valid(),
            is_initial(state@),
            state@.accepts_reset,
            drew_at_start(*old(rng), state@, *state.rng),
            started(*old(rng), state@, *state.rng),
            state.check_user_presence == check_user_presence,
    {
        let key_agreement_key: ecdh::SecKey = ecdh::SecKey::gensk(rng);
        let ghost first = *rng;
        let pin_uv_auth_token: [u8; PIN_TOKEN_LENGTH] = rng.gen_uniform_u8x32();
        let ghost second = *rng;
        let persistent_store: PersistentStore = PersistentStore::new(rng);
        let state = CtapState::new_with(
            rng,
            check_user_presence,
            persistent_store,
            key_agreement_key,
            pin_uv_auth_token,
        );
        assert(old(rng).draws_scalar(state@.key_agreement_key, first));
        assert(first.draws(state@.pin_token, second));
        state
    }

    /// Starts an authenticator with the given store, key for key agreement and
    /// token.
    pub fn new_with(
        rng: &'a mut R,
        check_user_presence: CheckUserPresence,
        persistent_store: PersistentStore,
        key_agreement_key: ecdh::SecKey,
        pin_uv_auth_token: [u8; PIN_TOKEN_LENGTH],
    ) -> (state: CtapState<'a, R, CheckUserPresence>)
        ensures
            state@ == (StateModel {
                store: persistent_store@,
                key_agreement_key: key_agreement_key@,
                pin_token: pin_uv_auth_token@,
                mismatches: 0,
                accepts_reset: true,
                u2f_up_state: fresh_up_state(),
            }),
            *state.rng == *old(rng),
            state.check_user_presence == check_user_presence,
    {
        CtapState {
            rng,
            check_user_presence,
            persistent_store,
            key_agreement_key,
            pin_uv_auth_token,
            consecutive_pin_mismatches: 0,
            accepts_reset: true,
            u2f_up_state: new_up_state(),
        }
    }

    /// Rules resets out once the time for them has passed. The argument is the
    /// time since booting, in milliseconds.
    pub fn check_disable_reset(&mut self, timestamp: isize)
        ensures
            final(self)@ == (StateModel {
                accepts_reset: old(self)@.accepts_reset && timestamp <= RESET_TIMEOUT_MS,
                ..old(self)@
            }),
            time_passed(old(self)@, timestamp, final(self)@),
            *final(self).rng == *old(self).rng,
            final(self).check_user_presence == old(self).check_user_presence,
    {
        if timestamp > RESET_TIMEOUT_MS {
            self.accepts_reset = false;
        }
    }

    /// Counts one signature more.
    pub fn increment_global_signature_counter(&mut self)
        ensures
            final(self)@ == (StateModel { store: counted(old(self)@.store), ..old(self)@ }),
            *final(self).rng == *old(self).rng,
            final(self).check_user_presence == old(self).check_user_presence,
    {
        if USE_SIGNATURE_COUNTER {
            self.persistent_store.incr_global_signature_counter();
        }
    }

    /// The start of the data that a signature is made over.
    pub fn generate_auth_data(&self, rp_id_hash: &[u8], flag_byte: u8) -> (data: Vec<u8>)
        ensures
            data@ == auth_data(rp_id_hash@, flag_byte, self@.store.counter),
    {
        let mut data: Vec<u8> = vstd::slice::slice_to_vec(rp_id_hash);
        data.push(flag_byte);
        let counter: [u8; 4] = write_u32(self.persistent_store.global_signature_counter());
        bytes::append(&mut data, &counter);
        assert(data@ =~= auth_data(rp_id_hash@, flag_byte, self@.store.counter));
        data
    }

    /// Forgets everything, if it is not too late and the user is present.
    pub fn process_reset(&mut self, cid: ChannelID) -> (result: Result<
        ResponseData,
        Ctap2StatusCode,
    >)
        requires
            old(self)@.valid(),
            call_requires(old(self).check_user_presence, (cid,)),
        ensures
            final(self)@.valid(),
            final(self).check_user_presence == old(self).check_user_presence,
            did_reset(
                old(self)@,
                *old(self).rng,
                old(self).check_user_presence,
                cid,
                result,
                final(self)@,
                *final(self).rng,
            ),
    {
        if !self.accepts_reset {
            return Err(Ctap2StatusCode::CTAP2_ERR_NOT_ALLOWED);
        }
        let presence: Result<(), Ctap2StatusCode> = (self.check_user_presence)(cid);
        match presence {
            Err(e) => {
                return Err(e);
            },
            Ok(_) => {},
        }
        self.persistent_store.reset(self.rng);
        let ghost first = *self.rng;
        let key_agreement_key: ecdh::SecKey = ecdh::SecKey::gensk(self.rng);
        let ghost second = *self.rng;
        let pin_uv_auth_token: [u8; PIN_TOKEN_LENGTH] = self.rng.gen_uniform_u8x32();
        self.start_over_with(key_agreement_key, pin_uv_auth_token);
        assert(first.draws_scalar(self@.key_agreement_key, second));
        assert(drew_at_reset(*old(self).rng, self@, *self.rng));
        Ok(ResponseData::AuthenticatorReset)
    }

    /// Forgets what is not stored, and takes the given key for key agreement
    /// and the given token.
    pub fn start_over_with(
        &mut self,
        key_agreement_key: ecdh::SecKey,
        pin_uv_auth_token: [u8; PIN_TOKEN_LENGTH],
    )
        ensures
            final(self)@ == (StateModel {
                key_agreement_key: key_agreement_key@,
                pin_token: pin_uv_auth_token@,
                mismatches: 0,
                u2f_up_state: fresh_up_state(),
                ..old(self)@
            }),
            *final(self).rng == *old(self).rng,
            final(self).check_user_presence == old(self).check_user_presence,
    {
        self.key_agreement_key = key_agreement_key;
        self.replace_pin_token(pin_uv_auth_token);
        self.consecutive_pin_mismatches = 0;
        self.u2f_up_state = new_up_state();
    }

    /// Takes the given token. The one before it is of no use any more.
    pub fn replace_pin_token(&mut self, pin_uv_auth_token: [u8; PIN_TOKEN_LENGTH])
        ensures
            final(self)@ == (StateModel { pin_token: pin_uv_auth_token@, ..old(self)@ }),
            *final(self).rng == *old(self).rng,
            final(self).check_user_presence == old(self).check_user_presence,
    {
        self.pin_uv_auth_token = pin_uv_auth_token;
    }
}

/// A store in which one signature more was counted.
pub open spec fn counted(store: StoreModel) -> StoreModel {
    StoreModel {
        counter: if store.counter == u32::MAX {
            0
        } else {
            (store.counter + 1) as u32
        },
        ..store
    }
}

} // verus!
