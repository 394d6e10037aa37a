//! The status codes of CTAP.

use vstd::prelude::*;

verus! {

/// Why a request was refused.
#[allow(non_camel_case_types)]
#[derive(Clone, Copy, Debug, PartialEq, Eq, Structural)]
pub enum Ctap2StatusCode {
    CTAP1_ERR_INVALID_COMMAND,
    CTAP1_ERR_INVALID_PARAMETER,
    CTAP1_ERR_INVALID_LENGTH,
    CTAP1_ERR_INVALID_SEQ,
    CTAP1_ERR_TIMEOUT,
    CTAP1_ERR_CHANNEL_BUSY,
    CTAP1_ERR_LOCK_REQUIRED,
    CTAP1_ERR_INVALID_CHANNEL,
    CTAP2_ERR_CBOR_UNEXPECTED_TYPE,
    CTAP2_ERR_INVALID_CBOR,
    CTAP2_ERR_MISSING_PARAMETER,
    CTAP2_ERR_LIMIT_EXCEEDED,
    CTAP2_ERR_UNSUPPORTED_EXTENSION,
    CTAP2_ERR_CREDENTIAL_EXCLUDED,
    CTAP2_ERR_PROCESSING,
    CTAP2_ERR_INVALID_CREDENTIAL,
    CTAP2_ERR_USER_ACTION_PENDING,
    CTAP2_ERR_OPERATION_PENDING,
    CTAP2_ERR_NO_OPERATIONS,
    CTAP2_ERR_UNSUPPORTED_ALGORITHM,
    CTAP2_ERR_OPERATION_DENIED,
    CTAP2_ERR_KEY_STORE_FULL,
    CTAP2_ERR_NO_OPERATION_PENDING,
    CTAP2_ERR_UNSUPPORTED_OPTION,
    CTAP2_ERR_INVALID_OPTION,
    CTAP2_ERR_KEEPALIVE_CANCEL,
    CTAP2_ERR_NO_CREDENTIALS,
    CTAP2_ERR_USER_ACTION_TIMEOUT,
    CTAP2_ERR_NOT_ALLOWED,
    CTAP2_ERR_PIN_INVALID,
    CTAP2_ERR_PIN_BLOCKED,
    CTAP2_ERR_PIN_AUTH_INVALID,
    CTAP2_ERR_PIN_AUTH_BLOCKED,
    CTAP2_ERR_PIN_NOT_SET,
    CTAP2_ERR_PIN_REQUIRED,
    CTAP2_ERR_PIN_POLICY_VIOLATION,
    CTAP2_ERR_PIN_TOKEN_EXPIRED,
    CTAP2_ERR_REQUEST_TOO_LARGE,
    CTAP2_ERR_ACTION_TIMEOUT,
    CTAP2_ERR_UP_REQUIRED,
    CTAP1_ERR_OTHER,
    CTAP2_ERR_VENDOR_RESPONSE_TOO_LONG,
    CTAP2_ERR_VENDOR_RESPONSE_CANNOT_WRITE_CBOR,
}

impl Ctap2StatusCode {
    /// The byte that stands for the code in a response.
    pub open spec fn byte(self) -> u8 {
        match self {
            Ctap2StatusCode::CTAP1_ERR_INVALID_COMMAND => 0x01,
            Ctap2StatusCode::CTAP1_ERR_INVALID_PARAMETER => 0x02,
            Ctap2StatusCode::CTAP1_ERR_INVALID_LENGTH => 0x03,
            Ctap2StatusCode::CTAP1_ERR_INVALID_SEQ => 0x04,
            Ctap2StatusCode::CTAP1_ERR_TIMEOUT => 0x05,
            Ctap2StatusCode::CTAP1_ERR_CHANNEL_BUSY => 0x06,
            Ctap2StatusCode::CTAP1_ERR_LOCK_REQUIRED => 0x0a,
            Ctap2StatusCode::CTAP1_ERR_INVALID_CHANNEL => 0x0b,
            Ctap2StatusCode::CTAP2_ERR_CBOR_UNEXPECTED_TYPE => 0x11,
            Ctap2StatusCode::CTAP2_ERR_INVALID_CBOR => 0x12,
            Ctap2StatusCode::CTAP2_ERR_MISSING_PARAMETER => 0x14,
            Ctap2StatusCode::CTAP2_ERR_LIMIT_EXCEEDED => 0x15,
            Ctap2StatusCode::CTAP2_ERR_UNSUPPORTED_EXTENSION => 0x16,
            Ctap2StatusCode::CTAP2_ERR_CREDENTIAL_EXCLUDED => 0x19,
            Ctap2StatusCode::CTAP2_ERR_PROCESSING => 0x21,
            Ctap2StatusCode::CTAP2_ERR_INVALID_CREDENTIAL => 0x22,
            Ctap2StatusCode::CTAP2_ERR_USER_ACTION_PENDING => 0x23,
            Ctap2StatusCode::CTAP2_ERR_OPERATION_PENDING => 0x24,
            Ctap2StatusCode::CTAP2_ERR_NO_OPERATIONS => 0x25,
            Ctap2StatusCode::CTAP2_ERR_UNSUPPORTED_ALGORITHM => 0x26,
            Ctap2StatusCode::CTAP2_ERR_OPERATION_DENIED => 0x27,
            Ctap2StatusCode::CTAP2_ERR_KEY_STORE_FULL => 0x28,
            Ctap2StatusCode::CTAP2_ERR_NO_OPERATION_PENDING => 0x2a,
            Ctap2StatusCode::CTAP2_ERR_UNSUPPORTED_OPTION => 0x2b,
            Ctap2StatusCode::CTAP2_ERR_INVALID_OPTION => 0x2c,
            Ctap2StatusCode::CTAP2_ERR_KEEPALIVE_CANCEL => 0x2d,
            Ctap2StatusCode::CTAP2_ERR_NO_CREDENTIALS => 0x2e,
            Ctap2StatusCode::CTAP2_ERR_USER_ACTION_TIMEOUT => 0x2f,
            Ctap2StatusCode::CTAP2_ERR_NOT_ALLOWED => 0x30,
            Ctap2StatusCode::CTAP2_ERR_PIN_INVALID => 0x31,
            Ctap2StatusCode::CTAP2_ERR_PIN_BLOCKED => 0x32,
            Ctap2StatusCode::CTAP2_ERR_PIN_AUTH_INVALID => 0x33,
            Ctap2StatusCode::CTAP2_ERR_PIN_AUTH_BLOCKED => 0x34,
            Ctap2StatusCode::CTAP2_ERR_PIN_NOT_SET => 0x35,
            Ctap2StatusCode::CTAP2_ERR_PIN_REQUIRED => 0x36,
            Ctap2StatusCode::CTAP2_ERR_PIN_POLICY_VIOLATION => 0x37,
            Ctap2StatusCode::CTAP2_ERR_PIN_TOKEN_EXPIRED => 0x38,
            Ctap2StatusCode::CTAP2_ERR_REQUEST_TOO_LARGE => 0x39,
            Ctap2StatusCode::CTAP2_ERR_ACTION_TIMEOUT => 0x3a,
            Ctap2StatusCode::CTAP2_ERR_UP_REQUIRED => 0x3b,
            Ctap2StatusCode::CTAP1_ERR_OTHER => 0x7f,
            Ctap2StatusCode::CTAP2_ERR_VENDOR_RESPONSE_TOO_LONG => 0xf0,
            Ctap2StatusCode::CTAP2_ERR_VENDOR_RESPONSE_CANNOT_WRITE_CBOR => 0xf1,
        }
    }

    /// The byte that stands for the code in a response.
    pub fn to_byte(self) -> (byte: u8)
        ensures
            byte == self.byte(),
    {
        match self {
            Ctap2StatusCode::CTAP1_ERR_INVALID_COMMAND => 0x01,
            Ctap2StatusCode::CTAP1_ERR_INVALID_PARAMETER => 0x02,
            Ctap2StatusCode::CTAP1_ERR_INVALID_LENGTH => 0x03,
            Ctap2StatusCode::CTAP1_ERR_INVALID_SEQ => 0x04,
            Ctap2StatusCode::CTAP1_ERR_TIMEOUT => 0x05,
            Ctap2StatusCode::CTAP1_ERR_CHANNEL_BUSY => 0x06,
            Ctap2StatusCode::CTAP1_ERR_LOCK_REQUIRED => 0x0a,
            Ctap2StatusCode::CTAP1_ERR_INVALID_CHANNEL => 0x0b,
            Ctap2StatusCode::CTAP2_ERR_CBOR_UNEXPECTED_TYPE => 0x11,
            Ctap2StatusCode::CTAP2_ERR_INVALID_CBOR => 0x12,
            Ctap2StatusCode::CTAP2_ERR_MISSING_PARAMETER => 0x14,
            Ctap2StatusCode::CTAP2_ERR_LIMIT_EXCEEDED => 0x15,
            Ctap2StatusCode::CTAP2_ERR_UNSUPPORTED_EXTENSION => 0x16,
            Ctap2StatusCode::CTAP2_ERR_CREDENTIAL_EXCLUDED => 0x19,
            Ctap2StatusCode::CTAP2_ERR_PROCESSING => 0x21,
            Ctap2StatusCode::CTAP2_ERR_INVALID_CREDENTIAL => 0x22,
            Ctap2StatusCode::CTAP2_ERR_USER_ACTION_PENDING => 0x23,
            Ctap2StatusCode::CTAP2_ERR_OPERATION_PENDING => 0x24,
            Ctap2StatusCode::CTAP2_ERR_NO_OPERATIONS => 0x25,
            Ctap2StatusCode::CTAP2_ERR_UNSUPPORTED_ALGORITHM => 0x26,
            Ctap2StatusCode::CTAP2_ERR_OPERATION_DENIED => 0x27,
            Ctap2StatusCode::CTAP2_ERR_KEY_STORE_FULL => 0x28,
            Ctap2StatusCode::CTAP2_ERR_NO_OPERATION_PENDING => 0x2a,
            Ctap2StatusCode::CTAP2_ERR_UNSUPPORTED_OPTION => 0x2b,
            Ctap2StatusCode::CTAP2_ERR_INVALID_OPTION => 0x2c,
            Ctap2StatusCode::CTAP2_ERR_KEEPALIVE_CANCEL => 0x2d,
            Ctap2StatusCode::CTAP2_ERR_NO_CREDENTIALS => 0x2e,
            Ctap2StatusCode::CTAP2_ERR_USER_ACTION_TIMEOUT => 0x2f,
            Ctap2StatusCode::CTAP2_ERR_NOT_ALLOWED => 0x30,
            Ctap2StatusCode::CTAP2_ERR_PIN_INVALID => 0x31,
            Ctap2StatusCode::CTAP2_ERR_PIN_BLOCKED => 0x32,
            Ctap2StatusCode::CTAP2_ERR_PIN_AUTH_INVALID => 0x33,
            Ctap2StatusCode::CTAP2_ERR_PIN_AUTH_BLOCKED => 0x34,
            Ctap2StatusCode::CTAP2_ERR_PIN_NOT_SET => 0x35,
            Ctap2StatusCode::CTAP2_ERR_PIN_REQUIRED => 0x36,
            Ctap2StatusCode::CTAP2_ERR_PIN_POLICY_VIOLATION => 0x37,
            Ctap2StatusCode::CTAP2_ERR_PIN_TOKEN_EXPIRED => 0x38,
            Ctap2StatusCode::CTAP2_ERR_REQUEST_TOO_LARGE => 0x39,
            Ctap2StatusCode::CTAP2_ERR_ACTION_TIMEOUT => 0x3a,
            Ctap2StatusCode::CTAP2_ERR_UP_REQUIRED => 0x3b,
            Ctap2StatusCode::CTAP1_ERR_OTHER => 0x7f,
            Ctap2StatusCode::CTAP2_ERR_VENDOR_RESPONSE_TOO_LONG => 0xf0,
            Ctap2StatusCode::CTAP2_ERR_VENDOR_RESPONSE_CANNOT_WRITE_CBOR => 0xf1,
        }
    }
}

/// Different codes are told apart by their bytes, and none is told as success.
pub proof fn law_bytes_are_distinct(a: Ctap2StatusCode, b: Ctap2StatusCode)
    ensures
        a.byte() == b.byte() ==> a == b,
        a.byte() != 0,
{
}

/// Each code has its byte, and no other byte is the byte of a code.
pub proof fn law_bytes_name_codes(code: Ctap2StatusCode)
    ensures
        match code.byte() {
            0x01 => code == Ctap2StatusCode::CTAP1_ERR_INVALID_COMMAND,
            0x02 => code == Ctap2StatusCode::CTAP1_ERR_INVALID_PARAMETER,
            0x03 => code == Ctap2StatusCode::CTAP1_ERR_INVALID_LENGTH,
            0x04 => code == Ctap2StatusCode::CTAP1_ERR_INVALID_SEQ,
            0x05 => code == Ctap2StatusCode::CTAP1_ERR_TIMEOUT,
            0x06 => code == Ctap2StatusCode::CTAP1_ERR_CHANNEL_BUSY,
            0x0a => code == Ctap2StatusCode::CTAP1_ERR_LOCK_REQUIRED,
            0x0b => code == Ctap2StatusCode::CTAP1_ERR_INVALID_CHANNEL,
            0x11 => code == Ctap2StatusCode::CTAP2_ERR_CBOR_UNEXPECTED_TYPE,
            0x12 => code == Ctap2StatusCode::CTAP2_ERR_INVALID_CBOR,
            0x14 => code == Ctap2StatusCode::CTAP2_ERR_MISSING_PARAMETER,
            0x15 => code == Ctap2StatusCode::CTAP2_ERR_LIMIT_EXCEEDED,
            0x16 => code == Ctap2StatusCode::CTAP2_ERR_UNSUPPORTED_EXTENSION,
            0x19 => code == Ctap2StatusCode::CTAP2_ERR_CREDENTIAL_EXCLUDED,
            0x21 => code == Ctap2StatusCode::CTAP2_ERR_PROCESSING,
            0x22 => code == Ctap2StatusCode::CTAP2_ERR_INVALID_CREDENTIAL,
            0x23 => code == Ctap2StatusCode::CTAP2_ERR_USER_ACTION_PENDING,
            0x24 => code == Ctap2StatusCode::CTAP2_ERR_OPERATION_PENDING,
            0x25 => code == Ctap2StatusCode::CTAP2_ERR_NO_OPERATIONS,
            0x26 => code == Ctap2StatusCode::CTAP2_ERR_UNSUPPORTED_ALGORITHM,
            0x27 => code == Ctap2StatusCode::CTAP2_ERR_OPERATION_DENIED,
            0x28 => code == Ctap2StatusCode::CTAP2_ERR_KEY_STORE_FULL,
            0x2a => code == Ctap2StatusCode::CTAP2_ERR_NO_OPERATION_PENDING,
            0x2b => code == Ctap2StatusCode::CTAP2_ERR_UNSUPPORTED_OPTION,
            0x2c => code == Ctap2StatusCode::CTAP2_ERR_INVALID_OPTION,
            0x2d => code == Ctap2StatusCode::CTAP2_ERR_KEEPALIVE_CANCEL,
            0x2e => code == Ctap2StatusCode::CTAP2_ERR_NO_CREDENTIALS,
            0x2f => code == Ctap2StatusCode::CTAP2_ERR_USER_ACTION_TIMEOUT,
            0x30 => code == Ctap2StatusCode::CTAP2_ERR_NOT_ALLOWED,
            0x31 => code == Ctap2StatusCode::CTAP2_ERR_PIN_INVALID,
            0x32 => code == Ctap2StatusCode::CTAP2_ERR_PIN_BLOCKED,
            0x33 => code == Ctap2StatusCode::CTAP2_ERR_PIN_AUTH_INVALID,
            0x34 => code == Ctap2StatusCode::CTAP2_ERR_PIN_AUTH_BLOCKED,
            0x35 => code == Ctap2StatusCode::CTAP2_ERR_PIN_NOT_SET,
            0x36 => code == Ctap2StatusCode::CTAP2_ERR_PIN_REQUIRED,
            0x37 => code == Ctap2StatusCode::CTAP2_ERR_PIN_POLICY_VIOLATION,
            0x38 => code == Ctap2StatusCode::CTAP2_ERR_PIN_TOKEN_EXPIRED,
            0x39 => code == Ctap2StatusCode::CTAP2_ERR_REQUEST_TOO_LARGE,
            0x3a => code == Ctap2StatusCode::CTAP2_ERR_ACTION_TIMEOUT,
            0x3b => code == Ctap2StatusCode::CTAP2_ERR_UP_REQUIRED,
            0x7f => code == Ctap2StatusCode::CTAP1_ERR_OTHER,
            0xf0 => code == Ctap2StatusCode::CTAP2_ERR_VENDOR_RESPONSE_TOO_LONG,
            0xf1 => code == Ctap2StatusCode::CTAP2_ERR_VENDOR_RESPONSE_CANNOT_WRITE_CBOR,
            _ => false,
        },
{
}

} // verus!
