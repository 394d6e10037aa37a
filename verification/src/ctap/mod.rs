//! The authenticator itself.

pub mod canonical;
pub mod command;
pub mod credential_id;
pub mod data_formats;
pub mod fields;
pub mod get_assertion;
pub mod hid;
pub mod info;
pub mod key_material;
pub mod laws;
pub mod laws_answer;
pub mod laws_info;
pub mod laws_make;
pub mod laws_pin;
pub mod laws_request;
pub mod laws_use;
pub mod make_credential;
pub mod parse;
pub mod pin;
pub mod process;
pub mod response;
pub mod state;
pub mod status_code;
pub mod storage;
pub mod timed_permission;
