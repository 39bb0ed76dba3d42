//! Responses: acknowledgements, errors and reports.

use super::auth::KeyId;
use vstd::prelude::*;

verus! {

/// Little-endian magic of a command response.
pub const RESPONSE_MAGIC: u16 = 0xCB02;

/// Encoded length of a command response.
pub const RESPONSE_LEN: usize = 24;

/// Why a device refused a command.
#[derive(Debug, Clone, Copy, PartialEq, Eq, Structural)]
pub enum ErrorCode {
    InvalidArgument,
    Unsupported,
    Busy,
}

/// What a response says.
#[derive(Debug, Clone, Copy, PartialEq, Eq)]
pub enum ResponseBody {
    /// The command was carried out.
    Ack,
    /// The command was refused.
    Error(ErrorCode),
    /// Battery level in percent.
    BatterySnapshot { percent: u8 },
    /// The coordinator's session nonce.
    NonceHello { nonce: u32 },
    /// An endpoint's answer to an announcement.
    AnnounceReply { mac: [u8; 6], rssi_dbm: i8, role_tag: [u8; 3] },
}

/// A decoded response. `req_seq` is the sequence number of the command it
/// answers, zero when it answers none.
#[derive(Debug, Clone, Copy, PartialEq, Eq)]
pub struct CommandResponse {
    pub req_seq: u32,
    pub key_id: KeyId,
    pub body: ResponseBody,
}

impl CommandResponse {
    /// The acknowledgement of command `req_seq`.
    pub open spec fn spec_ack(req_seq: u32, key_id: KeyId) -> CommandResponse {
        CommandResponse { req_seq, key_id, body: ResponseBody::Ack }
    }

    /// The refusal of command `req_seq`.
    pub open spec fn spec_err(req_seq: u32, key_id: KeyId, code: ErrorCode) -> CommandResponse {
        CommandResponse { req_seq, key_id, body: ResponseBody::Error(code) }
    }

    /// The announcement of a session nonce.
    pub open spec fn spec_nonce_hello(nonce: u32) -> CommandResponse {
        CommandResponse {
            req_seq: 0,
            key_id: KeyId::spec_default(),
            body: ResponseBody::NonceHello { nonce },
        }
    }

    /// Acknowledges command `req_seq` under its own key.
    pub fn ack_with_key(req_seq: u32, key_id: KeyId) -> (r: CommandResponse)
        ensures
            r == CommandResponse::spec_ack(req_seq, key_id),
    {
        CommandResponse { req_seq, key_id, body: ResponseBody::Ack }
    }

    /// Refuses command `req_seq` under its own key.
    pub fn err_with_key(req_seq: u32, key_id: KeyId, code: ErrorCode) -> (r: CommandResponse)
        ensures
            r == CommandResponse::spec_err(req_seq, key_id, code),
    {
        CommandResponse { req_seq, key_id, body: ResponseBody::Error(code) }
    }

    /// Announces the session nonce, unprompted and under the default key.
    pub fn nonce_hello(nonce: u32) -> (r: CommandResponse)
        ensures
            r == CommandResponse::spec_nonce_hello(nonce),
    {
        CommandResponse {
            req_seq: 0,
            key_id: KeyId::default(),
            body: ResponseBody::NonceHello { nonce },
        }
    }

    /// Reports an endpoint's address, signal strength and role.
    pub fn announce_reply(
        req_seq: u32,
        key_id: KeyId,
        mac: [u8; 6],
        rssi_dbm: i8,
        role_tag: [u8; 3],
    ) -> (r: CommandResponse)
        ensures
            r == (CommandResponse {
                req_seq,
                key_id,
                body: ResponseBody::AnnounceReply { mac, rssi_dbm, role_tag },
            }),
    {
        CommandResponse {
            req_seq,
            key_id,
            body: ResponseBody::AnnounceReply { mac, rssi_dbm, role_tag },
        }
    }
}

/// A response carries the number and the key that it was made with, and says what it is
/// named after; a nonce is announced under the first key and answers no command.
pub proof fn lemma_response_carries_its_parts(req_seq: u32, key_id: KeyId, code: ErrorCode, nonce: u32)
    ensures
        CommandResponse::spec_ack(req_seq, key_id).req_seq == req_seq,
        CommandResponse::spec_ack(req_seq, key_id).key_id == key_id,
        CommandResponse::spec_ack(req_seq, key_id).body is Ack,
        CommandResponse::spec_err(req_seq, key_id, code).req_seq == req_seq,
        CommandResponse::spec_err(req_seq, key_id, code).key_id == key_id,
        CommandResponse::spec_err(req_seq, key_id, code).body == ResponseBody::Error(code),
        CommandResponse::spec_nonce_hello(nonce).req_seq == 0,
        CommandResponse::spec_nonce_hello(nonce).key_id.raw == 0,
        CommandResponse::spec_nonce_hello(nonce).body == (ResponseBody::NonceHello { nonce }),
{
}

} // verus!
