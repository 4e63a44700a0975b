//! Orchestration of one execution request: parse the raw text fields into a
//! typed context before anything runs, and package the engine's outcome for
//! the caller afterwards.
//!
//! The engine itself runs outside this crate, under a supervised call that
//! turns any abrupt failure into the single uniform internal error built
//! here. A request that does not parse is rejected before any remote call.

use vstd::prelude::*;
use crate::hexstr::{bytes_of_hex, hex_decode, hex_encode, hex_of_bytes, is_hex_string};
use crate::values::{
    address_of_str, is_address_str, is_uint_literal, parse_address, parse_uint, pow256,
    uint_literal_val, Address, Word,
};
use crate::errors::{ErrorKind, EvmError};

verus! {

/// Gas limit handed to the engine for every execution.
pub const GAS_LIMIT: u64 = 1_000_000_000;

/// The typed inputs of one execution: contract address, caller, code, call
/// data and apparent value. Immutable for the execution's duration.
pub struct ExecutionContext {
    pub address: Address,
    pub caller: Address,
    pub code: Vec<u8>,
    pub data: Vec<u8>,
    pub apparent_value: Word,
}

/// Whether the five text fields of a request parse: two 20-byte hex
/// addresses, two hex byte strings, and an unsigned integer that fits in
/// 256 bits.
pub open spec fn request_well_formed(
    address: Seq<char>,
    caller: Seq<char>,
    code: Seq<char>,
    data: Seq<char>,
    value: Seq<char>,
) -> bool {
    &&& is_address_str(address)
    &&& is_address_str(caller)
    &&& is_hex_string(code)
    &&& is_hex_string(data)
    &&& is_uint_literal(value)
    &&& uint_literal_val(value) < pow256(32)
}

/// Parse the raw request fields. Exactly the well-formed requests yield a
/// context; anything else is rejected as invalid input, before any remote
/// call is made.
pub fn parse_request(
    address: &str,
    caller: &str,
    code_hex: &str,
    data_hex: &str,
    apparent_value: &str,
) -> (out: Result<ExecutionContext, EvmError>)
    ensures
        match out {
            Result::Ok(c) => {
                &&& request_well_formed(address@, caller@, code_hex@, data_hex@, apparent_value@)
                &&& c.address.wf() && c.address@ == address_of_str(address@)
                &&& c.caller.wf() && c.caller@ == address_of_str(caller@)
                &&& c.code@ == bytes_of_hex(code_hex@)
                &&& c.data@ == bytes_of_hex(data_hex@)
                &&& c.apparent_value.wf() && c.apparent_value.val() == uint_literal_val(
                    apparent_value@,
                )
            },
            Result::Err(e) => {
                &&& !request_well_formed(
                    address@,
                    caller@,
                    code_hex@,
                    data_hex@,
                    apparent_value@,
                )
                &&& e.kind == ErrorKind::InvalidParams
            },
        },
{
    let code = match hex_decode(code_hex) {
        Option::Some(v) => v,
        Option::None => {
            return Result::Err(EvmError::invalid_params(String::from_str("malformed code hex")));
        },
    };
    let data = match hex_decode(data_hex) {
        Option::Some(v) => v,
        Option::None => {
            return Result::Err(
                EvmError::invalid_params(String::from_str("malformed call data hex")),
            );
        },
    };
    let address = match parse_address(address) {
        Option::Some(a) => a,
        Option::None => {
            return Result::Err(
                EvmError::invalid_params(String::from_str("malformed contract address")),
            );
        },
    };
    let caller = match parse_address(caller) {
        Option::Some(a) => a,
        Option::None => {
            return Result::Err(
                EvmError::invalid_params(String::from_str("malformed caller address")),
            );
        },
    };
    let apparent_value = match parse_uint(apparent_value) {
        Option::Some(w) => w,
        Option::None => {
            return Result::Err(
                EvmError::invalid_params(String::from_str("malformed apparent value")),
            );
        },
    };
    Result::Ok(ExecutionContext { address, caller, code, data, apparent_value })
}

/// The class of an engine outcome. A revert or fault still carries a valid
/// result payload; it is not an error of this component.
#[derive(Clone, Copy, Debug, PartialEq, Eq, Structural)]
pub enum ExitClass {
    Succeeded,
    Reverted,
    Faulted,
}

/// Exit reason as reported to the caller: the class, and the engine's
/// detail text for it.
#[derive(Debug)]
pub struct ExitInfo {
    pub class: ExitClass,
    pub detail: String,
}

/// One account's reported change. Produced by the engine's accounting and
/// only carried through here; nothing in this component applies it.
pub enum StateMutation {
    /// The account's new basic state, its code if changed, and its storage
    /// writes in order.
    Modify {
        address: Address,
        balance: Word,
        nonce: Word,
        code: Option<Vec<u8>>,
        storage: Vec<(Word, Word)>,
        reset_storage: bool,
    },
    /// The account is deleted.
    Delete { address: Address },
}

/// One emitted log: source address, ordered topics, payload bytes.
pub struct Log {
    pub address: Address,
    pub topics: Vec<Word>,
    pub data: Vec<u8>,
}

/// The caller-facing result of one execution.
pub struct EvmResult {
    pub exit_reason: ExitInfo,
    pub return_value: String,
    pub apply: Vec<StateMutation>,
    pub logs: Vec<Log>,
}

/// Package an engine outcome: hex-encode the returned bytes, and hand the
/// ordered mutation and log lists through unchanged.
pub fn build_result(
    exit_reason: ExitInfo,
    return_bytes: &[u8],
    apply: Vec<StateMutation>,
    logs: Vec<Log>,
) -> (r: EvmResult)
    ensures
        r.exit_reason == exit_reason,
        r.return_value@ == hex_of_bytes(return_bytes@),
        r.apply == apply,
        r.logs == logs,
{
    EvmResult { exit_reason, return_value: hex_encode(return_bytes), apply, logs }
}

/// The uniform response for an execution that aborted abnormally (a fatal
/// remote-query condition, or any abrupt engine failure): one opaque
/// internal error, with no partial payload.
pub fn execution_failed() -> (e: EvmError)
    ensures
        e.kind == ErrorKind::InternalError,
{
    EvmError::internal(String::from_str("EVM execution failed"))
}

} // verus!
