//! The state-backend adapter's decision core: what each account and block
//! field reads, given the remote node's answer to one query.
//!
//! The functions here own the per-field policy. Fields that may
//! legitimately be empty (an untouched account's balance or code, an unset
//! storage slot) default softly to the type's zero value; fields that report
//! node health (chain id, block number, block hash, origin) fail hard when
//! the node cannot answer, and the failure aborts the whole execution rather
//! than silently substituting a default. The remote calls themselves happen
//! outside this crate; every function here takes the answer as a value and
//! is verified for all possible answers.

use vstd::prelude::*;
use vstd::utf8::encode_utf8;
use crate::hexstr::{bytes_of_hex, hex_decode, hex_encode, hex_of_bytes, is_hex_string};
use crate::values::{
    address_of_str, is_address_str, is_word_str, word_of_str, parse_address, parse_word,
    word_from_u128, word_zero, zero_bytes, Address, Word,
};
use crate::codec::{
    ascii_bytes, base64_encode, base64_of, encode_query, encode_value, query_bytes, value_bytes,
    StateQuery,
};
use crate::errors::{ErrorKind, EvmError};

verus! {

/// Offset added to the node-reported chain id before it reaches callers,
/// keeping local identifiers distinct from externally standardized ones.
pub const BASE_CHAIN_ID: u64 = 33000;

/// Fixed gas price; this field is not sourced remotely.
pub const GAS_PRICE: u64 = 2_000_000_000;

/// One scalar of a remote answer, narrowed to the shapes the policies read.
#[derive(Debug)]
pub enum RemoteValue {
    Null,
    Bool(bool),
    Num(u64),
    Str(String),
}

/// One remote answer: the two elements of the `[success, value]` response
/// sequence, each possibly missing.
#[derive(Debug)]
pub struct RemoteResponse {
    pub first: Option<RemoteValue>,
    pub second: Option<RemoteValue>,
}

/// The answer's success element, read leniently: anything but a true
/// boolean counts as "not successful".
pub open spec fn reported_success(r: RemoteResponse) -> bool {
    match r.first {
        Option::Some(RemoteValue::Bool(b)) => b,
        _ => false,
    }
}

/// A metadata answer is whole when it reports success and carries a value.
pub open spec fn meta_ok(r: RemoteResponse) -> bool {
    reported_success(r) && r.second is Some
}

/// The value element of a metadata answer.
pub open spec fn meta_value(r: RemoteResponse) -> RemoteValue
    recommends
        r.second is Some,
{
    match r.second {
        Option::Some(v) => v,
        Option::None => RemoteValue::Null,
    }
}

/// The number a metadata answer carries; a present but non-numeric value
/// reads as zero.
pub open spec fn meta_num(r: RemoteResponse) -> nat {
    match meta_value(r) {
        RemoteValue::Num(n) => n as nat,
        _ => 0,
    }
}

/// A state lookup finds a value exactly when the node reports success.
pub open spec fn state_present(r: RemoteResponse) -> bool {
    reported_success(r)
}

/// The balance a state answer carries: absent or malformed reads as zero.
pub open spec fn balance_num(r: RemoteResponse) -> nat {
    if state_present(r) {
        match r.second {
            Option::Some(RemoteValue::Num(n)) => n as nat,
            _ => 0,
        }
    } else {
        0
    }
}

/// A nonce answer is acceptable when its shape is whole and any present
/// value is numeric; a malformed present value is a hard failure.
pub open spec fn nonce_ok(r: RemoteResponse) -> bool {
    &&& r.first is Some
    &&& (state_present(r) ==> match r.second {
        Option::Some(RemoteValue::Num(_)) => true,
        _ => false,
    })
}

/// The nonce a state answer carries; an absent entry reads as zero.
pub open spec fn nonce_num(r: RemoteResponse) -> nat {
    if state_present(r) {
        match r.second {
            Option::Some(RemoteValue::Num(n)) => n as nat,
            _ => 0,
        }
    } else {
        0
    }
}

/// The code a state answer carries: the answer text's bytes; an absent
/// entry or a non-text value reads as empty code.
pub open spec fn code_bytes(r: RemoteResponse) -> Seq<u8> {
    if state_present(r) {
        match r.second {
            Option::Some(RemoteValue::Str(s)) => encode_utf8(s@),
            _ => Seq::<u8>::empty(),
        }
    } else {
        Seq::<u8>::empty()
    }
}

/// Decoded bytes copied into the front of a zero-filled 32-byte buffer,
/// truncated when longer.
pub open spec fn pad32(b: Seq<u8>) -> Seq<u8> {
    if b.len() >= 32 {
        b.take(32)
    } else {
        b + zero_bytes((32 - b.len()) as nat)
    }
}

/// The 32-byte storage value a state answer carries: its hex text, decoded
/// and padded; an absent slot or malformed text reads as the all-zero word.
pub open spec fn storage_bytes(r: RemoteResponse) -> Seq<u8> {
    if state_present(r) {
        match r.second {
            Option::Some(RemoteValue::Str(s)) => if is_hex_string(s@) {
                pad32(bytes_of_hex(s@))
            } else {
                zero_bytes(32)
            },
            _ => zero_bytes(32),
        }
    } else {
        zero_bytes(32)
    }
}

/// A blockchain metadata query, by protocol name.
#[derive(Clone, Copy, Debug, PartialEq, Eq, Structural)]
pub enum MetaQuery {
    BlockNumber,
    Timestamp,
    BlockDifficulty,
    BlockGasLimit,
    ChainId,
    Origin,
    BlockHash,
}

pub open spec fn meta_query_name(q: MetaQuery) -> Seq<char> {
    match q {
        MetaQuery::BlockNumber => "BLOCKNUMBER"@,
        MetaQuery::Timestamp => "TIMESTAMP"@,
        MetaQuery::BlockDifficulty => "BLOCKDIFFICULTY"@,
        MetaQuery::BlockGasLimit => "BLOCKGASLIMIT"@,
        MetaQuery::ChainId => "CHAINID"@,
        MetaQuery::Origin => "ORIGIN"@,
        MetaQuery::BlockHash => "BLOCKHASH"@,
    }
}

impl MetaQuery {
    /// The name the transport sends for this query.
    pub fn name(&self) -> (s: String)
        ensures
            s@ == meta_query_name(*self),
    {
        match self {
            MetaQuery::BlockNumber => String::from_str("BLOCKNUMBER"),
            MetaQuery::Timestamp => String::from_str("TIMESTAMP"),
            MetaQuery::BlockDifficulty => String::from_str("BLOCKDIFFICULTY"),
            MetaQuery::BlockGasLimit => String::from_str("BLOCKGASLIMIT"),
            MetaQuery::ChainId => String::from_str("CHAINID"),
            MetaQuery::Origin => String::from_str("ORIGIN"),
            MetaQuery::BlockHash => String::from_str("BLOCKHASH"),
        }
    }
}

/// One account snapshot: balance and nonce, each fetched by its own lookup
/// during one execution.
pub struct AccountBasic {
    pub balance: Word,
    pub nonce: Word,
}

/// Makes one backend per inbound execution request, each bound to the
/// node's socket path.
pub struct ScillaBackendFactory {
    pub path: String,
}

impl ScillaBackendFactory {
    /// A fresh backend for one execution.
    pub fn new_backend(&self) -> (b: ScillaBackend)
        ensures
            b.path_view() == self.path@,
    {
        ScillaBackend::new(self.path.as_str())
    }
}

/// The state-backend adapter: answers the execution engine's reads from
/// remote answers, applying the per-field policy. It holds only the node's
/// socket path; the connection itself lives with the caller that performs
/// the remote calls.
pub struct ScillaBackend {
    path: String,
}

impl ScillaBackend {
    /// The socket path this backend is bound to.
    pub closed spec fn path_view(&self) -> Seq<char> {
        self.path@
    }

    pub fn new(path: &str) -> (b: Self)
        ensures
            b.path_view() == path@,
    {
        ScillaBackend { path: String::from_str(path) }
    }

    /// The path, for the caller that opens the connection.
    pub fn path(&self) -> (s: &str)
        ensures
            s@ == self.path_view(),
    {
        self.path.as_str()
    }

    /// Check a metadata answer: a missing or false success element, or a
    /// missing value, is a hard failure, never a default.
    pub fn meta_result(&self, r: RemoteResponse) -> (out: Result<RemoteValue, EvmError>)
        ensures
            match out {
                Result::Ok(v) => meta_ok(r) && v == meta_value(r),
                Result::Err(e) => !meta_ok(r) && e.kind == ErrorKind::InternalError,
            },
    {
        match r.first {
            Option::Some(RemoteValue::Bool(true)) => match r.second {
                Option::Some(v) => Result::Ok(v),
                Option::None => Result::Err(
                    EvmError::internal(String::from_str("metadata answer held no value")),
                ),
            },
            _ => Result::Err(EvmError::internal(String::from_str("metadata query failed"))),
        }
    }

    /// The unsigned number a metadata answer carries; a present non-numeric
    /// value reads as zero, a failed answer is fatal.
    pub fn meta_u64(&self, r: RemoteResponse) -> (out: Result<u64, EvmError>)
        ensures
            match out {
                Result::Ok(n) => meta_ok(r) && n as nat == meta_num(r),
                Result::Err(e) => !meta_ok(r) && e.kind == ErrorKind::InternalError,
            },
    {
        match self.meta_result(r) {
            Result::Ok(RemoteValue::Num(n)) => Result::Ok(n),
            Result::Ok(_) => Result::Ok(0),
            Result::Err(e) => Result::Err(e),
        }
    }

    fn meta_word(&self, r: RemoteResponse) -> (out: Result<Word, EvmError>)
        ensures
            match out {
                Result::Ok(w) => w.wf() && meta_ok(r) && w.val() == meta_num(r),
                Result::Err(e) => !meta_ok(r) && e.kind == ErrorKind::InternalError,
            },
    {
        match self.meta_u64(r) {
            Result::Ok(n) => Result::Ok(word_from_u128(n as u128)),
            Result::Err(e) => Result::Err(e),
        }
    }

    /// Block number from its metadata answer; absence is fatal.
    pub fn block_number(&self, r: RemoteResponse) -> (out: Result<Word, EvmError>)
        ensures
            match out {
                Result::Ok(w) => w.wf() && meta_ok(r) && w.val() == meta_num(r),
                Result::Err(e) => !meta_ok(r) && e.kind == ErrorKind::InternalError,
            },
    {
        self.meta_word(r)
    }

    /// Block timestamp from its metadata answer; absence is fatal.
    pub fn block_timestamp(&self, r: RemoteResponse) -> (out: Result<Word, EvmError>)
        ensures
            match out {
                Result::Ok(w) => w.wf() && meta_ok(r) && w.val() == meta_num(r),
                Result::Err(e) => !meta_ok(r) && e.kind == ErrorKind::InternalError,
            },
    {
        self.meta_word(r)
    }

    /// Block difficulty from its metadata answer; absence is fatal.
    pub fn block_difficulty(&self, r: RemoteResponse) -> (out: Result<Word, EvmError>)
        ensures
            match out {
                Result::Ok(w) => w.wf() && meta_ok(r) && w.val() == meta_num(r),
                Result::Err(e) => !meta_ok(r) && e.kind == ErrorKind::InternalError,
            },
    {
        self.meta_word(r)
    }

    /// Block gas limit from its metadata answer; absence is fatal.
    pub fn block_gas_limit(&self, r: RemoteResponse) -> (out: Result<Word, EvmError>)
        ensures
            match out {
                Result::Ok(w) => w.wf() && meta_ok(r) && w.val() == meta_num(r),
                Result::Err(e) => !meta_ok(r) && e.kind == ErrorKind::InternalError,
            },
    {
        self.meta_word(r)
    }

    /// Chain id handed to callers: the node-reported id plus the fixed
    /// offset, for every reported id including zero; absence is fatal.
    pub fn chain_id(&self, r: RemoteResponse) -> (out: Result<Word, EvmError>)
        ensures
            match out {
                Result::Ok(w) => w.wf() && meta_ok(r) && w.val() == meta_num(r) + BASE_CHAIN_ID,
                Result::Err(e) => !meta_ok(r) && e.kind == ErrorKind::InternalError,
            },
    {
        match self.meta_u64(r) {
            Result::Ok(n) => Result::Ok(word_from_u128(n as u128 + BASE_CHAIN_ID as u128)),
            Result::Err(e) => Result::Err(e),
        }
    }

    /// Transaction origin from its metadata answer: a 20-byte hex address;
    /// absence or malformed text is fatal.
    pub fn origin(&self, r: RemoteResponse) -> (out: Result<Address, EvmError>)
        ensures
            match out {
                Result::Ok(a) => a.wf() && meta_ok(r) && match meta_value(r) {
                    RemoteValue::Str(s) => is_address_str(s@) && a@ == address_of_str(s@),
                    _ => false,
                },
                Result::Err(e) => e.kind == ErrorKind::InternalError && (!meta_ok(r)
                    || match meta_value(r) {
                    RemoteValue::Str(s) => !is_address_str(s@),
                    _ => true,
                }),
            },
    {
        match self.meta_result(r) {
            Result::Ok(RemoteValue::Str(s)) => match parse_address(s.as_str()) {
                Option::Some(a) => Result::Ok(a),
                Option::None => Result::Err(
                    EvmError::internal(String::from_str("origin answer is not an address")),
                ),
            },
            Result::Ok(_) => Result::Err(
                EvmError::internal(String::from_str("origin answer is not text")),
            ),
            Result::Err(e) => Result::Err(e),
        }
    }

    /// Block hash from its metadata answer: a 32-byte hex value; absence or
    /// malformed text is fatal.
    pub fn block_hash(&self, r: RemoteResponse) -> (out: Result<Word, EvmError>)
        ensures
            match out {
                Result::Ok(w) => w.wf() && meta_ok(r) && match meta_value(r) {
                    RemoteValue::Str(s) => is_word_str(s@) && w@ == word_of_str(s@),
                    _ => false,
                },
                Result::Err(e) => e.kind == ErrorKind::InternalError && (!meta_ok(r)
                    || match meta_value(r) {
                    RemoteValue::Str(s) => !is_word_str(s@),
                    _ => true,
                }),
            },
    {
        match self.meta_result(r) {
            Result::Ok(RemoteValue::Str(s)) => match parse_word(s.as_str()) {
                Option::Some(w) => Result::Ok(w),
                Option::None => Result::Err(
                    EvmError::internal(String::from_str("block hash answer is not a word")),
                ),
            },
            Result::Ok(_) => Result::Err(
                EvmError::internal(String::from_str("block hash answer is not text")),
            ),
            Result::Err(e) => Result::Err(e),
        }
    }

    /// Gas price: a fixed constant.
    pub fn gas_price(&self) -> (w: Word)
        ensures
            w.wf(),
            w.val() == GAS_PRICE,
    {
        word_from_u128(GAS_PRICE as u128)
    }

    /// Base fee equals the gas price.
    pub fn block_base_fee_per_gas(&self) -> (w: Word)
        ensures
            w.wf(),
            w.val() == GAS_PRICE,
    {
        self.gas_price()
    }

    /// Block coinbase is not sourced remotely: a fixed zero address.
    pub fn block_coinbase(&self) -> (a: Address)
        ensures
            a.wf(),
            a@ == zero_bytes(20),
    {
        crate::values::address_zero()
    }

    /// Whether the account exists: exactly when its balance lookup reports
    /// success. A missing answer counts as "does not exist".
    pub fn account_exists(&self, r: RemoteResponse) -> (b: bool)
        ensures
            b == state_present(r),
    {
        match r.first {
            Option::Some(RemoteValue::Bool(b)) => b,
            _ => false,
        }
    }

    /// Balance read: an absent entry or malformed value reads as zero.
    pub fn balance(&self, r: RemoteResponse) -> (w: Word)
        ensures
            w.wf(),
            w.val() == balance_num(r),
    {
        let present = match &r.first {
            Option::Some(RemoteValue::Bool(b)) => *b,
            _ => false,
        };
        if !present {
            return word_zero();
        }
        match r.second {
            Option::Some(RemoteValue::Num(n)) => word_from_u128(n as u128),
            _ => word_zero(),
        }
    }

    /// Nonce read: an absent entry reads as zero; a malformed present value
    /// or a broken response shape is a hard failure.
    pub fn nonce(&self, r: RemoteResponse) -> (out: Result<Word, EvmError>)
        ensures
            match out {
                Result::Ok(w) => w.wf() && nonce_ok(r) && w.val() == nonce_num(r),
                Result::Err(e) => !nonce_ok(r) && e.kind == ErrorKind::InternalError,
            },
    {
        match r.first {
            Option::None => Result::Err(
                EvmError::internal(String::from_str("nonce answer held no success element")),
            ),
            Option::Some(RemoteValue::Bool(true)) => match r.second {
                Option::Some(RemoteValue::Num(n)) => Result::Ok(word_from_u128(n as u128)),
                _ => Result::Err(
                    EvmError::internal(String::from_str("nonce answer is not numeric")),
                ),
            },
            Option::Some(_) => Result::Ok(word_zero()),
        }
    }

    /// Account basics from the two lookups' answers: the balance defaults
    /// softly, the nonce policy may fail hard.
    pub fn basic(&self, balance_r: RemoteResponse, nonce_r: RemoteResponse) -> (out: Result<
        AccountBasic,
        EvmError,
    >)
        ensures
            match out {
                Result::Ok(b) => {
                    &&& b.balance.wf() && b.balance.val() == balance_num(balance_r)
                    &&& b.nonce.wf() && nonce_ok(nonce_r) && b.nonce.val() == nonce_num(nonce_r)
                },
                Result::Err(e) => !nonce_ok(nonce_r) && e.kind == ErrorKind::InternalError,
            },
    {
        let balance = self.balance(balance_r);
        match self.nonce(nonce_r) {
            Result::Ok(nonce) => Result::Ok(AccountBasic { balance, nonce }),
            Result::Err(e) => Result::Err(e),
        }
    }

    /// Code read: the answer text's bytes; an absent entry or a non-text
    /// value reads as empty code.
    pub fn code(&self, r: RemoteResponse) -> (c: Vec<u8>)
        ensures
            c@ == code_bytes(r),
    {
        let present = match &r.first {
            Option::Some(RemoteValue::Bool(b)) => *b,
            _ => false,
        };
        if !present {
            return Vec::new();
        }
        match r.second {
            Option::Some(RemoteValue::Str(s)) => s.as_str().as_bytes_vec(),
            _ => Vec::new(),
        }
    }

    /// Storage read: the node's hex text decoded into the front of a
    /// zero-filled 32-byte word; an absent slot or malformed text reads as
    /// the all-zero word.
    pub fn storage(&self, r: RemoteResponse) -> (w: Word)
        ensures
            w.wf(),
            w@ == storage_bytes(r),
    {
        let present = match &r.first {
            Option::Some(RemoteValue::Bool(b)) => *b,
            _ => false,
        };
        if !present {
            return word_zero();
        }
        match r.second {
            Option::Some(RemoteValue::Str(s)) => match hex_decode(s.as_str()) {
                Option::Some(v) => pad_to_word(v),
                Option::None => word_zero(),
            },
            _ => word_zero(),
        }
    }

    /// "Original" storage equals current storage: writes are postponed to an
    /// external commit step, so within one execution the two views agree.
    pub fn original_storage(&self, r: RemoteResponse) -> (out: Option<Word>)
        ensures
            match out {
                Option::Some(w) => w.wf() && w@ == storage_bytes(r),
                Option::None => false,
            },
    {
        Option::Some(self.storage(r))
    }

    /// The lookup for an account's balance.
    pub fn balance_query(&self) -> (q: StateQuery)
        ensures
            q.wf(),
            q.name@ == "_balance"@,
            q.key_view() is None,
    {
        proof {
            reveal_strlit("_balance");
        }
        let name = String::from_str("_balance");
        assert(name.is_ascii());
        StateQuery { name, key: Option::None }
    }

    /// The lookup for an account's nonce.
    pub fn nonce_query(&self) -> (q: StateQuery)
        ensures
            q.wf(),
            q.name@ == "_nonce"@,
            q.key_view() is None,
    {
        proof {
            reveal_strlit("_nonce");
        }
        let name = String::from_str("_nonce");
        assert(name.is_ascii());
        StateQuery { name, key: Option::None }
    }

    /// The lookup for an account's code.
    pub fn code_query(&self) -> (q: StateQuery)
        ensures
            q.wf(),
            q.name@ == "_code"@,
            q.key_view() is None,
    {
        proof {
            reveal_strlit("_code");
        }
        let name = String::from_str("_code");
        assert(name.is_ascii());
        StateQuery { name, key: Option::None }
    }

    /// The lookup for one storage slot, keyed by its exact 32-byte key.
    pub fn storage_query(&self, key: Word) -> (q: StateQuery)
        requires
            key.wf(),
        ensures
            q.wf(),
            q.name@ == "_evm_storage"@,
            q.key_view() == Option::Some(key@),
    {
        proof {
            reveal_strlit("_evm_storage");
        }
        let name = String::from_str("_evm_storage");
        assert(name.is_ascii());
        StateQuery { name, key: Option::Some(key) }
    }

    /// The transport form of an address: lowercase hex of its 20 bytes.
    pub fn address_arg(&self, a: &Address) -> (s: String)
        ensures
            s@ == hex_of_bytes(a@),
    {
        hex_encode(a.bytes.as_slice())
    }

    /// The transport form of a state query: the base64 text of its binary
    /// message.
    pub fn query_arg(&self, q: &StateQuery) -> (s: String)
        requires
            q.wf(),
        ensures
            s@ == base64_of(q.encoded()),
    {
        let b = encode_query(q);
        base64_encode(&b)
    }

    /// Encode one storage write as the node takes it back: the base64 text
    /// of the slot's query message and of the value's message.
    pub fn encode_storage(&self, key: &Word, value: &Word) -> (r: (String, String))
        requires
            key.wf(),
            value.wf(),
        ensures
            r.0@ == base64_of(query_bytes(ascii_bytes("_evm_storage"@), Option::Some(key@))),
            r.1@ == base64_of(value_bytes(value@)),
    {
        let q = self.storage_query(key.dup());
        let qb = encode_query(&q);
        let vb = encode_value(value);
        (base64_encode(&qb), base64_encode(&vb))
    }
}

fn pad_to_word(v: Vec<u8>) -> (w: Word)
    ensures
        w.wf(),
        w@ == pad32(v@),
{
    let ghost start = v@;
    let mut v = v;
    v.truncate(32);
    proof {
        if start.len() >= 32 {
            assert(v@ =~= start.take(32));
        }
    }
    while v.len() < 32
        invariant
            v@.len() <= 32,
            start.len() < 32 ==> v@ =~= start + zero_bytes((v@.len() - start.len()) as nat),
            start.len() >= 32 ==> v@ =~= start.take(32),
        decreases 32 - v.len(),
    {
        v.push(0u8);
        proof {
            if start.len() < 32 {
                assert(v@ =~= start + zero_bytes((v@.len() - start.len()) as nat));
            }
        }
    }
    proof {
        if start.len() < 32 {
            assert(pad32(start) == start + zero_bytes((32 - start.len()) as nat));
            assert(v@ =~= pad32(start));
        }
    }
    Word { bytes: v }
}

/// A storage slot the node never wrote reads as the all-zero word; and
/// `original_storage` reads the same bytes as `storage` by its contract.
pub proof fn lemma_unwritten_slot_reads_zero(r: RemoteResponse)
    requires
        !state_present(r),
    ensures
        storage_bytes(r) == zero_bytes(32),
{
}

/// An account with no balance entry does not exist and reads a zero
/// balance.
pub proof fn lemma_absent_account_defaults(r: RemoteResponse)
    requires
        !state_present(r),
    ensures
        balance_num(r) == 0,
{
}

} // verus!
