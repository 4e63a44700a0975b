use std::rc::Rc;

use std::collections::BTreeMap;

use evm::backend::{Apply, MemoryBackend, MemoryVicinity};
use evm::executor::stack::{MemoryStackState, StackExecutor, StackSubstateMetadata};
use primitive_types::{H160, H256, U256};

use evm_bridge::orchestrator::{build_result, parse_request, ExitClass, ExitInfo, GAS_LIMIT};
use evm_bridge::values::{Address, Word};

const ZERO_ADDR: &str = "0000000000000000000000000000000000000000";

fn h160_of(a: &Address) -> H160 {
    H160::from_slice(&a.bytes)
}

fn u256_of(w: &Word) -> U256 {
    U256::from_big_endian(&w.bytes)
}

/// A remote side that was never written: an empty in-memory state, so every
/// account is empty and every storage slot reads zero, mirroring the
/// adapter's soft defaults.
fn empty_vicinity() -> MemoryVicinity {
    MemoryVicinity {
        gas_price: U256::zero(),
        origin: H160::zero(),
        chain_id: U256::from(33000u64),
        block_hashes: Vec::new(),
        block_number: U256::zero(),
        block_coinbase: H160::zero(),
        block_timestamp: U256::zero(),
        block_difficulty: U256::zero(),
        block_gas_limit: U256::from(GAS_LIMIT),
        block_base_fee_per_gas: U256::zero(),
        block_randomness: None,
    }
}

fn run(code_hex: &str) -> (evm::ExitReason, Vec<u8>, Vec<(H160, Vec<(H256, H256)>, bool)>, usize) {
    let ctx = parse_request(ZERO_ADDR, ZERO_ADDR, code_hex, "", "0").unwrap();
    let config = evm::Config::london();
    let context = evm::Context {
        address: h160_of(&ctx.address),
        caller: h160_of(&ctx.caller),
        apparent_value: u256_of(&ctx.apparent_value),
    };
    let mut runtime = evm::Runtime::new(
        Rc::new(ctx.code.clone()),
        Rc::new(ctx.data.clone()),
        context,
        config.stack_limit,
        config.memory_limit,
    );
    let metadata = StackSubstateMetadata::new(GAS_LIMIT, &config);
    let vicinity = empty_vicinity();
    let mut backend = MemoryBackend::new(&vicinity, BTreeMap::new());
    let state = MemoryStackState::new(metadata, &mut backend);
    let precompiles = ();
    let mut executor = StackExecutor::new_with_precompiles(state, &config, &precompiles);
    let exit = executor.execute(&mut runtime);
    let return_bytes = runtime.machine().return_value();
    let (applies, logs) = executor.into_state().deconstruct();
    let mut mutations = Vec::new();
    for apply in applies {
        match apply {
            Apply::Modify { address, storage, reset_storage, .. } => {
                mutations.push((address, storage.into_iter().collect(), reset_storage));
            }
            Apply::Delete { address } => {
                mutations.push((address, Vec::new(), false));
            }
        }
    }
    let n_logs = logs.into_iter().count();
    (exit, return_bytes, mutations, n_logs)
}

#[test]
fn trivial_return_succeeds_with_no_storage_writes() {
    // PUSH1 32, PUSH1 0, RETURN: thirty-two zero bytes from untouched memory
    let (exit, return_bytes, mutations, n_logs) = run("60206000f3");
    assert!(exit.is_succeed());
    assert_eq!(return_bytes, vec![0u8; 32]);
    // only the calling/target account's bookkeeping may appear, with no
    // storage writes anywhere
    for (address, storage, _reset) in &mutations {
        assert_eq!(*address, H160::zero());
        assert!(storage.is_empty());
    }
    assert_eq!(n_logs, 0);

    let result = build_result(
        ExitInfo { class: ExitClass::Succeeded, detail: format!("{:?}", exit) },
        &return_bytes,
        Vec::new(),
        Vec::new(),
    );
    assert_eq!(result.return_value, "0".repeat(64));
}

#[test]
fn storage_write_is_observed_by_read_in_same_execution() {
    // PUSH1 42, PUSH1 1, SSTORE; PUSH1 1, SLOAD; PUSH1 0, MSTORE;
    // PUSH1 32, PUSH1 0, RETURN.
    // The remote backend always reads zero, so the 42 that comes back can
    // only have been served by the engine-local cache; the write itself
    // never reaches the remote side and surfaces only in the mutation list.
    let (exit, return_bytes, mutations, _n_logs) = run("602a60015560015460005260206000f3");
    assert!(exit.is_succeed());
    let mut expected = vec![0u8; 32];
    expected[31] = 42;
    assert_eq!(return_bytes, expected);

    let mut found = false;
    for (_address, storage, _reset) in &mutations {
        for (key, value) in storage {
            if *key == H256::from_low_u64_be(1) {
                assert_eq!(*value, H256::from_low_u64_be(42));
                found = true;
            }
        }
    }
    assert!(found, "the storage write must surface in the mutation list");
}
