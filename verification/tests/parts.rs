use starknet_syscalls::config::{BlockInfo, StarknetChainId, StarknetGeneralConfig};
use starknet_syscalls::errors::StateError;
use starknet_syscalls::felt::Felt;
use starknet_syscalls::objects::{
    get_execute_entry_point_selector, Address, TransactionExecutionContext, TxInfoStruct,
};
use starknet_syscalls::relocatable::{MaybeRelocatable, Relocatable};
use starknet_syscalls::resources::{ExecutionResources, ExecutionResourcesManager};
use starknet_syscalls::state::{
    CachedState, ContractStorageState, InMemoryStateReader, State, StateReader, StorageLog,
};
use starknet_syscalls::syscall_info::{get_syscall_size_from_name, syscall_from_name, Syscall};

fn address(segment_index: isize, offset: usize) -> Relocatable {
    Relocatable { segment_index, offset }
}

#[test]
fn each_name_has_its_syscall_and_size() {
    let syscalls = [
        ("emit_event", Syscall::EmitEvent, 5),
        ("deploy", Syscall::Deploy, 9),
        ("get_tx_info", Syscall::GetTxInfo, 2),
        ("send_message_to_l1", Syscall::SendMessageToL1, 4),
        ("call_contract", Syscall::CallContract, 7),
        ("delegate_call", Syscall::DelegateCall, 7),
        ("delegate_l1_handler", Syscall::DelegateL1Handler, 7),
        ("library_call", Syscall::LibraryCall, 7),
        ("library_call_l1_handler", Syscall::LibraryCallL1Handler, 7),
        ("get_caller_address", Syscall::GetCallerAddress, 2),
        ("get_contract_address", Syscall::GetContractAddress, 2),
        ("get_sequencer_address", Syscall::GetSequencerAddress, 2),
        ("get_block_number", Syscall::GetBlockNumber, 2),
        ("get_block_timestamp", Syscall::GetBlockTimestamp, 2),
    ];
    for (name, syscall, size) in syscalls {
        assert_eq!(syscall_from_name(name), Some(syscall));
        assert_eq!(get_syscall_size_from_name(name), size);
    }
    assert_eq!(syscall_from_name("emit_events"), None);
    assert_eq!(syscall_from_name(""), None);
}

#[test]
fn selector_of_execute() {
    let bytes = get_execute_entry_point_selector().to_bytes_be();
    let hex: String = bytes.iter().map(|byte| format!("{:02x}", byte)).collect();
    assert_eq!(hex, "015d40a3d6ca2ac30f4031e42be28da9b056fef9bb7357ac5e85627ee876e5ad");
}

#[test]
fn chain_ids_spell_the_names_of_the_chains() {
    let name = |chain: StarknetChainId| {
        let bytes = chain.to_felt().to_bytes_be();
        let text: Vec<u8> = bytes.iter().copied().filter(|byte| *byte != 0).collect();
        String::from_utf8(text).unwrap()
    };
    assert_eq!(name(StarknetChainId::MainNet), "SN_MAIN");
    assert_eq!(name(StarknetChainId::TestNet), "SN_GOERLI");
    assert_eq!(name(StarknetChainId::TestNet2), "SN_GOERLI2");
}

#[test]
fn default_configuration_is_the_test_network() {
    let config = StarknetGeneralConfig::default();
    assert_eq!(config.starknet_os_config.chain_id, StarknetChainId::TestNet);
    assert_eq!(config.block_info, BlockInfo::default());
    assert_eq!(config.block_info.block_number, 0);
    assert_eq!(config.block_info.sequencer_address, Address(Felt::zero()));
}

#[test]
fn distances_within_a_segment() {
    assert_eq!(address(2, 9).sub(&address(2, 4)), Some(5));
    assert_eq!(address(2, 4).sub(&address(2, 4)), Some(0));
    assert_eq!(address(2, 3).sub(&address(2, 4)), None);
    assert_eq!(address(3, 9).sub(&address(2, 4)), None);
}

#[test]
fn only_pointers_have_an_address() {
    let pointer = MaybeRelocatable::RelocatableValue(address(1, 2));
    assert_eq!(pointer.get_relocatable(), Some(address(1, 2)));
    assert_eq!(MaybeRelocatable::Int(Felt::from_u64(1)).get_relocatable(), None);
}

#[test]
fn transaction_info_as_cells() {
    let tx = TransactionExecutionContext {
        n_emitted_events: 3,
        version: 1,
        account_contract_address: Address(Felt::from_u64(11)),
        max_fee: 12,
        transaction_hash: Felt::from_u64(13),
        signature: vec![Felt::from_u64(14), Felt::from_u64(15)],
        nonce: Felt::from_u64(16),
        n_sent_messages: 4,
    };
    let info = TxInfoStruct::new(&tx, address(5, 0), StarknetChainId::MainNet);
    assert_eq!(
        info.to_vec(),
        vec![
            MaybeRelocatable::Int(Felt::from_u64(1)),
            MaybeRelocatable::Int(Felt::from_u64(11)),
            MaybeRelocatable::Int(Felt::from_u64(12)),
            MaybeRelocatable::Int(Felt::from_u64(2)),
            MaybeRelocatable::RelocatableValue(address(5, 0)),
            MaybeRelocatable::Int(Felt::from_u64(13)),
            MaybeRelocatable::Int(Felt::from_u64(0x534e5f4d41494e)),
            MaybeRelocatable::Int(Felt::from_u64(16)),
        ]
    );
}

#[test]
fn counters_count_each_name_on_its_own() {
    let mut manager = ExecutionResourcesManager::new(
        vec!["deploy".to_string(), "emit_event".to_string(), "deploy".to_string()],
        ExecutionResources::default(),
    );
    assert_eq!(manager.get_syscall_counter("deploy"), 0);
    manager.increment_syscall_counter("deploy", 1);
    manager.increment_syscall_counter("deploy", 4);
    assert_eq!(manager.get_syscall_counter("deploy"), 5);
    assert_eq!(manager.get_syscall_counter("emit_event"), 0);
    // A name that was not given at the start counts from zero, too.
    assert_eq!(manager.get_syscall_counter("get_tx_info"), 0);
    manager.increment_syscall_counter("get_tx_info", 2);
    assert_eq!(manager.get_syscall_counter("get_tx_info"), 2);
    assert_eq!(manager.get_syscall_counter("deploy"), 5);
}

#[test]
fn cached_state_reads_its_writes_first() {
    let contract = Address(Felt::from_u64(1));
    let mut reader = InMemoryStateReader::default();
    reader.storage.put(&contract, &[7; 32], Felt::from_u64(70));
    let mut state = CachedState { state_reader: reader, writes: StorageLog::new() };
    assert_eq!(state.get_storage_at(&contract, &[7; 32]), Ok(Felt::from_u64(70)));
    state.set_storage_at(&contract, &[7; 32], Felt::from_u64(71));
    assert_eq!(state.get_storage_at(&contract, &[7; 32]), Ok(Felt::from_u64(71)));
    assert_eq!(state.state_reader.get_storage_at(&contract, &[7; 32]), Ok(Felt::from_u64(70)));
    let other = Address(Felt::from_u64(2));
    assert_eq!(state.get_storage_at(&other, &[7; 32]), Err(StateError::NoneStorage));
    assert_eq!(state.get_storage_at(&contract, &[8; 32]), Err(StateError::NoneStorage));
}

#[test]
fn contract_storage_is_that_of_one_contract() {
    let state: CachedState<InMemoryStateReader> = CachedState::default();
    let mut storage = ContractStorageState::new(state, Address(Felt::from_u64(1)));
    assert_eq!(storage.read(&[1; 32]), Err(StateError::NoneStorage));
    storage.write(&[1; 32], Felt::from_u64(5));
    storage.write(&[1; 32], Felt::from_u64(6));
    assert_eq!(storage.read(&[1; 32]), Ok(Felt::from_u64(6)));
    let mut copy = storage.state.clone();
    assert_eq!(copy.get_storage_at(&Address(Felt::from_u64(1)), &[1; 32]), Ok(Felt::from_u64(6)));
    assert_eq!(
        copy.get_storage_at(&Address(Felt::from_u64(3)), &[1; 32]),
        Err(StateError::NoneStorage)
    );
}
