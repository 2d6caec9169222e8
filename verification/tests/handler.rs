use cairo_felt::Felt as VmFelt;
use cairo_vm::types::exec_scope::ExecutionScopes;
use cairo_vm::types::program::Program;
use cairo_vm::types::relocatable::{MaybeRelocatable as VmValue, Relocatable as VmPointer};
use cairo_vm::vm::runners::cairo_runner::CairoRunner;
use cairo_vm::vm::vm_core::VirtualMachine;
use starknet_syscalls::business_logic_syscall_handler::BusinessLogicSyscallHandler as Handler;
use starknet_syscalls::config::{BlockInfo, StarknetChainId, StarknetGeneralConfig};
use starknet_syscalls::errors::{ExecutionError, StateError, SyscallHandlerError};
use starknet_syscalls::felt::Felt;
use starknet_syscalls::machine::{
    add_memory_segment, get_integer, get_integer_range, get_relocatable, get_usize, insert_value,
    new_machine,
};
use starknet_syscalls::objects::{
    get_execute_entry_point_selector, Address, CallInfo, CallType, ContractDeployment,
    EntryPointType, ExecutionEntryPoint, OrderedEvent, OrderedL2ToL1Message,
    TransactionExecutionContext,
};
use starknet_syscalls::relocatable::{MaybeRelocatable, Relocatable};
use starknet_syscalls::resources::{ExecutionResources, ExecutionResourcesManager};
use starknet_syscalls::state::{CachedState, InMemoryStateReader, StateReader};
use starknet_syscalls::syscall_request::{read_syscall_request, SelectorRequest, SyscallRequest};

type BusinessLogicSyscallHandler = Handler<CachedState<InMemoryStateReader>>;

fn address(segment_index: isize, offset: usize) -> Relocatable {
    Relocatable { segment_index, offset }
}

fn felt(n: u64) -> Felt {
    Felt::from_u64(n)
}

fn integer(n: u64) -> MaybeRelocatable {
    MaybeRelocatable::Int(felt(n))
}

fn pointer(segment_index: isize, offset: usize) -> MaybeRelocatable {
    MaybeRelocatable::RelocatableValue(address(segment_index, offset))
}

/// A machine of two segments, with values from the start of the second on.
fn machine_with(values: &[MaybeRelocatable]) -> VirtualMachine {
    let mut vm = new_machine();
    add_memory_segment(&mut vm);
    add_memory_segment(&mut vm);
    for (offset, value) in values.iter().enumerate() {
        insert_value(&mut vm, address(1, offset), *value).unwrap();
    }
    vm
}

/// A handler of the contract 100, called by 200.
fn handler() -> BusinessLogicSyscallHandler {
    let mut handler = BusinessLogicSyscallHandler::default();
    handler.contract_address = Address(felt(100));
    handler.caller_address = Address(felt(200));
    handler
}

fn hash_ending_in(byte: u8) -> [u8; 32] {
    let mut hash = [0; 32];
    hash[31] = byte;
    hash
}

#[test]
fn can_allocate_segment() {
    let mut syscall_handler = BusinessLogicSyscallHandler::default();
    let mut vm = VirtualMachine::new(false);
    let data = vec![MaybeRelocatable::Int(felt(7))];

    let segment_start = syscall_handler.allocate_segment(&mut vm, data).unwrap();
    let expected_value = vm.get_integer(&VmPointer::from((0, 0))).unwrap().into_owned();
    assert_eq!(address(0, 0), segment_start);
    assert_eq!(expected_value, VmFelt::new(7));
}

#[test]
fn test_get_block_number() {
    let mut syscall = BusinessLogicSyscallHandler::default();
    let mut vm = VirtualMachine::new(false);

    vm.add_memory_segment();
    vm.add_memory_segment();
    vm.insert_value::<VmFelt>(&VmPointer::from((1, 0)), VmFelt::new(0)).unwrap();

    assert_eq!(syscall.get_block_number(&mut vm, address(1, 0)), Ok(()));
    assert_eq!(
        vm.get_integer(&VmPointer::from((1, 1))).map(|value| value.into_owned()),
        Ok(VmFelt::new(0)),
    );
}

#[test]
fn test_get_contract_address_ok() {
    let mut syscall = BusinessLogicSyscallHandler::default();
    let mut vm = VirtualMachine::new(false);

    vm.add_memory_segment();
    vm.add_memory_segment();

    vm.insert_value::<VmFelt>(&VmPointer::from((1, 0)), VmFelt::new(0)).unwrap();

    assert_eq!(
        syscall._get_contract_address(&vm, address(1, 0)),
        Ok(syscall.contract_address)
    )
}

#[test]
fn deploy_from_zero_error() {
    let mut syscall = BusinessLogicSyscallHandler::default();
    let vm = machine_with(&[integer(0), integer(1), integer(2), integer(3), pointer(1, 20), integer(4)]);

    assert_eq!(
        syscall._deploy(&vm, address(1, 0)),
        Err(SyscallHandlerError::DeployFromZero(4))
    )
}

#[test]
fn handler_for_testing() {
    let block_info = BlockInfo { block_number: 8, ..BlockInfo::default() };
    let handler = BusinessLogicSyscallHandler::new_for_testing(
        block_info,
        Address(felt(55)),
        CachedState::default(),
    );
    assert_eq!(handler.contract_address, Address(felt(1)));
    assert_eq!(handler.caller_address, Address(felt(0)));
    assert_eq!(handler.starknet_storage_state.contract_address, Address(felt(1)));
    assert_eq!(handler.general_config.block_info, block_info);
    assert_eq!(*handler.get_block_info(), block_info);
    assert_eq!(
        handler.general_config.starknet_os_config.chain_id,
        StarknetChainId::TestNet
    );
    assert_eq!(handler.tx_execution_context, TransactionExecutionContext::default());
    assert_eq!(handler.expected_syscall_ptr, address(0, 0));
    assert_eq!(handler.tx_info_ptr, None);
    assert!(handler.events.is_empty());
    assert!(handler.l2_to_l1_messages.is_empty());
    assert!(handler.read_only_segments.is_empty());
    assert!(handler.internal_calls.is_empty());
    let expected = ExecutionResourcesManager::new(
        vec![
            "emit_event".to_string(),
            "deploy".to_string(),
            "get_tx_info".to_string(),
            "send_message_to_l1".to_string(),
            "library_call".to_string(),
            "get_caller_address".to_string(),
            "get_contract_address".to_string(),
            "get_sequencer_address".to_string(),
            "get_block_timestamp".to_string(),
        ],
        ExecutionResources::default(),
    );
    assert_eq!(handler.resources_manager, expected);
}

#[test]
fn new_handler_keeps_what_it_is_given() {
    let tx = TransactionExecutionContext { n_emitted_events: 2, ..Default::default() };
    let resources = ExecutionResourcesManager::new(vec![], ExecutionResources::default());
    let mut state: CachedState<InMemoryStateReader> = CachedState::default();
    state.writes.put(&Address(felt(4)), &hash_ending_in(9), felt(90));
    let mut handler = Handler::new(
        tx,
        state,
        resources,
        Address(felt(3)),
        Address(felt(4)),
        StarknetGeneralConfig::default(),
        address(6, 1),
    );
    assert_eq!(handler.tx_execution_context.n_emitted_events, 2);
    assert_eq!(handler.caller_address, Address(felt(3)));
    assert_eq!(handler.contract_address, Address(felt(4)));
    assert_eq!(handler.expected_syscall_ptr, address(6, 1));
    // The storage is that of the contract, on a copy of the state.
    assert_eq!(handler._storage_read(Address(felt(9))), Ok(felt(90)));
    handler._storage_write(Address(felt(9)), felt(91)).unwrap();
    assert_eq!(handler._storage_read(Address(felt(9))), Ok(felt(91)));
    assert_eq!(
        handler.state.get_storage_at(&Address(felt(4)), &hash_ending_in(9)),
        Ok(felt(90))
    );
}

#[test]
fn storage_gives_back_what_was_written() {
    let mut handler = handler();
    let here = Address(felt(5));
    let there = Address(Felt::from_digits(5, 0, 0, 1).unwrap());
    let nothing = Err(SyscallHandlerError::StateError(StateError::NoneStorage));
    assert_eq!(handler._storage_read(here), nothing);
    assert_eq!(handler._storage_write(here, felt(50)), Ok(()));
    assert_eq!(handler._storage_read(here), Ok(felt(50)));
    assert_eq!(
        handler._storage_read(there),
        Err(SyscallHandlerError::StateError(StateError::NoneStorage))
    );
    assert_eq!(handler._storage_write(there, felt(51)), Ok(()));
    assert_eq!(handler._storage_write(here, felt(52)), Ok(()));
    assert_eq!(handler._storage_read(there), Ok(felt(51)));
    assert_eq!(handler._storage_read(here), Ok(felt(52)));
}

#[test]
fn events_are_numbered_in_order() {
    let mut handler = handler();
    handler.tx_execution_context.n_emitted_events = 7;
    let vm = machine_with(&[
        integer(0),
        integer(2),
        pointer(1, 5),
        integer(1),
        pointer(1, 7),
        integer(31),
        integer(32),
        integer(33),
    ]);
    assert_eq!(handler.emit_event(&vm, address(1, 0)), Ok(()));
    assert_eq!(handler.emit_event(&vm, address(1, 0)), Ok(()));
    let event = |order| OrderedEvent {
        order,
        keys: vec![felt(31), felt(32)],
        data: vec![felt(33)],
    };
    assert_eq!(handler.events, vec![event(7), event(8)]);
    assert_eq!(handler.tx_execution_context.n_emitted_events, 9);
    assert_eq!(handler.resources_manager.get_syscall_counter("emit_event"), 2);
    assert_eq!(handler.expected_syscall_ptr, address(0, 10));
    assert!(handler.l2_to_l1_messages.is_empty());
}

#[test]
fn event_without_keys_and_data() {
    let mut handler = handler();
    let vm = machine_with(&[integer(0), integer(0), pointer(9, 9), integer(0), pointer(9, 9)]);
    assert_eq!(handler.emit_event(&vm, address(1, 0)), Ok(()));
    assert_eq!(handler.events, vec![OrderedEvent { order: 0, keys: vec![], data: vec![] }]);
}

#[test]
fn event_of_an_unreadable_request() {
    let mut handler = handler();
    let vm = machine_with(&[integer(0), integer(2), integer(3), integer(1), pointer(1, 7)]);
    assert_eq!(
        handler.emit_event(&vm, address(1, 0)),
        Err(SyscallHandlerError::InvalidSyscallReadRequest)
    );
    assert!(handler.events.is_empty());
    assert_eq!(handler.tx_execution_context.n_emitted_events, 0);
    // The syscall is counted, but the pointer is not moved past it.
    assert_eq!(handler.resources_manager.get_syscall_counter("emit_event"), 1);
    assert_eq!(handler.expected_syscall_ptr, address(0, 0));
}

#[test]
fn event_whose_data_is_missing() {
    let mut handler = handler();
    let vm = machine_with(&[integer(0), integer(1), pointer(1, 0), integer(2), pointer(1, 3)]);
    assert_eq!(
        handler.emit_event(&vm, address(1, 0)),
        Err(SyscallHandlerError::ExpectedInteger)
    );
    assert!(handler.events.is_empty());
    assert_eq!(handler.expected_syscall_ptr, address(0, 5));
}

#[test]
fn messages_are_numbered_in_order() {
    let mut handler = handler();
    handler.tx_execution_context.n_sent_messages = 3;
    let vm = machine_with(&[integer(0), integer(44), integer(2), pointer(1, 4), integer(45), integer(46)]);
    assert_eq!(handler.send_message_to_l1(&vm, address(1, 0)), Ok(()));
    assert_eq!(handler.send_message_to_l1(&vm, address(1, 0)), Ok(()));
    let message = |order| OrderedL2ToL1Message {
        order,
        to_address: Address(felt(44)),
        payload: vec![felt(45), felt(46)],
    };
    assert_eq!(handler.l2_to_l1_messages, vec![message(3), message(4)]);
    assert_eq!(handler.tx_execution_context.n_sent_messages, 5);
    assert_eq!(handler.tx_execution_context.n_emitted_events, 0);
    assert_eq!(handler.expected_syscall_ptr, address(0, 8));
    assert!(handler.events.is_empty());
}

#[test]
fn message_of_an_unreadable_request() {
    let mut handler = handler();
    let vm = machine_with(&[integer(0), integer(44), integer(2), integer(5)]);
    assert_eq!(
        handler.send_message_to_l1(&vm, address(1, 0)),
        Err(SyscallHandlerError::ExpectedRelocatable)
    );
    let vm = machine_with(&[integer(0), integer(44), integer(2), pointer(1, 3)]);
    assert_eq!(
        handler.send_message_to_l1(&vm, address(1, 0)),
        Err(SyscallHandlerError::ExpectedInteger)
    );
    let large = MaybeRelocatable::Int(Felt::from_u128(u128::MAX));
    let vm = machine_with(&[integer(0), integer(44), large, pointer(1, 3)]);
    assert_eq!(
        handler.send_message_to_l1(&vm, address(1, 0)),
        Err(SyscallHandlerError::FeltToUsizeFail)
    );
    assert!(handler.l2_to_l1_messages.is_empty());
    assert_eq!(handler.resources_manager.get_syscall_counter("send_message_to_l1"), 3);
}

#[test]
fn calls_of_all_kinds() {
    let vm = machine_with(&[integer(0), integer(77), integer(2), integer(1), pointer(1, 5), integer(6)]);
    let call = |contract: u64, caller: u64, entry_point_type, call_type, class_hash| {
        ExecutionEntryPoint {
            contract_address: Address(felt(contract)),
            calldata: vec![felt(6)],
            entry_point_selector: get_execute_entry_point_selector(),
            caller_address: Address(felt(caller)),
            entry_point_type,
            call_type: Some(call_type),
            class_hash,
        }
    };
    let hash = Some(hash_ending_in(77));
    let external = EntryPointType::External;
    let l1 = EntryPointType::L1Handler;
    let cases = [
        ("call_contract", call(77, 100, external, CallType::Call, None)),
        ("delegate_call", call(100, 200, external, CallType::Delegate, None)),
        ("delegate_l1_handler", call(100, 200, l1, CallType::Delegate, None)),
        ("library_call", call(100, 200, external, CallType::Delegate, hash)),
        ("library_call_l1_handler", call(100, 200, l1, CallType::Delegate, hash)),
    ];
    for (name, expected) in cases {
        let mut handler = handler();
        assert_eq!(handler._call_contract(name, &vm, address(1, 0)), Ok(expected));
        assert_eq!(handler.resources_manager.get_syscall_counter(name), 1);
        assert_eq!(handler.expected_syscall_ptr, address(0, 7));
    }
    let mut handler = handler();
    assert_eq!(
        handler.library_call(&vm, address(1, 0)),
        Ok(call(100, 200, external, CallType::Delegate, hash))
    );
    assert_eq!(handler.resources_manager.get_syscall_counter("library_call"), 1);
}

#[test]
fn calls_that_are_refused() {
    let mut handler = handler();
    let vm = machine_with(&[integer(0), integer(77), integer(2), integer(1), pointer(1, 9)]);
    assert_eq!(
        handler._call_contract("call_contract", &vm, address(1, 0)),
        Err(SyscallHandlerError::ExpectedInteger)
    );
    assert_eq!(
        handler._call_contract("get_caller_address", &vm, address(1, 0)),
        Err(SyscallHandlerError::ExpectedCallContract)
    );
    assert_eq!(
        handler._call_contract("call", &vm, address(1, 0)),
        Err(SyscallHandlerError::UnknownSyscall("call".to_string()))
    );
    assert_eq!(handler.resources_manager.get_syscall_counter("call"), 1);
    assert_eq!(
        handler.library_call(&vm, address(0, 0)),
        Err(SyscallHandlerError::ExpectedInteger)
    );
}

#[test]
fn what_a_call_returns() {
    let info = CallInfo { retdata: vec![felt(1), felt(2)] };
    assert_eq!(BusinessLogicSyscallHandler::call_retdata(Ok(info)), vec![felt(1), felt(2)]);
}

#[test]
fn call_response_stands_behind_the_request() {
    let mut handler = handler();
    let mut vm = machine_with(&[integer(0), integer(77), integer(2), integer(0), pointer(1, 0)]);
    let retdata = vec![felt(8), Felt::from_digits(1, 2, 3, 4).unwrap()];
    assert_eq!(
        handler.write_call_response(&mut vm, address(1, 0), vec![retdata[0], retdata[1]]),
        Ok(())
    );
    assert_eq!(get_usize(&vm, address(1, 0), 5), Ok(2));
    let start = get_relocatable(&vm, address(1, 0), 6).unwrap();
    assert_eq!(start, address(2, 0));
    assert_eq!(get_integer_range(&vm, &start, 2), Ok(retdata));
    assert_eq!(handler.read_only_segments, vec![(address(2, 0), integer(2))]);
}

#[test]
fn call_response_finds_its_cells_taken() {
    let mut handler = handler();
    let request = [integer(0), integer(77), integer(2), integer(0), pointer(1, 0), integer(9)];
    let mut vm = machine_with(&request);
    assert_eq!(
        handler.write_call_response(&mut vm, address(1, 0), vec![]),
        Err(SyscallHandlerError::SegmentationFault)
    );
    // The segment of the values was allocated before.
    assert_eq!(handler.read_only_segments, vec![(address(2, 0), integer(0))]);
    assert_eq!(
        handler.write_call_response(&mut vm, address(8, 0), vec![]),
        Err(SyscallHandlerError::SegmentationFault)
    );
}

#[test]
fn deployments() {
    let mut handler = handler();
    let request = |from_zero: u64| {
        machine_with(&[
            integer(0),
            integer(21),
            integer(22),
            integer(2),
            pointer(1, 6),
            integer(from_zero),
            integer(23),
            integer(24),
        ])
    };
    let deployment = |deployer: u64| ContractDeployment {
        contract_address_salt: Address(felt(22)),
        class_hash: felt(21),
        constructor_calldata: vec![felt(23), felt(24)],
        deployer_address: Address(felt(deployer)),
    };
    assert_eq!(handler._deploy(&request(0), address(1, 0)), Ok(deployment(100)));
    assert_eq!(handler._deploy(&request(1), address(1, 0)), Ok(deployment(0)));
    assert_eq!(
        handler._deploy(&request(2), address(1, 0)),
        Err(SyscallHandlerError::DeployFromZero(2))
    );
    assert_eq!(handler.expected_syscall_ptr, address(0, 27));
    assert_eq!(handler.resources_manager.get_syscall_counter("deploy"), 3);
}

#[test]
fn deployments_that_cannot_be_read() {
    let mut handler = handler();
    let large = MaybeRelocatable::Int(Felt::from_u128(1 << 64));
    let vm = machine_with(&[integer(0), integer(21), integer(22), large, pointer(1, 6), integer(0)]);
    assert_eq!(
        handler._deploy(&vm, address(1, 0)),
        Err(SyscallHandlerError::FeltToUsizeFail)
    );
    let vm = machine_with(&[integer(0), integer(21), integer(22), integer(1), pointer(1, 6), integer(0)]);
    assert_eq!(
        handler._deploy(&vm, address(1, 0)),
        Err(SyscallHandlerError::ExpectedInteger)
    );
    let vm = machine_with(&[integer(0), integer(21), integer(22), integer(1), integer(6), integer(0)]);
    assert_eq!(
        handler._deploy(&vm, address(1, 0)),
        Err(SyscallHandlerError::ExpectedRelocatable)
    );
}

#[test]
fn addresses_of_contract_and_caller() {
    let mut handler = handler();
    let vm = machine_with(&[integer(0)]);
    assert_eq!(handler._get_contract_address(&vm, address(1, 0)), Ok(Address(felt(100))));
    assert_eq!(handler._get_caller_address(&vm, address(1, 0)), Ok(Address(felt(200))));
    assert_eq!(handler.expected_syscall_ptr, address(0, 4));
    assert_eq!(
        handler._get_contract_address(&vm, address(1, 1)),
        Err(SyscallHandlerError::ExpectedInteger)
    );
    assert_eq!(
        handler._get_caller_address(&vm, address(1, 1)),
        Err(SyscallHandlerError::ExpectedInteger)
    );
    assert_eq!(handler.expected_syscall_ptr, address(0, 4));
    assert_eq!(handler.resources_manager.get_syscall_counter("get_contract_address"), 2);
    assert_eq!(handler.resources_manager.get_syscall_counter("get_caller_address"), 2);
}

#[test]
fn block_number_of_the_block() {
    let mut handler = handler();
    handler.general_config.block_info.block_number = 123;
    let mut vm = machine_with(&[integer(0)]);
    assert_eq!(handler.get_block_number(&mut vm, address(1, 0)), Ok(()));
    assert_eq!(get_usize(&vm, address(1, 0), 1), Ok(123));
    // Writing the same number again is no conflict; another number is one.
    assert_eq!(handler.get_block_number(&mut vm, address(1, 0)), Ok(()));
    handler.general_config.block_info.block_number = 124;
    assert_eq!(
        handler.get_block_number(&mut vm, address(1, 0)),
        Err(SyscallHandlerError::SegmentationFault)
    );
    assert_eq!(get_usize(&vm, address(1, 0), 1), Ok(123));
    assert_eq!(
        handler.get_block_number(&mut vm, address(1, 5)),
        Err(SyscallHandlerError::ExpectedInteger)
    );
}

#[test]
fn requests_by_name() {
    let mut handler = handler();
    let vm = machine_with(&[integer(17)]);
    let selector = SelectorRequest { selector: felt(17) };
    let cases = [
        ("get_tx_info", SyscallRequest::GetTxInfo(selector)),
        ("get_caller_address", SyscallRequest::GetCallerAddress(selector)),
        ("get_contract_address", SyscallRequest::GetContractAddress(selector)),
        ("get_sequencer_address", SyscallRequest::GetSequencerAddress(selector)),
        ("get_block_number", SyscallRequest::GetBlockNumber(selector)),
        ("get_block_timestamp", SyscallRequest::GetBlockTimestamp(selector)),
    ];
    for (i, (name, request)) in cases.into_iter().enumerate() {
        assert_eq!(read_syscall_request(name, &vm, address(1, 0)), Ok(request));
        assert_eq!(
            handler._read_and_validate_syscall_request(name, &vm, address(1, 0)),
            Ok(request)
        );
        assert_eq!(handler.resources_manager.get_syscall_counter(name), 1);
        assert_eq!(handler.expected_syscall_ptr, address(0, 2 * (i + 1)));
    }
    assert_eq!(
        handler._read_and_validate_syscall_request("get_time", &vm, address(1, 0)),
        Err(SyscallHandlerError::UnknownSyscall("get_time".to_string()))
    );
    assert_eq!(handler.expected_syscall_ptr, address(0, 12));
}

#[test]
fn transaction_is_described_once() {
    let mut handler = handler();
    handler.tx_execution_context = TransactionExecutionContext {
        version: 1,
        account_contract_address: Address(felt(11)),
        max_fee: 12,
        transaction_hash: felt(13),
        signature: vec![felt(14), felt(15)],
        nonce: felt(16),
        ..Default::default()
    };
    let mut vm = machine_with(&[]);
    assert_eq!(handler._get_tx_info_ptr(&mut vm), Ok(address(3, 0)));
    assert_eq!(handler.tx_info_ptr, Some(pointer(3, 0)));
    let start = address(3, 0);
    assert_eq!(
        get_integer_range(&vm, &start, 4),
        Ok(vec![felt(1), felt(11), felt(12), felt(2)])
    );
    let signature = get_relocatable(&vm, start, 4).unwrap();
    assert_eq!(signature, address(2, 0));
    assert_eq!(
        get_integer_range(&vm, &signature, 2),
        Ok(vec![felt(14), felt(15)])
    );
    assert_eq!(
        get_integer_range(&vm, &address(3, 5), 3),
        Ok(vec![felt(13), Felt::from_u128(0x534e5f474f45524c49), felt(16)])
    );
    assert!(get_integer(&vm, start, 8).is_err());
    assert_eq!(
        handler.read_only_segments,
        vec![(address(2, 0), integer(2)), (address(3, 0), integer(8))]
    );
    // Asked again, the handler gives out the same address and allocates nothing.
    assert_eq!(handler._get_tx_info_ptr(&mut vm), Ok(address(3, 0)));
    assert_eq!(handler.read_only_segments.len(), 2);
    assert_eq!(add_memory_segment(&mut vm), address(4, 0));
}

#[test]
fn transaction_address_that_is_no_address() {
    let mut handler = handler();
    handler.tx_info_ptr = Some(integer(4));
    let mut vm = machine_with(&[]);
    assert_eq!(
        handler._get_tx_info_ptr(&mut vm),
        Err(SyscallHandlerError::ExpectedRelocatable)
    );
}

#[test]
fn allocated_segments_follow_each_other() {
    let mut handler = handler();
    let mut vm = machine_with(&[integer(5)]);
    let first = handler.allocate_segment(&mut vm, vec![integer(7), pointer(1, 0)]).unwrap();
    let second = handler.allocate_segment(&mut vm, vec![]).unwrap();
    assert_eq!(first, address(2, 0));
    assert_eq!(second, address(3, 0));
    assert_eq!(handler.read_only_segments, vec![(first, integer(2)), (second, integer(0))]);
    assert_eq!(get_usize(&vm, first, 0), Ok(7));
    assert_eq!(get_relocatable(&vm, first, 1), Ok(address(1, 0)));
    assert_eq!(get_usize(&vm, address(1, 0), 0), Ok(5));
    assert_eq!(get_integer(&vm, second, 0), Err(SyscallHandlerError::ExpectedInteger));
}

#[test]
fn large_integers_survive_memory() {
    let mut handler = handler();
    let mut vm = machine_with(&[]);
    let values = vec![
        Felt::zero(),
        Felt::from_u64(u64::MAX),
        Felt::from_u128(u128::MAX),
        Felt::from_digits(0, 0, 0, 0x0800000000000011).unwrap(),
        Felt::from_digits(1, 2, 3, 4).unwrap(),
    ];
    let cells = values.iter().map(|value| MaybeRelocatable::Int(*value)).collect();
    let start = handler.allocate_segment(&mut vm, cells).unwrap();
    assert_eq!(get_integer_range(&vm, &start, 5), Ok(values));
    assert_eq!(
        vm.get_maybe(&VmPointer::from((2, 4))),
        Ok(Some(VmValue::from(VmFelt::from_bytes_be(
            &Felt::from_digits(1, 2, 3, 4).unwrap().to_bytes_be()
        ))))
    );
    assert_eq!(get_usize(&vm, start, 2), Err(SyscallHandlerError::FeltToUsizeFail));
}

#[test]
fn memory_is_written_once() {
    let mut vm = machine_with(&[integer(1)]);
    assert_eq!(insert_value(&mut vm, address(1, 0), integer(1)), Ok(()));
    assert_eq!(
        insert_value(&mut vm, address(1, 0), integer(2)),
        Err(SyscallHandlerError::SegmentationFault)
    );
    assert_eq!(
        insert_value(&mut vm, address(2, 0), integer(2)),
        Err(SyscallHandlerError::SegmentationFault)
    );
    assert_eq!(
        insert_value(&mut vm, address(-1, 0), integer(2)),
        Err(SyscallHandlerError::SegmentationFault)
    );
    assert_eq!(get_usize(&vm, address(1, 0), 0), Ok(1));
}

#[test]
fn pointers_into_temporary_segments_are_moved() {
    let mut vm = machine_with(&[pointer(-1, 4), pointer(-2, 4)]);
    vm.add_temporary_segment();
    assert_eq!(insert_value(&mut vm, address(-1, 0), integer(9)), Ok(()));
    assert_eq!(get_relocatable(&vm, address(1, 0), 0), Ok(address(-1, 4)));
    vm.add_relocation_rule(VmPointer::from((-1, 0)), VmPointer::from((1, 10))).unwrap();
    assert_eq!(get_relocatable(&vm, address(1, 0), 0), Ok(address(1, 14)));
    assert_eq!(get_relocatable(&vm, address(1, 0), 1), Ok(address(-2, 4)));
    assert_eq!(get_usize(&vm, address(-1, 0), 0), Ok(9));
}

#[test]
fn reads_past_the_last_offset_find_nothing() {
    let vm = machine_with(&[integer(1)]);
    let last = address(1, usize::MAX);
    assert_eq!(get_integer(&vm, last, 0), Err(SyscallHandlerError::ExpectedInteger));
    assert_eq!(get_integer(&vm, last, 1), Err(SyscallHandlerError::ExpectedInteger));
    assert_eq!(get_integer_range(&vm, &last, 0), Ok(vec![]));
    assert_eq!(
        get_integer_range(&vm, &last, usize::MAX),
        Err(SyscallHandlerError::ExpectedInteger)
    );
}

#[test]
fn run_that_stops_elsewhere() {
    let handler = handler();
    let mut vm = machine_with(&[]);
    assert_eq!(
        handler.post_run(&mut vm, address(0, 3)),
        Err(ExecutionError::InvalidStopPointer(address(0, 0), address(0, 3)))
    );
    assert_eq!(handler.post_run(&mut vm, address(0, 0)), Ok(()));
}

#[test]
fn run_that_leaves_the_segments_alone() {
    let mut handler = handler();
    let mut vm = machine_with(&[]);
    handler.allocate_segment(&mut vm, vec![integer(1), integer(2), integer(3)]).unwrap();
    handler.allocate_segment(&mut vm, vec![integer(4)]).unwrap();
    let stop = handler.expected_syscall_ptr;
    assert_eq!(handler.post_run(&mut vm, stop), Err(ExecutionError::InvalidSegmentSize));
    vm.compute_effective_sizes();
    assert_eq!(handler.post_run(&mut vm, stop), Err(ExecutionError::RunNotFinished));

    vm.end_run(&ExecutionScopes::new()).unwrap();
    // In a segment where a cell was accessed, the others are holes. The check marks them.
    vm.mark_address_range_as_accessed(VmPointer::from((2, 1)), 1).unwrap();
    let runner = CairoRunner::new(&Program::default(), "plain", false).unwrap();
    assert_eq!(runner.get_memory_holes(&vm), Ok(2));
    assert_eq!(handler.post_run(&mut vm, stop), Ok(()));
    assert_eq!(runner.get_memory_holes(&vm), Ok(0));
}

#[test]
fn run_that_writes_behind_a_segment() {
    let mut handler = handler();
    let mut vm = machine_with(&[]);
    handler.allocate_segment(&mut vm, vec![integer(1), integer(2), integer(3)]).unwrap();
    let second = handler.allocate_segment(&mut vm, vec![integer(4)]).unwrap();
    insert_value(&mut vm, address(second.segment_index, 1), integer(5)).unwrap();
    vm.compute_effective_sizes();
    vm.end_run(&ExecutionScopes::new()).unwrap();
    vm.mark_address_range_as_accessed(VmPointer::from((2, 0)), 1).unwrap();
    vm.mark_address_range_as_accessed(VmPointer::from((3, 0)), 1).unwrap();
    let runner = CairoRunner::new(&Program::default(), "plain", false).unwrap();
    assert_eq!(runner.get_memory_holes(&vm), Ok(3));
    assert_eq!(
        handler.validate_read_only_segments(&mut vm),
        Err(ExecutionError::OutOfBound)
    );
    // The first segment was checked and marked before the second failed.
    assert_eq!(runner.get_memory_holes(&vm), Ok(1));
}

#[test]
fn segment_whose_size_is_no_integer() {
    let mut handler = handler();
    let mut vm = machine_with(&[integer(1)]);
    handler.read_only_segments.push((address(1, 0), pointer(1, 1)));
    vm.compute_effective_sizes();
    assert_eq!(
        handler.validate_read_only_segments(&mut vm),
        Err(ExecutionError::NotAnInt)
    );
}

#[test]
fn recorded_segment_that_is_no_segment() {
    let mut handler = handler();
    let mut vm = machine_with(&[integer(1)]);
    vm.compute_effective_sizes();
    handler.read_only_segments.push((address(-1, 0), integer(1)));
    assert_eq!(
        handler.validate_read_only_segments(&mut vm),
        Err(ExecutionError::InvalidSegmentSize)
    );
}
