//! What every call of a handler's function does, told by what lies in memory before and after
//! it. Each law speaks of any call, with its arguments and its result.
use vstd::prelude::*;
use cairo_vm::vm::vm_core::VirtualMachine;
use crate::business_logic_syscall_handler::{request_of, BusinessLogicSyscallHandler};
use crate::errors::SyscallHandlerError;
use crate::felt::{
    be_value, lemma_be_bytes_len, lemma_felt_bytes, lemma_felt_of_value, Felt,
};
use crate::machine::{machine, MachineState};
use crate::objects::{
    execute_entry_point_selector, Address, CallType, ContractDeployment, EntryPointType,
    ExecutionEntryPoint, TransactionExecutionContext,
};
use crate::raw_memory::{
    are_integers_in, fault, has_request, integer_in, is_call_name, is_faultless, is_first_fault,
    only_integers_in, pointer_in, request_fields, response_cells, FieldKind,
};
use crate::relocatable::Relocatable;
use crate::resources::ExecutionResourcesManager;
use crate::state::{State, StateReader};
use crate::syscall_info::{lemma_syscall_names, syscall_named, syscall_size};
use crate::syscall_request::SyscallRequest;

verus! {

/// Whether the two handlers are of one contract, called by one address, on one chain and state.
pub open spec fn same_contract<T: State + StateReader>(
    before: BusinessLogicSyscallHandler<T>,
    after: BusinessLogicSyscallHandler<T>,
) -> bool {
    &&& after.contract_address == before.contract_address
    &&& after.caller_address == before.caller_address
    &&& after.general_config == before.general_config
    &&& after.state == before.state
    &&& after.starknet_storage_state == before.starknet_storage_state
    &&& after.internal_calls == before.internal_calls
}

/// Whether the handler has put out nothing new.
pub open spec fn same_output<T: State + StateReader>(
    before: BusinessLogicSyscallHandler<T>,
    after: BusinessLogicSyscallHandler<T>,
) -> bool {
    &&& after.events == before.events
    &&& after.l2_to_l1_messages == before.l2_to_l1_messages
    &&& after.tx_execution_context == before.tx_execution_context
}

/// Whether the handler has allocated nothing new.
pub open spec fn same_allocations<T: State + StateReader>(
    before: BusinessLogicSyscallHandler<T>,
    after: BusinessLogicSyscallHandler<T>,
) -> bool {
    &&& after.read_only_segments == before.read_only_segments
    &&& after.tx_info_ptr == before.tx_info_ptr
}

/// Whether who asks for the counts of syscalls is told one more for this name, and the same for
/// every other. What Cairo runs have used stays the same.
pub open spec fn counts_one_more(
    before: ExecutionResourcesManager,
    after: ExecutionResourcesManager,
    name: Seq<char>,
) -> bool {
    &&& after.usage() == before.usage()
    &&& forall|asked: &str, told_before: u64, told_after: u64|
        #[trigger] call_ensures(
            ExecutionResourcesManager::get_syscall_counter,
            (&before, asked),
            told_before,
        ) && #[trigger] call_ensures(
            ExecutionResourcesManager::get_syscall_counter,
            (&after, asked),
            told_after,
        ) && told_before < u64::MAX ==> told_after == told_before + if asked@ == name {
            1int
        } else {
            0int
        }
}

/// What handling a syscall does to the counts and to the expected syscall pointer: the syscall
/// is counted in any case, and if memory holds its request, the pointer moves past the request
/// and the response.
pub open spec fn is_registered<T: State + StateReader>(
    before: BusinessLogicSyscallHandler<T>,
    after: BusinessLogicSyscallHandler<T>,
    m: MachineState,
    name: Seq<char>,
    ptr: Relocatable,
) -> bool {
    let cells = if has_request(m, name, ptr) {
        request_fields(name)->0.len() + response_cells(name)
    } else {
        0
    };
    &&& counts_one_more(before.resources_manager, after.resources_manager, name)
    &&& after.expected_syscall_ptr.segment_index == before.expected_syscall_ptr.segment_index
    &&& before.expected_syscall_ptr.offset + cells <= usize::MAX
        ==> after.expected_syscall_ptr.offset == before.expected_syscall_ptr.offset + cells
}

/// What the cell at `k` says of a field of each kind.
pub proof fn lemma_field(m: MachineState, ptr: Relocatable, k: int)
    ensures
        match fault(m, ptr, k, FieldKind::Integer) {
            None => m.felt_field(ptr, k) == Ok::<Felt, SyscallHandlerError>(
                integer_in(m, ptr, k)->0,
            ),
            Some(e) => m.felt_field(ptr, k) == Err::<Felt, _>(e),
        },
        match fault(m, ptr, k, FieldKind::Size) {
            None => m.usize_field(ptr, k) matches Ok(size) && size == integer_in(m, ptr, k)->0@,
            Some(e) => m.usize_field(ptr, k) == Err::<usize, _>(e),
        },
        match fault(m, ptr, k, FieldKind::Pointer) {
            None => m.pointer_field(ptr, k) == Ok::<Relocatable, SyscallHandlerError>(
                pointer_in(m, ptr, k)->0,
            ),
            Some(e) => m.pointer_field(ptr, k) == Err::<Relocatable, _>(e),
        },
{
}

/// What the cells say of the request of an event.
proof fn lemma_emit_event_request(m: MachineState, ptr: Relocatable, kinds: Seq<FieldKind>)
    requires
        kinds == seq![
            FieldKind::Integer,
            FieldKind::Size,
            FieldKind::Pointer,
            FieldKind::Size,
            FieldKind::Pointer,
        ],
    ensures
        m.emit_event_request(ptr) is Ok <==> is_faultless(m, ptr, kinds),
        m.emit_event_request(ptr) matches Err(e) ==> is_first_fault(m, ptr, kinds, e),
{
    assert(kinds[0] == FieldKind::Integer);
    assert(kinds[1] == FieldKind::Size);
    assert(kinds[2] == FieldKind::Pointer);
    assert(kinds[3] == FieldKind::Size);
    assert(kinds[4] == FieldKind::Pointer);
    lemma_field(m, ptr, 0);
    lemma_field(m, ptr, 1);
    lemma_field(m, ptr, 2);
    lemma_field(m, ptr, 3);
    lemma_field(m, ptr, 4);
    if fault(m, ptr, 0, kinds[0]) is Some {
        assert(is_first_fault(m, ptr, kinds, fault(m, ptr, 0, kinds[0])->0));
    } else if fault(m, ptr, 1, kinds[1]) is Some {
        assert(is_first_fault(m, ptr, kinds, fault(m, ptr, 1, kinds[1])->0));
    } else if fault(m, ptr, 2, kinds[2]) is Some {
        assert(is_first_fault(m, ptr, kinds, fault(m, ptr, 2, kinds[2])->0));
    } else if fault(m, ptr, 3, kinds[3]) is Some {
        assert(is_first_fault(m, ptr, kinds, fault(m, ptr, 3, kinds[3])->0));
    } else if fault(m, ptr, 4, kinds[4]) is Some {
        assert(is_first_fault(m, ptr, kinds, fault(m, ptr, 4, kinds[4])->0));
    }
}

/// What the cells say of the request of a deployment.
proof fn lemma_deploy_request(m: MachineState, ptr: Relocatable, kinds: Seq<FieldKind>)
    requires
        kinds == seq![
            FieldKind::Integer,
            FieldKind::Integer,
            FieldKind::Integer,
            FieldKind::Integer,
            FieldKind::Pointer,
            FieldKind::Size,
        ],
    ensures
        m.deploy_request(ptr) is Ok <==> is_faultless(m, ptr, kinds),
        m.deploy_request(ptr) matches Err(e) ==> is_first_fault(m, ptr, kinds, e),
{
    assert(kinds[0] == FieldKind::Integer);
    assert(kinds[1] == FieldKind::Integer);
    assert(kinds[2] == FieldKind::Integer);
    assert(kinds[3] == FieldKind::Integer);
    assert(kinds[4] == FieldKind::Pointer);
    assert(kinds[5] == FieldKind::Size);
    lemma_field(m, ptr, 0);
    lemma_field(m, ptr, 1);
    lemma_field(m, ptr, 2);
    lemma_field(m, ptr, 3);
    lemma_field(m, ptr, 4);
    lemma_field(m, ptr, 5);
    if fault(m, ptr, 0, kinds[0]) is Some {
        assert(is_first_fault(m, ptr, kinds, fault(m, ptr, 0, kinds[0])->0));
    } else if fault(m, ptr, 1, kinds[1]) is Some {
        assert(is_first_fault(m, ptr, kinds, fault(m, ptr, 1, kinds[1])->0));
    } else if fault(m, ptr, 2, kinds[2]) is Some {
        assert(is_first_fault(m, ptr, kinds, fault(m, ptr, 2, kinds[2])->0));
    } else if fault(m, ptr, 3, kinds[3]) is Some {
        assert(is_first_fault(m, ptr, kinds, fault(m, ptr, 3, kinds[3])->0));
    } else if fault(m, ptr, 4, kinds[4]) is Some {
        assert(is_first_fault(m, ptr, kinds, fault(m, ptr, 4, kinds[4])->0));
    } else if fault(m, ptr, 5, kinds[5]) is Some {
        assert(is_first_fault(m, ptr, kinds, fault(m, ptr, 5, kinds[5])->0));
    }
}

/// What the cells say of the request of a call.
proof fn lemma_call_contract_request(m: MachineState, ptr: Relocatable, kinds: Seq<FieldKind>)
    requires
        kinds == seq![
            FieldKind::Integer,
            FieldKind::Integer,
            FieldKind::Integer,
            FieldKind::Size,
            FieldKind::Pointer,
        ],
    ensures
        m.call_contract_request(ptr) is Ok <==> is_faultless(m, ptr, kinds),
        m.call_contract_request(ptr) matches Err(e) ==> is_first_fault(m, ptr, kinds, e),
{
    assert(kinds[0] == FieldKind::Integer);
    assert(kinds[1] == FieldKind::Integer);
    assert(kinds[2] == FieldKind::Integer);
    assert(kinds[3] == FieldKind::Size);
    assert(kinds[4] == FieldKind::Pointer);
    lemma_field(m, ptr, 0);
    lemma_field(m, ptr, 1);
    lemma_field(m, ptr, 2);
    lemma_field(m, ptr, 3);
    lemma_field(m, ptr, 4);
    if fault(m, ptr, 0, kinds[0]) is Some {
        assert(is_first_fault(m, ptr, kinds, fault(m, ptr, 0, kinds[0])->0));
    } else if fault(m, ptr, 1, kinds[1]) is Some {
        assert(is_first_fault(m, ptr, kinds, fault(m, ptr, 1, kinds[1])->0));
    } else if fault(m, ptr, 2, kinds[2]) is Some {
        assert(is_first_fault(m, ptr, kinds, fault(m, ptr, 2, kinds[2])->0));
    } else if fault(m, ptr, 3, kinds[3]) is Some {
        assert(is_first_fault(m, ptr, kinds, fault(m, ptr, 3, kinds[3])->0));
    } else if fault(m, ptr, 4, kinds[4]) is Some {
        assert(is_first_fault(m, ptr, kinds, fault(m, ptr, 4, kinds[4])->0));
    }
}

/// What the cells say of the request of a message.
proof fn lemma_send_message_to_l1_request(m: MachineState, ptr: Relocatable, kinds: Seq<FieldKind>)
    requires
        kinds == seq![
            FieldKind::Integer,
            FieldKind::Integer,
            FieldKind::Size,
            FieldKind::Pointer,
        ],
    ensures
        m.send_message_to_l1_request(ptr) is Ok <==> is_faultless(m, ptr, kinds),
        m.send_message_to_l1_request(ptr) matches Err(e) ==> is_first_fault(m, ptr, kinds, e),
{
    assert(kinds[0] == FieldKind::Integer);
    assert(kinds[1] == FieldKind::Integer);
    assert(kinds[2] == FieldKind::Size);
    assert(kinds[3] == FieldKind::Pointer);
    lemma_field(m, ptr, 0);
    lemma_field(m, ptr, 1);
    lemma_field(m, ptr, 2);
    lemma_field(m, ptr, 3);
    if fault(m, ptr, 0, kinds[0]) is Some {
        assert(is_first_fault(m, ptr, kinds, fault(m, ptr, 0, kinds[0])->0));
    } else if fault(m, ptr, 1, kinds[1]) is Some {
        assert(is_first_fault(m, ptr, kinds, fault(m, ptr, 1, kinds[1])->0));
    } else if fault(m, ptr, 2, kinds[2]) is Some {
        assert(is_first_fault(m, ptr, kinds, fault(m, ptr, 2, kinds[2])->0));
    } else if fault(m, ptr, 3, kinds[3]) is Some {
        assert(is_first_fault(m, ptr, kinds, fault(m, ptr, 3, kinds[3])->0));
    }
}

/// What the cells say of the request of the named syscall.
pub proof fn lemma_request(m: MachineState, name: Seq<char>, ptr: Relocatable)
    ensures
        request_fields(name) is None <==> syscall_named(name) is None,
        has_request(m, name, ptr) <==> request_of(m, name, ptr) is Some,
        syscall_named(name) matches Some(syscall) ==> {
            &&& syscall_size(syscall) == request_fields(name)->0.len() + response_cells(name)
            &&& m.request(syscall, ptr) matches Err(e) ==> is_first_fault(
                m,
                ptr,
                request_fields(name)->0,
                e,
            )
        },
{
    lemma_syscall_names();
    if let Some(kinds) = request_fields(name) {
        if name == "emit_event"@ {
            lemma_emit_event_request(m, ptr, kinds);
        } else if name == "deploy"@ {
            lemma_deploy_request(m, ptr, kinds);
        } else if name == "send_message_to_l1"@ {
            lemma_send_message_to_l1_request(m, ptr, kinds);
        } else if is_call_name(name) {
            lemma_call_contract_request(m, ptr, kinds);
        } else {
            assert(kinds[0] == FieldKind::Integer);
            lemma_field(m, ptr, 0);
            if fault(m, ptr, 0, kinds[0]) is Some {
                assert(is_first_fault(m, ptr, kinds, fault(m, ptr, 0, kinds[0])->0));
            }
        }
    }
}

/// A request is read exactly if memory holds it; otherwise the first wrong field gives the
/// error. Its fields are what the cells hold, one after the other.
pub proof fn law_request_is_what_memory_holds<T: State + StateReader>(
    h: &mut BusinessLogicSyscallHandler<T>,
    name: &str,
    vm: &VirtualMachine,
    ptr: Relocatable,
    r: Result<SyscallRequest, SyscallHandlerError>,
)
    requires
        call_ensures(
            BusinessLogicSyscallHandler::<T>::_read_and_validate_syscall_request,
            (h, name, vm, ptr),
            r,
        ),
    ensures
        request_fields(name@) is None ==> (r matches Err(SyscallHandlerError::UnknownSyscall(unknown))
            && unknown@ == name@),
        request_fields(name@) is Some && r is Err ==> is_first_fault(
            machine(*vm),
            ptr,
            request_fields(name@)->0,
            r->Err_0,
        ),
        r is Ok <==> has_request(machine(*vm), name@, ptr),
        r matches Ok(request) ==> {
            let m = machine(*vm);
            match request {
                SyscallRequest::EmitEvent(q) => {
                    &&& name@ == "emit_event"@
                    &&& integer_in(m, ptr, 0) == Some(q.selector)
                    &&& integer_in(m, ptr, 1)->0@ == q.keys_len
                    &&& pointer_in(m, ptr, 2) == Some(q.keys)
                    &&& integer_in(m, ptr, 3)->0@ == q.data_len
                    &&& pointer_in(m, ptr, 4) == Some(q.data)
                },
                SyscallRequest::Deploy(q) => {
                    &&& name@ == "deploy"@
                    &&& integer_in(m, ptr, 0) == Some(q.selector)
                    &&& integer_in(m, ptr, 1) == Some(q.class_hash)
                    &&& integer_in(m, ptr, 2) == Some(q.contract_address_salt)
                    &&& integer_in(m, ptr, 3) == Some(q.constructor_calldata_size)
                    &&& pointer_in(m, ptr, 4) == Some(q.constructor_calldata)
                    &&& integer_in(m, ptr, 5)->0@ == q.deploy_from_zero
                },
                SyscallRequest::CallContract(q) => {
                    &&& is_call_name(name@)
                    &&& integer_in(m, ptr, 0) == Some(q.selector)
                    &&& integer_in(m, ptr, 1) == Some(q.contract_address.0)
                    &&& integer_in(m, ptr, 1) == Some(q.class_hash)
                    &&& integer_in(m, ptr, 2) == Some(q.function_selector)
                    &&& integer_in(m, ptr, 3)->0@ == q.calldata_size
                    &&& pointer_in(m, ptr, 4) == Some(q.calldata)
                },
                SyscallRequest::SendMessageToL1(q) => {
                    &&& name@ == "send_message_to_l1"@
                    &&& integer_in(m, ptr, 0) == Some(q.selector)
                    &&& integer_in(m, ptr, 1) == Some(q.to_address.0)
                    &&& integer_in(m, ptr, 2)->0@ == q.payload_size
                    &&& pointer_in(m, ptr, 3) == Some(q.payload_ptr)
                },
                SyscallRequest::GetTxInfo(q) => name@ == "get_tx_info"@ && integer_in(m, ptr, 0)
                    == Some(q.selector),
                SyscallRequest::GetCallerAddress(q) => name@ == "get_caller_address"@
                    && integer_in(m, ptr, 0) == Some(q.selector),
                SyscallRequest::GetContractAddress(q) => name@ == "get_contract_address"@
                    && integer_in(m, ptr, 0) == Some(q.selector),
                SyscallRequest::GetSequencerAddress(q) => name@ == "get_sequencer_address"@
                    && integer_in(m, ptr, 0) == Some(q.selector),
                SyscallRequest::GetBlockNumber(q) => name@ == "get_block_number"@ && integer_in(
                    m,
                    ptr,
                    0,
                ) == Some(q.selector),
                SyscallRequest::GetBlockTimestamp(q) => name@ == "get_block_timestamp"@
                    && integer_in(m, ptr, 0) == Some(q.selector),
            }
        },
        is_registered(*old(h), *final(h), machine(*vm), name@, ptr),
        same_contract(*old(h), *final(h)),
        same_output(*old(h), *final(h)),
        same_allocations(*old(h), *final(h)),
{
    lemma_syscall_names();
    lemma_request(machine(*vm), name@, ptr);
}

/// What the cells say of a range of integers.
pub proof fn lemma_range(m: MachineState, p: Relocatable, n: nat)
    ensures
        m.int_range(p, n) is Some <==> only_integers_in(m, p, n as int),
        m.int_range(p, n) matches Some(values) ==> are_integers_in(m, p, n as int, values),
{
    assert forall|k: int| 0 <= k < n implies #[trigger] integer_in(m, p, k) == m.int_at(p, k) by {}
    if m.int_range(p, n) is Some {
        assert forall|k: int| 0 <= k < n implies #[trigger] integer_in(m, p, k) is Some by {
            assert(m.int_at(p, k) is Some);
        }
    }
    if only_integers_in(m, p, n as int) {
        assert forall|k: int| 0 <= k < n implies #[trigger] m.int_at(p, k) is Some by {
            assert(integer_in(m, p, k) is Some);
        }
    }
}

/// Whether `call` is what a contract asks for that makes the named syscall with the request at
/// `ptr`.
pub open spec fn is_call_asked_for<T: State + StateReader>(
    h: BusinessLogicSyscallHandler<T>,
    m: MachineState,
    name: Seq<char>,
    ptr: Relocatable,
    call: ExecutionEntryPoint,
) -> bool {
    let code = integer_in(m, ptr, 1)->0;
    // The arguments are the integers in memory, in the order in which they lie there.
    &&& are_integers_in(
        m,
        pointer_in(m, ptr, 4)->0,
        integer_in(m, ptr, 3)->0@ as int,
        call.calldata@,
    )
    // A plain call goes to the contract that the request names, in this contract's name.
    &&& name == "call_contract"@ ==> {
        &&& call.contract_address.0 == code
        &&& call.caller_address == h.contract_address
        &&& call.call_type == Some(CallType::Call)
    }
    // Every other call is made as this contract, in the name of its caller.
    &&& name != "call_contract"@ ==> {
        &&& call.contract_address == h.contract_address
        &&& call.caller_address == h.caller_address
        &&& call.call_type == Some(CallType::Delegate)
    }
    &&& name == "delegate_l1_handler"@ || name == "library_call_l1_handler"@
        ==> call.entry_point_type == EntryPointType::L1Handler
    &&& name == "call_contract"@ || name == "delegate_call"@ || name == "library_call"@
        ==> call.entry_point_type == EntryPointType::External
    // A library call names a class by its hash.
    &&& name == "library_call"@ || name == "library_call_l1_handler"@ ==> {
        &&& call.class_hash is Some
        &&& call.class_hash->0@.len() == 32
        &&& be_value(call.class_hash->0@) == code@
    }
    &&& name != "library_call"@ && name != "library_call_l1_handler"@ ==> call.class_hash is None
    &&& call.entry_point_selector@
        == 0x15d40a3d6ca2ac30f4031e42be28da9b056fef9bb7357ac5e85627ee876e5adnat
}

/// Whether memory holds the request of a call at `ptr`, and the arguments it names.
pub open spec fn has_call(m: MachineState, name: Seq<char>, ptr: Relocatable) -> bool {
    &&& has_request(m, name, ptr)
    &&& only_integers_in(m, pointer_in(m, ptr, 4)->0, integer_in(m, ptr, 3)->0@ as int)
}

/// A call is prepared exactly if memory holds its request and its arguments, and it is the call
/// that the contract asks for.
pub proof fn law_call_is_what_the_contract_asks_for<T: State + StateReader>(
    h: &mut BusinessLogicSyscallHandler<T>,
    name: &str,
    vm: &VirtualMachine,
    ptr: Relocatable,
    r: Result<ExecutionEntryPoint, SyscallHandlerError>,
)
    requires
        call_ensures(
            BusinessLogicSyscallHandler::<T>::_call_contract,
            (h, name, vm, ptr),
            r,
        ),
    ensures
        r is Ok <==> is_call_name(name@) && has_call(machine(*vm), name@, ptr),
        r matches Ok(call) ==> is_call_asked_for(*old(h), machine(*vm), name@, ptr, call),
        r matches Err(e) ==> if request_fields(name@) is None {
            e matches SyscallHandlerError::UnknownSyscall(unknown) && unknown@ == name@
        } else if !has_request(machine(*vm), name@, ptr) {
            is_first_fault(machine(*vm), ptr, request_fields(name@)->0, e)
        } else if is_call_name(name@) {
            e == SyscallHandlerError::ExpectedInteger
        } else {
            e == SyscallHandlerError::ExpectedCallContract
        },
        is_registered(*old(h), *final(h), machine(*vm), name@, ptr),
        same_contract(*old(h), *final(h)),
        same_output(*old(h), *final(h)),
        same_allocations(*old(h), *final(h)),
{
    let m = machine(*vm);
    lemma_syscall_names();
    lemma_request(m, name@, ptr);
    lemma_call_cells(m, ptr);
    if let Ok(request) = m.call_contract_request(ptr) {
        lemma_range(m, request.calldata, request.calldata_size as nat);
        lemma_felt_bytes(request.class_hash);
        lemma_be_bytes_len(request.class_hash@, 32);
    }
    lemma_felt_of_value(execute_entry_point_selector());
}

/// A library call is prepared as every call is.
pub proof fn law_library_call_is_what_the_contract_asks_for<T: State + StateReader>(
    h: &mut BusinessLogicSyscallHandler<T>,
    vm: &VirtualMachine,
    ptr: Relocatable,
    r: Result<ExecutionEntryPoint, SyscallHandlerError>,
)
    requires
        call_ensures(BusinessLogicSyscallHandler::<T>::library_call, (h, vm, ptr), r),
    ensures
        r is Ok <==> has_call(machine(*vm), "library_call"@, ptr),
        r matches Ok(call) ==> is_call_asked_for(
            *old(h),
            machine(*vm),
            "library_call"@,
            ptr,
            call,
        ),
        r matches Err(e) ==> if !has_request(machine(*vm), "library_call"@, ptr) {
            is_first_fault(machine(*vm), ptr, request_fields("library_call"@)->0, e)
        } else {
            e == SyscallHandlerError::ExpectedInteger
        },
        is_registered(*old(h), *final(h), machine(*vm), "library_call"@, ptr),
        same_contract(*old(h), *final(h)),
        same_output(*old(h), *final(h)),
        same_allocations(*old(h), *final(h)),
{
    let m = machine(*vm);
    lemma_syscall_names();
    lemma_request(m, "library_call"@, ptr);
    lemma_call_cells(m, ptr);
    if let Ok(request) = m.call_contract_request(ptr) {
        lemma_range(m, request.calldata, request.calldata_size as nat);
        lemma_felt_bytes(request.class_hash);
        lemma_be_bytes_len(request.class_hash@, 32);
    }
    lemma_felt_of_value(execute_entry_point_selector());
}

/// The fields of the request of a call are those of its cells.
proof fn lemma_call_cells(m: MachineState, ptr: Relocatable)
    ensures
        m.call_contract_request(ptr) matches Ok(q) ==> {
            &&& integer_in(m, ptr, 1) == Some(q.contract_address.0)
            &&& integer_in(m, ptr, 1) == Some(q.class_hash)
            &&& integer_in(m, ptr, 3) is Some && integer_in(m, ptr, 3)->0@ == q.calldata_size
            &&& pointer_in(m, ptr, 4) == Some(q.calldata)
        },
{
    lemma_field(m, ptr, 1);
    lemma_field(m, ptr, 3);
    lemma_field(m, ptr, 4);
}

/// A deployment is prepared exactly if memory holds its request and its arguments and the flag
/// is zero or one. The class, the salt and the arguments are the integers in memory, whatever
/// their values; the flag decides who deploys.
pub proof fn law_deployment_is_what_the_contract_asks_for<T: State + StateReader>(
    h: &mut BusinessLogicSyscallHandler<T>,
    vm: &VirtualMachine,
    ptr: Relocatable,
    r: Result<ContractDeployment, SyscallHandlerError>,
)
    requires
        call_ensures(BusinessLogicSyscallHandler::<T>::_deploy, (h, vm, ptr), r),
    ensures
        ({
            let m = machine(*vm);
            let size = integer_in(m, ptr, 3)->0@;
            let arguments = pointer_in(m, ptr, 4)->0;
            let flag = integer_in(m, ptr, 5)->0@;
            &&& r is Ok <==> has_request(m, "deploy"@, ptr) && flag <= 1 && size <= usize::MAX
                && only_integers_in(m, arguments, size as int)
            &&& r matches Ok(deployment) ==> {
                &&& integer_in(m, ptr, 1) == Some(deployment.class_hash)
                &&& integer_in(m, ptr, 2) == Some(deployment.contract_address_salt.0)
                &&& are_integers_in(m, arguments, size as int, deployment.constructor_calldata@)
                &&& flag == 0 ==> deployment.deployer_address == old(h).contract_address
                &&& flag == 1 ==> deployment.deployer_address.0@ == 0
            }
            &&& r matches Err(e) ==> if !has_request(m, "deploy"@, ptr) {
                is_first_fault(m, ptr, request_fields("deploy"@)->0, e)
            } else if flag > 1 {
                e matches SyscallHandlerError::DeployFromZero(n) && n == flag
            } else if size > usize::MAX {
                e == SyscallHandlerError::FeltToUsizeFail
            } else {
                e == SyscallHandlerError::ExpectedInteger
            }
        }),
        is_registered(*old(h), *final(h), machine(*vm), "deploy"@, ptr),
        same_contract(*old(h), *final(h)),
        same_output(*old(h), *final(h)),
        same_allocations(*old(h), *final(h)),
{
    let m = machine(*vm);
    lemma_syscall_names();
    lemma_request(m, "deploy"@, ptr);
    lemma_field(m, ptr, 1);
    lemma_field(m, ptr, 2);
    lemma_field(m, ptr, 3);
    lemma_field(m, ptr, 4);
    lemma_field(m, ptr, 5);
    if let Ok(request) = m.deploy_request(ptr) {
        lemma_range(m, request.constructor_calldata, request.constructor_calldata_size@);
    }
    lemma_felt_of_value(0);
}

/// Two requests for different classes never give deployments of one class, and two with
/// different salts never deployments of one salt.
pub proof fn law_different_requests_give_different_deployments<T: State + StateReader>(
    h: &mut BusinessLogicSyscallHandler<T>,
    vm: &VirtualMachine,
    ptr: Relocatable,
    deployment: ContractDeployment,
    other_h: &mut BusinessLogicSyscallHandler<T>,
    other_vm: &VirtualMachine,
    other_ptr: Relocatable,
    other_deployment: ContractDeployment,
)
    requires
        call_ensures(BusinessLogicSyscallHandler::<T>::_deploy, (h, vm, ptr), Ok(deployment)),
        call_ensures(
            BusinessLogicSyscallHandler::<T>::_deploy,
            (other_h, other_vm, other_ptr),
            Ok(other_deployment),
        ),
    ensures
        deployment.class_hash == other_deployment.class_hash <==> integer_in(machine(*vm), ptr, 1)
            == integer_in(machine(*other_vm), other_ptr, 1),
        deployment.contract_address_salt == other_deployment.contract_address_salt <==> integer_in(
            machine(*vm),
            ptr,
            2,
        ) == integer_in(machine(*other_vm), other_ptr, 2),
{
    law_deployment_is_what_the_contract_asks_for(h, vm, ptr, Ok(deployment));
    law_deployment_is_what_the_contract_asks_for(
        other_h,
        other_vm,
        other_ptr,
        Ok(other_deployment),
    );
}

/// An event is emitted exactly if memory holds its request, its keys and its data. It is added
/// behind the events before it, with the integers in memory as its keys and its data, and with
/// the next number. A request that fails puts out nothing.
pub proof fn law_event_is_what_the_contract_emits<T: State + StateReader>(
    h: &mut BusinessLogicSyscallHandler<T>,
    vm: &VirtualMachine,
    ptr: Relocatable,
    r: Result<(), SyscallHandlerError>,
)
    requires
        call_ensures(BusinessLogicSyscallHandler::<T>::emit_event, (h, vm, ptr), r),
        old(h).tx_execution_context.n_emitted_events < usize::MAX,
    ensures
        ({
            let m = machine(*vm);
            let keys_len = integer_in(m, ptr, 1)->0@ as int;
            let keys = pointer_in(m, ptr, 2)->0;
            let data_len = integer_in(m, ptr, 3)->0@ as int;
            let data = pointer_in(m, ptr, 4)->0;
            let n = old(h).events@.len();
            &&& r is Ok <==> has_request(m, "emit_event"@, ptr) && only_integers_in(
                m,
                keys,
                keys_len,
            ) && only_integers_in(m, data, data_len)
            &&& r is Ok ==> {
                &&& final(h).events@.len() == n + 1
                &&& forall|i: int| 0 <= i < n ==> #[trigger] final(h).events@[i] == old(h).events@[i]
                &&& are_integers_in(m, keys, keys_len, final(h).events@[n as int].keys@)
                &&& are_integers_in(m, data, data_len, final(h).events@[n as int].data@)
                &&& final(h).events@[n as int].order == old(h).tx_execution_context.n_emitted_events
                &&& is_next_in_transaction(
                    old(h).tx_execution_context,
                    final(h).tx_execution_context,
                    1,
                    0,
                )
                &&& final(h).l2_to_l1_messages == old(h).l2_to_l1_messages
            }
            &&& r matches Err(e) ==> {
                &&& e == if has_request(m, "emit_event"@, ptr) {
                    SyscallHandlerError::ExpectedInteger
                } else {
                    SyscallHandlerError::InvalidSyscallReadRequest
                }
                &&& same_output(*old(h), *final(h))
            }
        }),
        is_registered(*old(h), *final(h), machine(*vm), "emit_event"@, ptr),
        same_contract(*old(h), *final(h)),
        same_allocations(*old(h), *final(h)),
{
    let m = machine(*vm);
    lemma_syscall_names();
    lemma_request(m, "emit_event"@, ptr);
    lemma_field(m, ptr, 1);
    lemma_field(m, ptr, 2);
    lemma_field(m, ptr, 3);
    lemma_field(m, ptr, 4);
    if let Ok(request) = m.emit_event_request(ptr) {
        lemma_range(m, request.keys, request.keys_len as nat);
        lemma_range(m, request.data, request.data_len as nat);
    }
    let n = old(h).events@.len();
    if r is Ok {
        assert forall|i: int| 0 <= i < n implies #[trigger] final(h).events@[i]
            == old(h).events@[i] by {
            assert(final(h).events@.drop_last()[i] == old(h).events@[i]);
        }
    }
}

/// Whether the transaction goes on with so many more events and messages, and is the same
/// otherwise.
pub open spec fn is_next_in_transaction(
    before: TransactionExecutionContext,
    after: TransactionExecutionContext,
    events: int,
    messages: int,
) -> bool {
    &&& after.n_emitted_events == before.n_emitted_events + events
    &&& after.n_sent_messages == before.n_sent_messages + messages
    &&& after.version == before.version
    &&& after.account_contract_address == before.account_contract_address
    &&& after.max_fee == before.max_fee
    &&& after.transaction_hash == before.transaction_hash
    &&& after.signature@ == before.signature@
    &&& after.nonce == before.nonce
}

/// A message is sent exactly if memory holds its request and its payload. It is added behind the
/// messages before it, for the receiver that the request names, with the integers in memory as
/// its payload, and with the next number. A request that fails puts out nothing.
pub proof fn law_message_is_what_the_contract_sends<T: State + StateReader>(
    h: &mut BusinessLogicSyscallHandler<T>,
    vm: &VirtualMachine,
    ptr: Relocatable,
    r: Result<(), SyscallHandlerError>,
)
    requires
        call_ensures(BusinessLogicSyscallHandler::<T>::send_message_to_l1, (h, vm, ptr), r),
        old(h).tx_execution_context.n_sent_messages < usize::MAX,
    ensures
        ({
            let m = machine(*vm);
            let size = integer_in(m, ptr, 2)->0@ as int;
            let payload = pointer_in(m, ptr, 3)->0;
            let n = old(h).l2_to_l1_messages@.len();
            &&& r is Ok <==> has_request(m, "send_message_to_l1"@, ptr) && only_integers_in(
                m,
                payload,
                size,
            )
            &&& r is Ok ==> {
                let sent = final(h).l2_to_l1_messages@;
                &&& sent.len() == n + 1
                &&& forall|i: int|
                    0 <= i < n ==> #[trigger] final(h).l2_to_l1_messages@[i]
                        == old(h).l2_to_l1_messages@[i]
                &&& integer_in(m, ptr, 1) == Some(sent[n as int].to_address.0)
                &&& are_integers_in(m, payload, size, sent[n as int].payload@)
                &&& sent[n as int].order == old(h).tx_execution_context.n_sent_messages
                &&& is_next_in_transaction(
                    old(h).tx_execution_context,
                    final(h).tx_execution_context,
                    0,
                    1,
                )
                &&& final(h).events == old(h).events
            }
            &&& r matches Err(e) ==> {
                &&& if has_request(m, "send_message_to_l1"@, ptr) {
                    e == SyscallHandlerError::ExpectedInteger
                } else {
                    is_first_fault(m, ptr, request_fields("send_message_to_l1"@)->0, e)
                }
                &&& same_output(*old(h), *final(h))
            }
        }),
        is_registered(*old(h), *final(h), machine(*vm), "send_message_to_l1"@, ptr),
        same_contract(*old(h), *final(h)),
        same_allocations(*old(h), *final(h)),
{
    let m = machine(*vm);
    lemma_syscall_names();
    lemma_request(m, "send_message_to_l1"@, ptr);
    lemma_field(m, ptr, 1);
    lemma_field(m, ptr, 2);
    lemma_field(m, ptr, 3);
    if let Ok(request) = m.send_message_to_l1_request(ptr) {
        lemma_range(m, request.payload_ptr, request.payload_size as nat);
    }
    let n = old(h).l2_to_l1_messages@.len();
    if r is Ok {
        assert forall|i: int| 0 <= i < n implies #[trigger] final(h).l2_to_l1_messages@[i]
            == old(h).l2_to_l1_messages@[i] by {
            assert(final(h).l2_to_l1_messages@.drop_last()[i] == old(h).l2_to_l1_messages@[i]);
        }
    }
}

/// A contract that asks who called it is told the handler's caller, exactly if memory holds its
/// request.
pub proof fn law_caller_is_told<T: State + StateReader>(
    h: &mut BusinessLogicSyscallHandler<T>,
    vm: &VirtualMachine,
    ptr: Relocatable,
    r: Result<Address, SyscallHandlerError>,
)
    requires
        call_ensures(BusinessLogicSyscallHandler::<T>::_get_caller_address, (h, vm, ptr), r),
    ensures
        integer_in(machine(*vm), ptr, 0) is Some ==> r == Ok::<Address, SyscallHandlerError>(
            old(h).caller_address,
        ),
        integer_in(machine(*vm), ptr, 0) is None ==> r == Err::<Address, _>(
            SyscallHandlerError::ExpectedInteger,
        ),
        is_registered(*old(h), *final(h), machine(*vm), "get_caller_address"@, ptr),
        same_contract(*old(h), *final(h)),
        same_output(*old(h), *final(h)),
        same_allocations(*old(h), *final(h)),
{
    lemma_syscall_names();
    lemma_request(machine(*vm), "get_caller_address"@, ptr);
    lemma_field(machine(*vm), ptr, 0);
}

/// A contract that asks for its address is told the handler's contract, exactly if memory holds
/// its request.
pub proof fn law_contract_is_told<T: State + StateReader>(
    h: &mut BusinessLogicSyscallHandler<T>,
    vm: &VirtualMachine,
    ptr: Relocatable,
    r: Result<Address, SyscallHandlerError>,
)
    requires
        call_ensures(BusinessLogicSyscallHandler::<T>::_get_contract_address, (h, vm, ptr), r),
    ensures
        integer_in(machine(*vm), ptr, 0) is Some ==> r == Ok::<Address, SyscallHandlerError>(
            old(h).contract_address,
        ),
        integer_in(machine(*vm), ptr, 0) is None ==> r == Err::<Address, _>(
            SyscallHandlerError::ExpectedInteger,
        ),
        is_registered(*old(h), *final(h), machine(*vm), "get_contract_address"@, ptr),
        same_contract(*old(h), *final(h)),
        same_output(*old(h), *final(h)),
        same_allocations(*old(h), *final(h)),
{
    lemma_syscall_names();
    lemma_request(machine(*vm), "get_contract_address"@, ptr);
    lemma_field(machine(*vm), ptr, 0);
}

} // verus!
