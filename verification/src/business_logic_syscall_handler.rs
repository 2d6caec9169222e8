//! The handler of the syscalls that a contract makes while it runs.
use vstd::prelude::*;
use cairo_vm::vm::vm_core::VirtualMachine;
use crate::config::{BlockInfo, StarknetGeneralConfig};
use crate::errors::{ExecutionError, SyscallHandlerError};
use crate::felt::{be_bytes, felt_of, Felt};
use crate::machine::{
    add_memory_segment, get_integer_range, insert_value, machine, offset_limit,
    vm_get_segment_used_size, vm_mark_address_range_as_accessed, vm_write_arg, MachineState,
};
use crate::objects::{
    execute_entry_point_selector, felt_to_hash, get_execute_entry_point_selector, tx_info_cells,
    Address, CallInfo, CallType, ClassHash, ContractDeployment, EntryPointType,
    ExecutionEntryPoint, OrderedEvent, OrderedL2ToL1Message, TransactionExecutionContext,
    TxInfoStruct,
};
use crate::relocatable::{MaybeRelocatable, Relocatable};
use crate::resources::{ExecutionResources, ExecutionResourcesManager};
use crate::state::{ContractStorageState, State, StateReader};
use crate::syscall_info::{
    get_syscall_size_from_name, lemma_syscall_names, syscall_from_name, syscall_named,
    syscall_size, Syscall,
};
use crate::syscall_request::{
    read_syscall_request, CallContractRequest, DeployRequest, SyscallRequest,
};

verus! {

/// Handles the syscalls of one contract call.
pub struct BusinessLogicSyscallHandler<T: State + StateReader> {
    pub tx_execution_context: TransactionExecutionContext,
    /// Events emitted by the current contract call.
    pub events: Vec<OrderedEvent>,
    /// A list of dynamically allocated segments that are expected to be read-only.
    pub read_only_segments: Vec<(Relocatable, MaybeRelocatable)>,
    pub resources_manager: ExecutionResourcesManager,
    pub contract_address: Address,
    pub caller_address: Address,
    pub l2_to_l1_messages: Vec<OrderedL2ToL1Message>,
    pub general_config: StarknetGeneralConfig,
    pub tx_info_ptr: Option<MaybeRelocatable>,
    pub state: T,
    pub starknet_storage_state: ContractStorageState<T>,
    pub internal_calls: Vec<CallInfo>,
    /// Where the syscall pointer is expected to stand after the syscalls made so far.
    pub expected_syscall_ptr: Relocatable,
}

/// The request of the named syscall at `ptr`, where there is one.
pub open spec fn request_of(m: MachineState, name: Seq<char>, ptr: Relocatable) -> Option<
    SyscallRequest,
> {
    match syscall_named(name) {
        Some(syscall) => match m.request(syscall, ptr) {
            Ok(request) => Some(request),
            Err(_) => None,
        },
        None => None,
    }
}

/// Whether the count of one syscall went up by one and nothing else changed.
pub open spec fn counted(
    before: ExecutionResourcesManager,
    after: ExecutionResourcesManager,
    name: Seq<char>,
) -> bool {
    &&& after.usage() == before.usage()
    &&& after.syscall_counts() == before.syscall_counts().insert(
        name,
        (before.times(name) + 1) as u64,
    )
}

impl<T: State + StateReader> BusinessLogicSyscallHandler<T> {
    /// Whether the handler's contract, its chain and its storage are those of `other`.
    pub open spec fn keeps_setting(self, other: Self) -> bool {
        &&& self.contract_address == other.contract_address
        &&& self.caller_address == other.caller_address
        &&& self.general_config == other.general_config
        &&& self.state == other.state
        &&& self.starknet_storage_state == other.starknet_storage_state
        &&& self.internal_calls == other.internal_calls
    }

    /// Whether the handler has emitted and sent what `other` has.
    pub open spec fn keeps_output(self, other: Self) -> bool {
        &&& self.events == other.events
        &&& self.l2_to_l1_messages == other.l2_to_l1_messages
        &&& self.tx_execution_context == other.tx_execution_context
    }

    /// Whether the handler has allocated what `other` has.
    pub open spec fn keeps_segments(self, other: Self) -> bool {
        &&& self.read_only_segments == other.read_only_segments
        &&& self.tx_info_ptr == other.tx_info_ptr
    }

    /// Whether the handler has counted the syscalls that `other` has.
    pub open spec fn keeps_requests(self, other: Self) -> bool {
        &&& self.resources_manager == other.resources_manager
        &&& self.expected_syscall_ptr == other.expected_syscall_ptr
    }

    /// Whether one more syscall can be counted, and the syscall pointer moved past it.
    pub open spec fn can_count(self, name: Seq<char>) -> bool {
        &&& self.resources_manager.times(name) < u64::MAX
        &&& syscall_named(name) matches Some(syscall) ==> self.expected_syscall_ptr.offset
            + syscall_size(syscall) <= usize::MAX
    }

    /// What reading a request does: the syscall is counted in any case, and the syscall pointer
    /// is moved past its structure if the request can be read.
    pub open spec fn has_read(
        self,
        before: Self,
        m: MachineState,
        name: Seq<char>,
        ptr: Relocatable,
    ) -> bool {
        &&& counted(before.resources_manager, self.resources_manager, name)
        &&& self.expected_syscall_ptr == if request_of(m, name, ptr) is Some {
            before.expected_syscall_ptr.plus(syscall_size(syscall_named(name)->0) as int)
        } else {
            before.expected_syscall_ptr
        }
    }

    /// The read-only segments start at offsets that leave room for every cell of a segment.
    pub open spec fn wf(self) -> bool {
        forall|i: int|
            0 <= i < self.read_only_segments@.len() ==> (
            #[trigger] self.read_only_segments@[i]).0.offset <= isize::MAX
    }

    /// Increments the syscall count for a given `syscall_name` by 1.
    fn increment_syscall_count(&mut self, syscall_name: &str)
        requires
            old(self).resources_manager.times(syscall_name@) < u64::MAX,
        ensures
            counted(old(self).resources_manager, final(self).resources_manager, syscall_name@),
            final(self).expected_syscall_ptr == old(self).expected_syscall_ptr,
            final(self).keeps_setting(*old(self)),
            final(self).keeps_output(*old(self)),
            final(self).keeps_segments(*old(self)),
    {
        self.resources_manager.increment_syscall_counter(syscall_name, 1);
    }

    /// Counts the syscall, reads its request, and moves the expected syscall pointer past it.
    pub fn _read_and_validate_syscall_request(
        &mut self,
        syscall_name: &str,
        vm: &VirtualMachine,
        syscall_ptr: Relocatable,
    ) -> (r: Result<SyscallRequest, SyscallHandlerError>)
        requires
            machine(*vm).readable(),
            old(self).can_count(syscall_name@),
        ensures
            match syscall_named(syscall_name@) {
                Some(syscall) => r == machine(*vm).request(syscall, syscall_ptr),
                None => r matches Err(SyscallHandlerError::UnknownSyscall(name)) && name@
                    == syscall_name@,
            },
            final(self).has_read(*old(self), machine(*vm), syscall_name@, syscall_ptr),
            final(self).keeps_setting(*old(self)),
            final(self).keeps_output(*old(self)),
            final(self).keeps_segments(*old(self)),
    {
        self.increment_syscall_count(syscall_name);
        let syscall_request = read_syscall_request(syscall_name, vm, syscall_ptr)?;
        self.expected_syscall_ptr.offset = self.expected_syscall_ptr.offset
            + get_syscall_size_from_name(syscall_name);
        Ok(syscall_request)
    }
}

/// Whether the syscall runs the code of another contract, or of a class, in this contract's
/// place.
pub open spec fn is_delegate(syscall: Syscall) -> bool {
    ||| syscall == Syscall::DelegateCall
    ||| syscall == Syscall::DelegateL1Handler
    ||| syscall == Syscall::LibraryCall
    ||| syscall == Syscall::LibraryCallL1Handler
}

/// Whether the syscall calls an entry point that handles messages from L1.
pub open spec fn calls_l1_handler(syscall: Syscall) -> bool {
    syscall == Syscall::DelegateL1Handler || syscall == Syscall::LibraryCallL1Handler
}

/// Whether the syscall says by a class hash whose code is called.
pub open spec fn calls_class(syscall: Syscall) -> bool {
    syscall == Syscall::LibraryCall || syscall == Syscall::LibraryCallL1Handler
}

impl<T: State + StateReader> BusinessLogicSyscallHandler<T> {
    /// Whether `call` is the call that the request asks for. A plain call goes to the contract
    /// of the request and comes from this contract; any other runs as this contract, on behalf
    /// of this contract's caller.
    pub open spec fn asks_for(
        self,
        syscall: Syscall,
        request: CallContractRequest,
        calldata: Seq<Felt>,
        call: ExecutionEntryPoint,
    ) -> bool {
        &&& call.contract_address == if is_delegate(syscall) {
            self.contract_address
        } else {
            request.contract_address
        }
        &&& call.caller_address == if is_delegate(syscall) {
            self.caller_address
        } else {
            self.contract_address
        }
        &&& call.call_type == Some(
            if is_delegate(syscall) {
                CallType::Delegate
            } else {
                CallType::Call
            },
        )
        &&& call.entry_point_type == if calls_l1_handler(syscall) {
            EntryPointType::L1Handler
        } else {
            EntryPointType::External
        }
        &&& if calls_class(syscall) {
            call.class_hash matches Some(hash) && hash@ == be_bytes(request.class_hash@, 32)
        } else {
            call.class_hash is None
        }
        &&& call.entry_point_selector == felt_of(execute_entry_point_selector())
        &&& call.calldata@ == calldata
    }

    /// Reads the request of a call and prepares the call. The caller executes it, on the
    /// handler's state and resources, and hands the outcome to `call_retdata`.
    pub fn _call_contract(
        &mut self,
        syscall_name: &str,
        vm: &VirtualMachine,
        syscall_ptr: Relocatable,
    ) -> (r: Result<ExecutionEntryPoint, SyscallHandlerError>)
        requires
            machine(*vm).readable(),
            old(self).can_count(syscall_name@),
        ensures
            match syscall_named(syscall_name@) {
                None => r matches Err(SyscallHandlerError::UnknownSyscall(name)) && name@
                    == syscall_name@,
                Some(syscall) => match machine(*vm).request(syscall, syscall_ptr) {
                    Err(e) => r == Err::<ExecutionEntryPoint, _>(e),
                    Ok(SyscallRequest::CallContract(request)) => match machine(*vm).int_range(
                        request.calldata,
                        request.calldata_size as nat,
                    ) {
                        Some(calldata) => r matches Ok(call) && old(self).asks_for(
                            syscall,
                            request,
                            calldata,
                            call,
                        ),
                        None => r == Err::<ExecutionEntryPoint, _>(
                            SyscallHandlerError::ExpectedInteger,
                        ),
                    },
                    Ok(_) => r == Err::<ExecutionEntryPoint, _>(
                        SyscallHandlerError::ExpectedCallContract,
                    ),
                },
            },
            final(self).has_read(*old(self), machine(*vm), syscall_name@, syscall_ptr),
            final(self).keeps_setting(*old(self)),
            final(self).keeps_output(*old(self)),
            final(self).keeps_segments(*old(self)),
    {
        // Parse request and prepare the call.
        let request = match self._read_and_validate_syscall_request(syscall_name, vm, syscall_ptr)? {
            SyscallRequest::CallContract(request) => request,
            _ => return Err(SyscallHandlerError::ExpectedCallContract),
        };
        let calldata = get_integer_range(vm, &request.calldata, request.calldata_size)?;

        let mut class_hash: Option<ClassHash> = None;
        let contract_address;
        let caller_address;
        let entry_point_type;
        let call_type;
        match syscall_from_name(syscall_name) {
            Some(Syscall::CallContract) => {
                contract_address = request.contract_address;
                caller_address = self.contract_address;
                entry_point_type = EntryPointType::External;
                call_type = CallType::Call;
            },
            Some(Syscall::DelegateCall) => {
                contract_address = self.contract_address;
                caller_address = self.caller_address;
                entry_point_type = EntryPointType::External;
                call_type = CallType::Delegate;
            },
            Some(Syscall::DelegateL1Handler) => {
                contract_address = self.contract_address;
                caller_address = self.caller_address;
                entry_point_type = EntryPointType::L1Handler;
                call_type = CallType::Delegate;
            },
            Some(Syscall::LibraryCall) => {
                class_hash = Some(felt_to_hash(&request.class_hash));
                contract_address = self.contract_address;
                caller_address = self.caller_address;
                entry_point_type = EntryPointType::External;
                call_type = CallType::Delegate;
            },
            Some(Syscall::LibraryCallL1Handler) => {
                class_hash = Some(felt_to_hash(&request.class_hash));
                contract_address = self.contract_address;
                caller_address = self.caller_address;
                entry_point_type = EntryPointType::L1Handler;
                call_type = CallType::Delegate;
            },
            _ => return Err(SyscallHandlerError::UnknownSyscall(syscall_name.to_owned())),
        }

        Ok(
            ExecutionEntryPoint::new(
                contract_address,
                calldata,
                get_execute_entry_point_selector(),
                caller_address,
                entry_point_type,
                Some(call_type),
                class_hash,
            ),
        )
    }

    /// The values that an executed call returned.
    pub fn call_retdata(outcome: Result<CallInfo, ExecutionError>) -> (r: Vec<Felt>)
        requires
            outcome is Ok,
        ensures
            r == outcome->Ok_0.retdata,
    {
        match outcome {
            Ok(call_info) => call_info.retdata,
            Err(_) => Vec::new(),
        }
    }

    /// Reads the request of a library call and prepares the call, as `_call_contract` does.
    pub fn library_call(&mut self, vm: &VirtualMachine, syscall_ptr: Relocatable) -> (r: Result<
        ExecutionEntryPoint,
        SyscallHandlerError,
    >)
        requires
            machine(*vm).readable(),
            old(self).can_count("library_call"@),
        ensures
            match machine(*vm).call_contract_request(syscall_ptr) {
                Err(e) => r == Err::<ExecutionEntryPoint, _>(e),
                Ok(request) => match machine(*vm).int_range(
                    request.calldata,
                    request.calldata_size as nat,
                ) {
                    Some(calldata) => r matches Ok(call) && old(self).asks_for(
                        Syscall::LibraryCall,
                        request,
                        calldata,
                        call,
                    ),
                    None => r == Err::<ExecutionEntryPoint, _>(
                        SyscallHandlerError::ExpectedInteger,
                    ),
                },
            },
            final(self).has_read(*old(self), machine(*vm), "library_call"@, syscall_ptr),
            final(self).keeps_setting(*old(self)),
            final(self).keeps_output(*old(self)),
            final(self).keeps_segments(*old(self)),
    {
        proof {
            lemma_syscall_names();
        }
        self._call_contract("library_call", vm, syscall_ptr)
    }

    /// Whether `deployment` is the one that the request asks for. A contract that is not
    /// deployed from zero takes this contract as its deployer.
    pub open spec fn asks_to_deploy(
        self,
        request: DeployRequest,
        constructor_calldata: Seq<Felt>,
        deployment: ContractDeployment,
    ) -> bool {
        &&& deployment.contract_address_salt == Address(request.contract_address_salt)
        &&& deployment.class_hash == request.class_hash
        &&& deployment.constructor_calldata@ == constructor_calldata
        &&& deployment.deployer_address == if request.deploy_from_zero == 0 {
            self.contract_address
        } else {
            Address(felt_of(0))
        }
    }

    /// Reads the request of a deployment and checks it. The caller computes the address of the
    /// contract and initializes it.
    pub fn _deploy(&mut self, vm: &VirtualMachine, syscall_ptr: Relocatable) -> (r: Result<
        ContractDeployment,
        SyscallHandlerError,
    >)
        requires
            machine(*vm).readable(),
            old(self).can_count("deploy"@),
        ensures
            match machine(*vm).deploy_request(syscall_ptr) {
                Err(e) => r == Err::<ContractDeployment, _>(e),
                Ok(request) => if request.deploy_from_zero > 1 {
                    r == Err::<ContractDeployment, _>(
                        SyscallHandlerError::DeployFromZero(request.deploy_from_zero),
                    )
                } else if request.constructor_calldata_size@ > usize::MAX {
                    r == Err::<ContractDeployment, _>(SyscallHandlerError::FeltToUsizeFail)
                } else {
                    match machine(*vm).int_range(
                        request.constructor_calldata,
                        request.constructor_calldata_size@,
                    ) {
                        Some(calldata) => r matches Ok(deployment) && old(self).asks_to_deploy(
                            request,
                            calldata,
                            deployment,
                        ),
                        None => r == Err::<ContractDeployment, _>(
                            SyscallHandlerError::ExpectedInteger,
                        ),
                    }
                },
            },
            final(self).has_read(*old(self), machine(*vm), "deploy"@, syscall_ptr),
            final(self).keeps_setting(*old(self)),
            final(self).keeps_output(*old(self)),
            final(self).keeps_segments(*old(self)),
    {
        proof {
            lemma_syscall_names();
        }
        let request = match self._read_and_validate_syscall_request("deploy", vm, syscall_ptr)? {
            SyscallRequest::Deploy(request) => request,
            _ => return Err(SyscallHandlerError::ExpectedDeployRequestStruct),
        };

        if !(request.deploy_from_zero == 0 || request.deploy_from_zero == 1) {
            return Err(SyscallHandlerError::DeployFromZero(request.deploy_from_zero));
        }
        let constructor_calldata_size: usize = match request.constructor_calldata_size.to_usize() {
            Some(size) => size,
            None => return Err(SyscallHandlerError::FeltToUsizeFail),
        };
        let constructor_calldata = get_integer_range(
            vm,
            &request.constructor_calldata,
            constructor_calldata_size,
        )?;

        let deployer_address = if request.deploy_from_zero == 0 {
            self.contract_address
        } else {
            Address(Felt::zero())
        };

        Ok(
            ContractDeployment {
                contract_address_salt: Address(request.contract_address_salt),
                class_hash: request.class_hash,
                constructor_calldata,
                deployer_address,
            },
        )
    }

    /// Emits an event: the handler keeps it, numbered by the events that the transaction has
    /// emitted before.
    pub fn emit_event(&mut self, vm: &VirtualMachine, syscall_ptr: Relocatable) -> (r: Result<
        (),
        SyscallHandlerError,
    >)
        requires
            machine(*vm).readable(),
            old(self).can_count("emit_event"@),
            old(self).tx_execution_context.n_emitted_events < usize::MAX,
        ensures
            match machine(*vm).emit_event_request(syscall_ptr) {
                Err(_) => {
                    &&& r == Err::<(), _>(SyscallHandlerError::InvalidSyscallReadRequest)
                    &&& final(self).keeps_output(*old(self))
                },
                Ok(request) => match (
                    machine(*vm).int_range(request.keys, request.keys_len as nat),
                    machine(*vm).int_range(request.data, request.data_len as nat),
                ) {
                    (Some(keys), Some(data)) => {
                        &&& r is Ok
                        &&& final(self).has_emitted(*old(self), keys, data)
                    },
                    _ => {
                        &&& r == Err::<(), _>(SyscallHandlerError::ExpectedInteger)
                        &&& final(self).keeps_output(*old(self))
                    },
                },
            },
            final(self).has_read(*old(self), machine(*vm), "emit_event"@, syscall_ptr),
            final(self).keeps_setting(*old(self)),
            final(self).keeps_segments(*old(self)),
    {
        let request = match self._read_and_validate_syscall_request("emit_event", vm, syscall_ptr) {
            Ok(SyscallRequest::EmitEvent(request)) => request,
            _ => return Err(SyscallHandlerError::InvalidSyscallReadRequest),
        };

        let order: usize = self.tx_execution_context.n_emitted_events;
        let keys: Vec<Felt> = get_integer_range(vm, &request.keys, request.keys_len)?;
        let data: Vec<Felt> = get_integer_range(vm, &request.data, request.data_len)?;
        self.events.push(OrderedEvent::new(order, keys, data));

        // Update events count.
        self.tx_execution_context.n_emitted_events = order + 1;
        assert(self.events@.drop_last() =~= old(self).events@);
        Ok(())
    }

    /// What emitting an event does to what the handler has put out.
    pub open spec fn has_emitted(self, before: Self, keys: Seq<Felt>, data: Seq<Felt>) -> bool {
        &&& self.events@.len() == before.events@.len() + 1
        &&& self.events@.drop_last() == before.events@
        &&& self.events@.last().order == before.tx_execution_context.n_emitted_events
        &&& self.events@.last().keys@ == keys
        &&& self.events@.last().data@ == data
        &&& self.tx_execution_context == (TransactionExecutionContext {
            n_emitted_events: (before.tx_execution_context.n_emitted_events + 1) as usize,
            ..before.tx_execution_context
        })
        &&& self.l2_to_l1_messages == before.l2_to_l1_messages
    }

    /// What sending a message does to what the handler has put out.
    pub open spec fn has_sent(
        self,
        before: Self,
        to_address: Address,
        payload: Seq<Felt>,
    ) -> bool {
        &&& self.l2_to_l1_messages@.len() == before.l2_to_l1_messages@.len() + 1
        &&& self.l2_to_l1_messages@.drop_last() == before.l2_to_l1_messages@
        &&& self.l2_to_l1_messages@.last().order == before.tx_execution_context.n_sent_messages
        &&& self.l2_to_l1_messages@.last().to_address == to_address
        &&& self.l2_to_l1_messages@.last().payload@ == payload
        &&& self.tx_execution_context == (TransactionExecutionContext {
            n_sent_messages: (before.tx_execution_context.n_sent_messages + 1) as usize,
            ..before.tx_execution_context
        })
        &&& self.events == before.events
    }

    /// Sends a message to L1: the handler keeps it, numbered by the messages that the
    /// transaction has sent before.
    pub fn send_message_to_l1(&mut self, vm: &VirtualMachine, syscall_ptr: Relocatable) -> (r:
        Result<(), SyscallHandlerError>)
        requires
            machine(*vm).readable(),
            old(self).can_count("send_message_to_l1"@),
            old(self).tx_execution_context.n_sent_messages < usize::MAX,
        ensures
            match machine(*vm).send_message_to_l1_request(syscall_ptr) {
                Err(e) => {
                    &&& r == Err::<(), _>(e)
                    &&& final(self).keeps_output(*old(self))
                },
                Ok(request) => match machine(*vm).int_range(
                    request.payload_ptr,
                    request.payload_size as nat,
                ) {
                    Some(payload) => {
                        &&& r is Ok
                        &&& final(self).has_sent(*old(self), request.to_address, payload)
                    },
                    None => {
                        &&& r == Err::<(), _>(SyscallHandlerError::ExpectedInteger)
                        &&& final(self).keeps_output(*old(self))
                    },
                },
            },
            final(self).has_read(*old(self), machine(*vm), "send_message_to_l1"@, syscall_ptr),
            final(self).keeps_setting(*old(self)),
            final(self).keeps_segments(*old(self)),
    {
        proof {
            lemma_syscall_names();
        }
        let request = match self._read_and_validate_syscall_request(
            "send_message_to_l1",
            vm,
            syscall_ptr,
        )? {
            SyscallRequest::SendMessageToL1(request) => request,
            _ => return Err(SyscallHandlerError::ExpectedSendMessageToL1),
        };

        let payload = get_integer_range(vm, &request.payload_ptr, request.payload_size)?;

        self.l2_to_l1_messages.push(
            OrderedL2ToL1Message::new(
                self.tx_execution_context.n_sent_messages,
                request.to_address,
                payload,
            ),
        );

        // Update messages count.
        self.tx_execution_context.n_sent_messages = self.tx_execution_context.n_sent_messages + 1;
        assert(self.l2_to_l1_messages@.drop_last() =~= old(self).l2_to_l1_messages@);
        Ok(())
    }
}

/// The integers as memory cells.
pub open spec fn int_cells(values: Seq<Felt>) -> Seq<MaybeRelocatable> {
    values.map_values(|value: Felt| MaybeRelocatable::Int(value))
}

/// The integers as memory cells.
fn to_int_cells(values: &Vec<Felt>) -> (r: Vec<MaybeRelocatable>)
    ensures
        r@ == int_cells(values@),
        forall|i: int| 0 <= i < values@.len() ==> (#[trigger] values@[i]).is_reduced(),
{
    let mut cells: Vec<MaybeRelocatable> = Vec::new();
    for i in 0..values.len()
        invariant
            cells@ == int_cells(values@.take(i as int)),
            forall|j: int| 0 <= j < i ==> (#[trigger] values@[j]).is_reduced(),
    {
        let value = values[i];
        proof {
            use_type_invariant(&value);
        }
        cells.push(MaybeRelocatable::Int(value));
        assert(int_cells(values@.take(i + 1)) =~= int_cells(values@.take(i as int)).push(
            MaybeRelocatable::Int(values@[i as int]),
        ));
    }
    assert(values@.take(values@.len() as int) =~= values@);
    cells
}

/// The record of a read-only segment: its start and its size.
pub open spec fn segment_record(start: Relocatable, size: nat) -> (Relocatable, MaybeRelocatable) {
    (start, MaybeRelocatable::Int(felt_of(size)))
}

impl<T: State + StateReader> BusinessLogicSyscallHandler<T> {
    /// Writes the data to a new segment, which is expected to stay as it is, and returns its
    /// start.
    pub fn allocate_segment(&mut self, vm: &mut VirtualMachine, data: Vec<MaybeRelocatable>) -> (r:
        Result<Relocatable, SyscallHandlerError>)
        requires
            machine(*old(vm)).can_allocate(),
        ensures
            machine(*final(vm)) == machine(*old(vm)).allocated(data@).0,
            if machine(*old(vm)).allocated(data@).1 {
                let start = machine(*old(vm)).next_segment_start();
                &&& r == Ok::<_, SyscallHandlerError>(start)
                &&& final(self).read_only_segments@ == old(self).read_only_segments@.push(
                    segment_record(start, data@.len()),
                )
                &&& final(self).tx_info_ptr == old(self).tx_info_ptr
                &&& old(self).wf() ==> final(self).wf()
            } else {
                &&& r == Err::<Relocatable, _>(SyscallHandlerError::SegmentationFault)
                &&& final(self).keeps_segments(*old(self))
            },
            machine(*old(vm)).counts_segments() ==> {
                &&& r is Ok
                &&& machine(*final(vm)).counts_segments()
                &&& machine(*final(vm)).holds(machine(*old(vm)).next_segment_start(), data@)
                &&& machine(*final(vm)).keeps_cells(machine(*old(vm)))
                &&& machine(*final(vm)).grows_only_in(
                    machine(*old(vm)),
                    machine(*old(vm)).next_segment_start().segment_index,
                )
                &&& machine(*final(vm)).has_length(
                    machine(*old(vm)).next_segment_start().segment_index,
                    data@.len(),
                )
            },
            machine(*final(vm)).differs_in_cells(machine(*old(vm)).with_new_segment()),
            machine(*final(vm)).next_segment <= isize::MAX,
            machine(*old(vm)).readable() && (forall|i: int|
                0 <= i < data@.len() ==> machine(*old(vm)).can_read(#[trigger] data@[i]))
                ==> machine(*final(vm)).readable(),
            final(self).keeps_setting(*old(self)),
            final(self).keeps_output(*old(self)),
            final(self).keeps_requests(*old(self)),
    {
        assert(data.len() == data@.len());
        let segment_start = add_memory_segment(vm);
        proof {
            let m = machine(*old(vm));
            if m.readable() && (forall|i: int|
                0 <= i < data@.len() ==> m.can_read(#[trigger] data@[i])) {
                assert forall|i: int| 0 <= i < data@.len() implies machine(*vm).can_read(
                    #[trigger] data@[i],
                ) by {
                    assert(m.can_read(data@[i]));
                }
                machine(*vm).lemma_loaded_stays_readable(segment_start, data@);
            }
            machine(*vm).lemma_loaded_changes_cells(segment_start, data@);
            if machine(*old(vm)).counts_segments() {
                machine(*vm).lemma_loaded_into_empty(segment_start, data@);
                let written = machine(*vm).loaded(segment_start, data@).0;
                assert(machine(*vm).cells == machine(*old(vm)).cells);
                assert(written.keeps_cells(machine(*vm)) ==> written.keeps_cells(
                    machine(*old(vm)),
                ));
            }
        }
        let segment_end = match vm_write_arg(vm, segment_start, &data) {
            Ok(end) => end,
            Err(_) => return Err(SyscallHandlerError::SegmentationFault),
        };
        let sub = match segment_end.sub(&segment_start) {
            Some(size) => MaybeRelocatable::Int(Felt::from_usize(size)),
            None => return Err(SyscallHandlerError::SegmentationFault),
        };
        self.read_only_segments.push((segment_start, sub));
        Ok(segment_start)
    }

    /// The address of the cells that describe the transaction. The first call writes them.
    pub fn _get_tx_info_ptr(&mut self, vm: &mut VirtualMachine) -> (r: Result<
        Relocatable,
        SyscallHandlerError,
    >)
        requires
            old(self).tx_info_ptr is None ==> {
                &&& machine(*old(vm)).can_allocate()
                &&& machine(*old(vm)).with_new_segment().can_allocate()
            },
        ensures
            final(self).has_given_tx_info(
                *old(self),
                machine(*old(vm)),
                machine(*final(vm)),
                r,
            ),
            old(self).tx_info_ptr is None && r is Ok ==> machine(*final(vm)).differs_in_cells(
                machine(*old(vm)).with_new_segment().with_new_segment(),
            ),
            old(self).tx_info_ptr is None ==> machine(*final(vm)).next_segment <= isize::MAX,
            old(self).wf() ==> final(self).wf(),
            machine(*old(vm)).readable() ==> machine(*final(vm)).readable(),
            old(self).tx_info_ptr is None && machine(*old(vm)).counts_segments() ==> {
                let signature = machine(*old(vm)).next_segment_start();
                &&& r matches Ok(start) && machine(*final(vm)).holds(
                    start,
                    tx_info_cells(
                        old(self).tx_execution_context,
                        signature,
                        old(self).general_config.starknet_os_config.chain_id,
                    ),
                )
                &&& machine(*final(vm)).holds(
                    signature,
                    int_cells(old(self).tx_execution_context.signature@),
                )
                &&& machine(*final(vm)).keeps_cells(machine(*old(vm)))
            },
            final(self).keeps_setting(*old(self)),
            final(self).keeps_output(*old(self)),
            final(self).keeps_requests(*old(self)),
    {
        if let Some(ptr) = &self.tx_info_ptr {
            return match ptr.get_relocatable() {
                Some(pointer) => Ok(pointer),
                None => Err(SyscallHandlerError::ExpectedRelocatable),
            };
        }
        let signature_data = to_int_cells(&self.tx_execution_context.signature);
        proof {
            machine(*vm).with_new_segment().lemma_loaded_changes_cells(
                machine(*vm).next_segment_start(),
                signature_data@,
            );
        }
        let signature = self.allocate_segment(vm, signature_data)?;

        let tx_info = TxInfoStruct::new(
            &self.tx_execution_context,
            signature,
            self.general_config.starknet_os_config.chain_id,
        );

        let ghost signed = machine(*vm);
        let tx_info_ptr_temp = self.allocate_segment(vm, tx_info.to_vec())?;
        assert(signed.holds(signature, int_cells(self.tx_execution_context.signature@)) && machine(
            *vm,
        ).keeps_cells(signed) ==> machine(*vm).holds(
            signature,
            int_cells(self.tx_execution_context.signature@),
        ));

        self.tx_info_ptr = Some(MaybeRelocatable::RelocatableValue(tx_info_ptr_temp));

        Ok(tx_info_ptr_temp)
    }

    /// What a request for the transaction's cells does, from the machine `m` to the machine
    /// `after`: an address that the handler remembers is given out again, and nothing changes.
    pub open spec fn has_given_tx_info(
        self,
        before: Self,
        m: MachineState,
        after: MachineState,
        r: Result<Relocatable, SyscallHandlerError>,
    ) -> bool {
        match before.tx_info_ptr {
            Some(MaybeRelocatable::RelocatableValue(pointer)) => {
                &&& r == Ok::<_, SyscallHandlerError>(pointer)
                &&& after == m
                &&& self.keeps_segments(before)
            },
            Some(MaybeRelocatable::Int(_)) => {
                &&& r == Err::<Relocatable, _>(SyscallHandlerError::ExpectedRelocatable)
                &&& after == m
                &&& self.keeps_segments(before)
            },
            None => self.has_written_tx_info(before, m, after, r),
        }
    }

    /// What the first request for the transaction's cells does, from the machine `m` to the
    /// machine `after`: the signature gets a segment, the description another. If one of them
    /// cannot be written, the handler remembers no address.
    pub open spec fn has_written_tx_info(
        self,
        before: Self,
        m: MachineState,
        after: MachineState,
        r: Result<Relocatable, SyscallHandlerError>,
    ) -> bool {
        let tx = before.tx_execution_context;
        let (signed, signature_written) = m.allocated(int_cells(tx.signature@));
        let signature = m.next_segment_start();
        let cells = tx_info_cells(tx, signature, before.general_config.starknet_os_config.chain_id);
        let (described, description_written) = signed.allocated(cells);
        let start = signed.next_segment_start();
        let signature_record = segment_record(signature, tx.signature@.len());
        if !signature_written {
            &&& r == Err::<Relocatable, _>(SyscallHandlerError::SegmentationFault)
            &&& after == signed
            &&& self.keeps_segments(before)
        } else if !description_written {
            &&& r == Err::<Relocatable, _>(SyscallHandlerError::SegmentationFault)
            &&& after == described
            &&& self.read_only_segments@ == before.read_only_segments@.push(signature_record)
            &&& self.tx_info_ptr is None
        } else {
            &&& r == Ok::<_, SyscallHandlerError>(start)
            &&& after == described
            &&& self.read_only_segments@ == before.read_only_segments@.push(signature_record).push(
                segment_record(start, 8),
            )
            &&& self.tx_info_ptr == Some(MaybeRelocatable::RelocatableValue(start))
        }
    }

    /// What checking one read-only segment does to the machine, and whether the segment is as
    /// it was made.
    pub open spec fn segment_check(
        m: MachineState,
        segment: (Relocatable, MaybeRelocatable),
    ) -> (MachineState, Result<(), ExecutionError>) {
        match m.used_size(segment.0.segment_index as usize) {
            None => (m, Err(ExecutionError::InvalidSegmentSize)),
            Some(used_size) => match segment.1 {
                MaybeRelocatable::RelocatableValue(_) => (m, Err(ExecutionError::NotAnInt)),
                MaybeRelocatable::Int(size) => if size@ != used_size {
                    (m, Err(ExecutionError::OutOfBound))
                } else if !m.markable() {
                    (m, Err(ExecutionError::RunNotFinished))
                } else {
                    (m.with_marked(segment.0, used_size), Ok(()))
                },
            },
        }
    }

    /// What checking the segments in order does to the machine, up to the first that fails,
    /// and what that failure is.
    pub open spec fn segments_check(
        m: MachineState,
        segments: Seq<(Relocatable, MaybeRelocatable)>,
    ) -> (MachineState, Result<(), ExecutionError>)
        decreases segments.len(),
    {
        if segments.len() == 0 {
            (m, Ok(()))
        } else {
            let (before, outcome) = Self::segments_check(m, segments.drop_last());
            match outcome {
                Ok(_) => Self::segment_check(before, segments.last()),
                Err(e) => (before, Err(e)),
            }
        }
    }

    /// A failure among the first segments is the failure of the whole check.
    proof fn lemma_first_failure(
        m: MachineState,
        segments: Seq<(Relocatable, MaybeRelocatable)>,
        n: int,
    )
        requires
            0 <= n <= segments.len(),
            Self::segments_check(m, segments.take(n)).1 is Err,
        ensures
            Self::segments_check(m, segments) == Self::segments_check(m, segments.take(n)),
        decreases segments.len() - n,
    {
        if n == segments.len() {
            assert(segments.take(n) =~= segments);
        } else {
            assert(segments.take(n + 1).drop_last() =~= segments.take(n));
            Self::lemma_first_failure(m, segments, n + 1);
        }
    }

    /// Validates that there were no out of bounds writes to read-only segments and marks
    /// them as accessed.
    pub fn validate_read_only_segments(&self, runner: &mut VirtualMachine) -> (r: Result<
        (),
        ExecutionError,
    >)
        requires
            self.wf(),
        ensures
            (machine(*final(runner)), r) == Self::segments_check(
                machine(*old(runner)),
                self.read_only_segments@,
            ),
    {
        let ghost m = machine(*old(runner));
        let ghost segments = self.read_only_segments@;
        assert(segments.take(0) =~= Seq::empty());
        for i in 0..self.read_only_segments.len()
            invariant
                self.wf(),
                m == machine(*old(runner)),
                segments == self.read_only_segments@,
                Self::segments_check(m, segments.take(i as int)) == (
                    machine(*runner),
                    Ok::<(), ExecutionError>(()),
                ),
        {
            let (segment_ptr, segment_size) = self.read_only_segments[i];
            proof {
                assert(segments.take(i + 1).drop_last() =~= segments.take(i as int));
                assert(segments.take(i + 1).last() == segments[i as int]);
                if Self::segments_check(m, segments.take(i + 1)).1 is Err {
                    Self::lemma_first_failure(m, segments, i + 1);
                }
            }
            let used_size: usize = match vm_get_segment_used_size(
                runner,
                segment_ptr.segment_index as usize,
            ) {
                Some(size) => size,
                None => return Err(ExecutionError::InvalidSegmentSize),
            };

            let seg_size = match segment_size {
                MaybeRelocatable::Int(size) => size,
                _ => return Err(ExecutionError::NotAnInt),
            };

            if seg_size.to_usize() != Some(used_size) {
                return Err(ExecutionError::OutOfBound);
            }
            match vm_mark_address_range_as_accessed(runner, segment_ptr, used_size) {
                Ok(_) => {},
                Err(_) => return Err(ExecutionError::RunNotFinished),
            }
        }
        assert(segments.take(segments.len() as int) =~= segments);
        Ok(())
    }

    /// Checks, after the run, that the syscall pointer stopped where it was expected, and that
    /// the read-only segments are as they were made.
    pub fn post_run(&self, runner: &mut VirtualMachine, syscall_stop_ptr: Relocatable) -> (r: Result<
        (),
        ExecutionError,
    >)
        requires
            self.wf(),
        ensures
            (machine(*final(runner)), r) == if syscall_stop_ptr != self.expected_syscall_ptr {
                (
                    machine(*old(runner)),
                    Err(
                        ExecutionError::InvalidStopPointer(
                            self.expected_syscall_ptr,
                            syscall_stop_ptr,
                        ),
                    ),
                )
            } else {
                Self::segments_check(machine(*old(runner)), self.read_only_segments@)
            },
    {
        let expected_stop_ptr = self.expected_syscall_ptr;
        if syscall_stop_ptr != expected_stop_ptr {
            return Err(ExecutionError::InvalidStopPointer(expected_stop_ptr, syscall_stop_ptr));
        }
        self.validate_read_only_segments(runner)
    }
}

impl<T: State + StateReader> BusinessLogicSyscallHandler<T> {
    /// The block that the transaction belongs to.
    pub fn get_block_info(&self) -> (r: &BlockInfo)
        ensures
            *r == self.general_config.block_info,
    {
        &self.general_config.block_info
    }

    /// Reads the request for the block number and writes the number behind it.
    pub fn get_block_number(&mut self, vm: &mut VirtualMachine, syscall_ptr: Relocatable) -> (r:
        Result<(), SyscallHandlerError>)
        requires
            machine(*old(vm)).readable(),
            old(self).can_count("get_block_number"@),
            syscall_ptr.offset + 1 < offset_limit(),
            !machine(*old(vm)).validated.contains(syscall_ptr.segment_index as int),
        ensures
            match machine(*old(vm)).felt_field(syscall_ptr, 0) {
                Err(e) => {
                    &&& r == Err::<(), _>(e)
                    &&& machine(*final(vm)) == machine(*old(vm))
                },
                Ok(_) => {
                    let number = MaybeRelocatable::Int(
                        felt_of(old(self).general_config.block_info.block_number as nat),
                    );
                    &&& machine(*final(vm)) == machine(*old(vm)).stored(syscall_ptr.plus(1), number)
                    &&& r == if machine(*old(vm)).accepts(syscall_ptr.plus(1), number) {
                        Ok(())
                    } else {
                        Err(SyscallHandlerError::SegmentationFault)
                    }
                },
            },
            machine(*final(vm)).readable(),
            final(self).has_read(
                *old(self),
                machine(*old(vm)),
                "get_block_number"@,
                syscall_ptr,
            ),
            final(self).keeps_setting(*old(self)),
            final(self).keeps_output(*old(self)),
            final(self).keeps_segments(*old(self)),
    {
        proof {
            lemma_syscall_names();
        }
        self._read_and_validate_syscall_request("get_block_number", vm, syscall_ptr)?;
        let response = Relocatable {
            segment_index: syscall_ptr.segment_index,
            offset: syscall_ptr.offset + 1,
        };
        let number = MaybeRelocatable::Int(Felt::from_u64(self.get_block_info().block_number));
        insert_value(vm, response, number)
    }

    /// Writes the response of a call behind its request: how many values it returned, and the
    /// address of a new segment that holds them.
    pub fn write_call_response(
        &mut self,
        vm: &mut VirtualMachine,
        syscall_ptr: Relocatable,
        retdata: Vec<Felt>,
    ) -> (r: Result<(), SyscallHandlerError>)
        requires
            machine(*old(vm)).can_allocate(),
            syscall_ptr.offset + 6 < offset_limit(),
            !machine(*old(vm)).validated.contains(syscall_ptr.segment_index as int),
        ensures
            ({
                let (m1, allocated) = machine(*old(vm)).allocated(int_cells(retdata@));
                let start = machine(*old(vm)).next_segment_start();
                let len = MaybeRelocatable::Int(felt_of(retdata@.len()));
                let pointer = MaybeRelocatable::RelocatableValue(start);
                let m2 = m1.stored(syscall_ptr.plus(5), len);
                if !allocated {
                    &&& r == Err::<(), _>(SyscallHandlerError::SegmentationFault)
                    &&& machine(*final(vm)) == m1
                    &&& final(self).keeps_segments(*old(self))
                } else {
                    &&& final(self).read_only_segments@ == old(self).read_only_segments@.push(
                        segment_record(start, retdata@.len()),
                    )
                    &&& final(self).tx_info_ptr == old(self).tx_info_ptr
                    &&& old(self).wf() ==> final(self).wf()
                    &&& if !m1.accepts(syscall_ptr.plus(5), len) {
                        &&& r == Err::<(), _>(SyscallHandlerError::SegmentationFault)
                        &&& machine(*final(vm)) == m1
                    } else {
                        &&& r == if m2.accepts(syscall_ptr.plus(6), pointer) {
                            Ok(())
                        } else {
                            Err(SyscallHandlerError::SegmentationFault)
                        }
                        &&& machine(*final(vm)) == m2.stored(syscall_ptr.plus(6), pointer)
                    }
                }
            }),
            machine(*old(vm)).counts_segments() ==> machine(*old(vm)).allocated(
                int_cells(retdata@),
            ).1,
            machine(*old(vm)).counts_segments() && machine(*old(vm)).has_segment(
                syscall_ptr.segment_index,
            ) && !machine(*old(vm)).cells.contains_key(syscall_ptr.plus(5)) && !machine(
                *old(vm),
            ).cells.contains_key(syscall_ptr.plus(6)) ==> {
                let start = machine(*old(vm)).next_segment_start();
                &&& r is Ok
                &&& machine(*final(vm)).holds(
                    syscall_ptr.plus(5),
                    seq![
                        MaybeRelocatable::Int(felt_of(retdata@.len())),
                        MaybeRelocatable::RelocatableValue(start),
                    ],
                )
                &&& machine(*final(vm)).holds(start, int_cells(retdata@))
            },
            machine(*final(vm)).differs_in_cells(machine(*old(vm)).with_new_segment()),
            machine(*final(vm)).next_segment <= isize::MAX,
            machine(*old(vm)).readable() ==> machine(*final(vm)).readable(),
            final(self).keeps_setting(*old(self)),
            final(self).keeps_output(*old(self)),
            final(self).keeps_requests(*old(self)),
    {
        let retdata_len: usize = retdata.len();
        let cells = to_int_cells(&retdata);
        proof {
            machine(*vm).with_new_segment().lemma_loaded_changes_cells(
                machine(*vm).next_segment_start(),
                cells@,
            );
        }
        let retdata_ptr = self.allocate_segment(vm, cells)?;
        let ghost m1 = machine(*vm);
        assert(m1.counts_segments() && machine(*old(vm)).has_segment(syscall_ptr.segment_index)
            ==> m1.has_segment(syscall_ptr.segment_index));
        let len_cell = Relocatable {
            segment_index: syscall_ptr.segment_index,
            offset: syscall_ptr.offset + 5,
        };
        let len = MaybeRelocatable::Int(Felt::from_usize(retdata_len));
        insert_value(vm, len_cell, len)?;
        let pointer_cell = Relocatable {
            segment_index: syscall_ptr.segment_index,
            offset: syscall_ptr.offset + 6,
        };
        proof {
            let pointer = MaybeRelocatable::RelocatableValue(retdata_ptr);
            let after = machine(*vm).stored(pointer_cell, pointer);
            assert(syscall_ptr.plus(5).plus(0) == len_cell);
            assert(syscall_ptr.plus(5).plus(1) == pointer_cell);
            assert(after.keeps_cells(m1));
            assert(m1.holds(retdata_ptr, int_cells(retdata@)) ==> after.holds(
                retdata_ptr,
                int_cells(retdata@),
            ));
        }
        insert_value(vm, pointer_cell, MaybeRelocatable::RelocatableValue(retdata_ptr))
    }

    /// The address that called this contract.
    pub fn _get_caller_address(&mut self, vm: &VirtualMachine, syscall_ptr: Relocatable) -> (r:
        Result<Address, SyscallHandlerError>)
        requires
            machine(*vm).readable(),
            old(self).can_count("get_caller_address"@),
        ensures
            r == match machine(*vm).felt_field(syscall_ptr, 0) {
                Ok(_) => Ok(old(self).caller_address),
                Err(e) => Err(e),
            },
            final(self).has_read(*old(self), machine(*vm), "get_caller_address"@, syscall_ptr),
            final(self).keeps_setting(*old(self)),
            final(self).keeps_output(*old(self)),
            final(self).keeps_segments(*old(self)),
    {
        proof {
            lemma_syscall_names();
        }
        match self._read_and_validate_syscall_request("get_caller_address", vm, syscall_ptr)? {
            SyscallRequest::GetCallerAddress(_) => {},
            _ => return Err(SyscallHandlerError::ExpectedGetCallerAddressRequest),
        }
        Ok(self.caller_address)
    }

    /// The address of this contract.
    pub fn _get_contract_address(&mut self, vm: &VirtualMachine, syscall_ptr: Relocatable) -> (r:
        Result<Address, SyscallHandlerError>)
        requires
            machine(*vm).readable(),
            old(self).can_count("get_contract_address"@),
        ensures
            r == match machine(*vm).felt_field(syscall_ptr, 0) {
                Ok(_) => Ok(old(self).contract_address),
                Err(e) => Err(e),
            },
            final(self).has_read(*old(self), machine(*vm), "get_contract_address"@, syscall_ptr),
            final(self).keeps_setting(*old(self)),
            final(self).keeps_output(*old(self)),
            final(self).keeps_segments(*old(self)),
    {
        proof {
            lemma_syscall_names();
        }
        match self._read_and_validate_syscall_request("get_contract_address", vm, syscall_ptr)? {
            SyscallRequest::GetContractAddress(_) => {},
            _ => return Err(SyscallHandlerError::ExpectedGetContractAddressRequest),
        }
        Ok(self.contract_address)
    }

    /// What a read of this contract's storage at the address returns.
    pub open spec fn stored_at(self, address: Address) -> Result<Felt, SyscallHandlerError> {
        match self.starknet_storage_state.value_at(be_bytes(address.0@, 32)) {
            Ok(value) => Ok(value),
            Err(e) => Err(SyscallHandlerError::StateError(e)),
        }
    }

    /// Whether everything but the storage and the state behind it is that of `other`.
    pub open spec fn keeps_all_but_storage(self, other: Self) -> bool {
        &&& self.contract_address == other.contract_address
        &&& self.caller_address == other.caller_address
        &&& self.general_config == other.general_config
        &&& self.state == other.state
        &&& self.internal_calls == other.internal_calls
        &&& self.starknet_storage_state.contract_address
            == other.starknet_storage_state.contract_address
        &&& self.keeps_output(other)
        &&& self.keeps_segments(other)
        &&& self.keeps_requests(other)
    }

    /// What storing a value does to the state behind the storage.
    pub open spec fn has_stored(self, before: Self, address: Address, value: Felt) -> bool {
        forall|a: Address, k: Seq<u8>| #[trigger]
            self.starknet_storage_state.state.storage_at(a, k) == if a
                == before.starknet_storage_state.contract_address && k == be_bytes(
                address.0@,
                32,
            ) {
                Ok(value)
            } else {
                before.starknet_storage_state.state.storage_at(a, k)
            }
    }

    /// Reads this contract's storage.
    pub fn _storage_read(&mut self, address: Address) -> (r: Result<Felt, SyscallHandlerError>)
        ensures
            r == old(self).stored_at(address),
            forall|a: Address, k: Seq<u8>| #[trigger]
                final(self).starknet_storage_state.state.storage_at(a, k) == old(
                    self,
                ).starknet_storage_state.state.storage_at(a, k),
            final(self).keeps_all_but_storage(*old(self)),
    {
        match self.starknet_storage_state.read(&address.to_32_bytes()) {
            Ok(value) => Ok(value),
            Err(e) => Err(SyscallHandlerError::StateError(e)),
        }
    }

    /// Writes to this contract's storage.
    pub fn _storage_write(&mut self, address: Address, value: Felt) -> (r: Result<
        (),
        SyscallHandlerError,
    >)
        ensures
            r == Ok::<(), SyscallHandlerError>(()),
            final(self).has_stored(*old(self), address, value),
            final(self).keeps_all_but_storage(*old(self)),
    {
        self.starknet_storage_state.write(&address.to_32_bytes(), value);
        Ok(())
    }
}

/// The names of the syscalls that a handler made for tests counts from the start.
pub open spec fn syscalls_counted_in_tests() -> Seq<Seq<char>> {
    seq![
        "emit_event"@,
        "deploy"@,
        "get_tx_info"@,
        "send_message_to_l1"@,
        "library_call"@,
        "get_caller_address"@,
        "get_contract_address"@,
        "get_sequencer_address"@,
        "get_block_timestamp"@,
    ]
}

impl<T: State + StateReader + Clone> BusinessLogicSyscallHandler<T> {
    /// A handler that has not handled anything yet. The storage of the contract works on a clone
    /// of the state.
    pub fn new(
        tx_execution_context: TransactionExecutionContext,
        state: T,
        resources_manager: ExecutionResourcesManager,
        caller_address: Address,
        contract_address: Address,
        general_config: StarknetGeneralConfig,
        syscall_ptr: Relocatable,
    ) -> (r: Self)
        ensures
            r.tx_execution_context == tx_execution_context,
            r.events@ == Seq::<OrderedEvent>::empty(),
            r.read_only_segments@ == Seq::<(Relocatable, MaybeRelocatable)>::empty(),
            r.resources_manager == resources_manager,
            r.contract_address == contract_address,
            r.caller_address == caller_address,
            r.l2_to_l1_messages@ == Seq::<OrderedL2ToL1Message>::empty(),
            r.general_config == general_config,
            r.tx_info_ptr is None,
            r.state == state,
            cloned(state, r.starknet_storage_state.state),
            r.starknet_storage_state.contract_address == contract_address,
            r.internal_calls@ == Seq::<CallInfo>::empty(),
            r.expected_syscall_ptr == syscall_ptr,
            r.wf(),
    {
        let starknet_storage_state = ContractStorageState::new(state.clone(), contract_address);

        BusinessLogicSyscallHandler {
            tx_execution_context,
            events: Vec::new(),
            read_only_segments: Vec::new(),
            resources_manager,
            contract_address,
            caller_address,
            l2_to_l1_messages: Vec::new(),
            general_config,
            tx_info_ptr: None,
            state,
            starknet_storage_state,
            internal_calls: Vec::new(),
            expected_syscall_ptr: syscall_ptr,
        }
    }

    /// A handler for tests: the contract of address one, called from address zero in an empty
    /// transaction of the given block, with the syscall pointer at the start of memory. The
    /// contract address that is passed does not matter.
    pub fn new_for_testing(block_info: BlockInfo, _contract_address: Address, state: T) -> (r: Self)
        ensures
            r.tx_execution_context.is_blank(),
            r.events@ == Seq::<OrderedEvent>::empty(),
            r.read_only_segments@ == Seq::<(Relocatable, MaybeRelocatable)>::empty(),
            forall|name: Seq<char>| #[trigger]
                r.resources_manager.syscall_counts().contains_key(name)
                    <==> syscalls_counted_in_tests().contains(name),
            forall|name: Seq<char>| #[trigger] r.resources_manager.times(name) == 0,
            r.resources_manager.usage().is_blank(),
            r.contract_address == Address(felt_of(1)),
            r.caller_address == Address(felt_of(0)),
            r.l2_to_l1_messages@ == Seq::<OrderedL2ToL1Message>::empty(),
            r.general_config == StarknetGeneralConfig::test_network(block_info),
            r.tx_info_ptr is None,
            r.state == state,
            cloned(state, r.starknet_storage_state.state),
            r.starknet_storage_state.contract_address == Address(felt_of(1)),
            r.internal_calls@ == Seq::<CallInfo>::empty(),
            r.expected_syscall_ptr == (Relocatable { segment_index: 0, offset: 0 }),
            r.wf(),
    {
        let syscalls: Vec<String> = vec![
            "emit_event".to_owned(),
            "deploy".to_owned(),
            "get_tx_info".to_owned(),
            "send_message_to_l1".to_owned(),
            "library_call".to_owned(),
            "get_caller_address".to_owned(),
            "get_contract_address".to_owned(),
            "get_sequencer_address".to_owned(),
            "get_block_timestamp".to_owned(),
        ];
        proof {
            let names = syscalls_counted_in_tests();
            assert forall|i: int| 0 <= i < syscalls@.len() implies #[trigger] syscalls@[i]@
                == names[i] by {}
            assert forall|name: Seq<char>|
                #![trigger names.contains(name)]
                names.contains(name) <==> exists|i: int|
                    0 <= i < syscalls@.len() && #[trigger] syscalls@[i]@ == name by {
                if names.contains(name) {
                    let i = choose|i: int| 0 <= i < names.len() && names[i] == name;
                    assert(syscalls@[i]@ == name);
                }
            }
        }
        let resources_manager = ExecutionResourcesManager::new(
            syscalls,
            ExecutionResources::default(),
        );
        let mut general_config = StarknetGeneralConfig::default();
        general_config.block_info = block_info;

        BusinessLogicSyscallHandler::new(
            TransactionExecutionContext::default(),
            state,
            resources_manager,
            Address(Felt::zero()),
            Address(Felt::from_u64(1)),
            general_config,
            Relocatable { segment_index: 0, offset: 0 },
        )
    }
}

impl<T: State + StateReader + Clone + Default> Default for BusinessLogicSyscallHandler<T> {
    /// A handler for tests, in an empty block and on the default state.
    fn default() -> (r: Self)
        ensures
            T::default.ensures((), r.state),
            cloned(r.state, r.starknet_storage_state.state),
            r.tx_execution_context.is_blank(),
            r.events@ == Seq::<OrderedEvent>::empty(),
            r.read_only_segments@ == Seq::<(Relocatable, MaybeRelocatable)>::empty(),
            forall|name: Seq<char>| #[trigger]
                r.resources_manager.syscall_counts().contains_key(name)
                    <==> syscalls_counted_in_tests().contains(name),
            forall|name: Seq<char>| #[trigger] r.resources_manager.times(name) == 0,
            r.resources_manager.usage().is_blank(),
            r.contract_address == Address(felt_of(1)),
            r.caller_address == Address(felt_of(0)),
            r.l2_to_l1_messages@ == Seq::<OrderedL2ToL1Message>::empty(),
            r.general_config == StarknetGeneralConfig::test_network(BlockInfo::empty()),
            r.tx_info_ptr is None,
            r.starknet_storage_state.contract_address == Address(felt_of(1)),
            r.internal_calls@ == Seq::<CallInfo>::empty(),
            r.expected_syscall_ptr == (Relocatable { segment_index: 0, offset: 0 }),
            r.wf(),
    {
        BusinessLogicSyscallHandler::new_for_testing(
            BlockInfo::default(),
            Address(Felt::zero()),
            T::default(),
        )
    }
}

} // verus!
