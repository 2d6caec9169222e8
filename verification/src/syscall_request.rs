//! The requests of the syscalls, as they lie in memory.
use vstd::prelude::*;
use cairo_vm::vm::vm_core::VirtualMachine;
use crate::errors::SyscallHandlerError;
use crate::felt::Felt;
use crate::machine::{get_integer, get_relocatable, get_usize, machine, MachineState};
use crate::objects::Address;
use crate::relocatable::Relocatable;
use crate::syscall_info::{syscall_from_name, syscall_named, Syscall};

verus! {

/// A request to emit an event: the selector, then the keys and the data, each as a number of
/// cells and the address of the first of them.
#[derive(Clone, Copy, Debug, PartialEq, Eq, Structural)]
pub struct EmitEventRequest {
    pub selector: Felt,
    pub keys_len: usize,
    pub keys: Relocatable,
    pub data_len: usize,
    pub data: Relocatable,
}

/// A request to deploy a contract.
#[derive(Clone, Copy, Debug, PartialEq, Eq, Structural)]
pub struct DeployRequest {
    pub selector: Felt,
    pub class_hash: Felt,
    pub contract_address_salt: Felt,
    pub constructor_calldata_size: Felt,
    pub constructor_calldata: Relocatable,
    pub deploy_from_zero: usize,
}

/// A request to call a contract or a class. One cell says whose code is called: it holds an
/// address or a class hash, according to the syscall.
#[derive(Clone, Copy, Debug, PartialEq, Eq, Structural)]
pub struct CallContractRequest {
    pub selector: Felt,
    pub contract_address: Address,
    pub class_hash: Felt,
    pub function_selector: Felt,
    pub calldata_size: usize,
    pub calldata: Relocatable,
}

/// A request to send a message to L1.
#[derive(Clone, Copy, Debug, PartialEq, Eq, Structural)]
pub struct SendMessageToL1Request {
    pub selector: Felt,
    pub to_address: Address,
    pub payload_size: usize,
    pub payload_ptr: Relocatable,
}

/// A request that consists of its selector.
#[derive(Clone, Copy, Debug, PartialEq, Eq, Structural)]
pub struct SelectorRequest {
    pub selector: Felt,
}

/// A request.
#[derive(Clone, Copy, Debug, PartialEq, Eq, Structural)]
pub enum SyscallRequest {
    EmitEvent(EmitEventRequest),
    Deploy(DeployRequest),
    CallContract(CallContractRequest),
    SendMessageToL1(SendMessageToL1Request),
    GetTxInfo(SelectorRequest),
    GetCallerAddress(SelectorRequest),
    GetContractAddress(SelectorRequest),
    GetSequencerAddress(SelectorRequest),
    GetBlockNumber(SelectorRequest),
    GetBlockTimestamp(SelectorRequest),
}

impl MachineState {
    /// The `emit_event` request at `ptr`; of several wrong fields the first decides the error.
    pub open spec fn emit_event_request(self, ptr: Relocatable) -> Result<
        EmitEventRequest,
        SyscallHandlerError,
    > {
        match (
            self.felt_field(ptr, 0),
            self.usize_field(ptr, 1),
            self.pointer_field(ptr, 2),
            self.usize_field(ptr, 3),
            self.pointer_field(ptr, 4),
        ) {
            (Ok(selector), Ok(keys_len), Ok(keys), Ok(data_len), Ok(data)) => Ok(
                EmitEventRequest { selector, keys_len, keys, data_len, data },
            ),
            (Err(e), _, _, _, _) => Err(e),
            (_, Err(e), _, _, _) => Err(e),
            (_, _, Err(e), _, _) => Err(e),
            (_, _, _, Err(e), _) => Err(e),
            (_, _, _, _, Err(e)) => Err(e),
        }
    }

    /// The `deploy` request at `ptr`.
    pub open spec fn deploy_request(self, ptr: Relocatable) -> Result<
        DeployRequest,
        SyscallHandlerError,
    > {
        match (
            self.felt_field(ptr, 0),
            self.felt_field(ptr, 1),
            self.felt_field(ptr, 2),
            self.felt_field(ptr, 3),
            self.pointer_field(ptr, 4),
            self.usize_field(ptr, 5),
        ) {
            (
                Ok(selector),
                Ok(class_hash),
                Ok(contract_address_salt),
                Ok(constructor_calldata_size),
                Ok(constructor_calldata),
                Ok(deploy_from_zero),
            ) => Ok(
                DeployRequest {
                    selector,
                    class_hash,
                    contract_address_salt,
                    constructor_calldata_size,
                    constructor_calldata,
                    deploy_from_zero,
                },
            ),
            (Err(e), _, _, _, _, _) => Err(e),
            (_, Err(e), _, _, _, _) => Err(e),
            (_, _, Err(e), _, _, _) => Err(e),
            (_, _, _, Err(e), _, _) => Err(e),
            (_, _, _, _, Err(e), _) => Err(e),
            (_, _, _, _, _, Err(e)) => Err(e),
        }
    }

    /// The request of a call at `ptr`.
    pub open spec fn call_contract_request(self, ptr: Relocatable) -> Result<
        CallContractRequest,
        SyscallHandlerError,
    > {
        match (
            self.felt_field(ptr, 0),
            self.felt_field(ptr, 1),
            self.felt_field(ptr, 2),
            self.usize_field(ptr, 3),
            self.pointer_field(ptr, 4),
        ) {
            (Ok(selector), Ok(code), Ok(function_selector), Ok(calldata_size), Ok(calldata)) => Ok(
                CallContractRequest {
                    selector,
                    contract_address: Address(code),
                    class_hash: code,
                    function_selector,
                    calldata_size,
                    calldata,
                },
            ),
            (Err(e), _, _, _, _) => Err(e),
            (_, Err(e), _, _, _) => Err(e),
            (_, _, Err(e), _, _) => Err(e),
            (_, _, _, Err(e), _) => Err(e),
            (_, _, _, _, Err(e)) => Err(e),
        }
    }

    /// The `send_message_to_l1` request at `ptr`.
    pub open spec fn send_message_to_l1_request(self, ptr: Relocatable) -> Result<
        SendMessageToL1Request,
        SyscallHandlerError,
    > {
        match (
            self.felt_field(ptr, 0),
            self.felt_field(ptr, 1),
            self.usize_field(ptr, 2),
            self.pointer_field(ptr, 3),
        ) {
            (Ok(selector), Ok(to_address), Ok(payload_size), Ok(payload_ptr)) => Ok(
                SendMessageToL1Request {
                    selector,
                    to_address: Address(to_address),
                    payload_size,
                    payload_ptr,
                },
            ),
            (Err(e), _, _, _) => Err(e),
            (_, Err(e), _, _) => Err(e),
            (_, _, Err(e), _) => Err(e),
            (_, _, _, Err(e)) => Err(e),
        }
    }

    /// The request of the syscall at `ptr`.
    pub open spec fn request(self, syscall: Syscall, ptr: Relocatable) -> Result<
        SyscallRequest,
        SyscallHandlerError,
    > {
        match syscall {
            Syscall::EmitEvent => match self.emit_event_request(ptr) {
                Ok(request) => Ok(SyscallRequest::EmitEvent(request)),
                Err(e) => Err(e),
            },
            Syscall::Deploy => match self.deploy_request(ptr) {
                Ok(request) => Ok(SyscallRequest::Deploy(request)),
                Err(e) => Err(e),
            },
            Syscall::CallContract
            | Syscall::DelegateCall
            | Syscall::DelegateL1Handler
            | Syscall::LibraryCall
            | Syscall::LibraryCallL1Handler => match self.call_contract_request(ptr) {
                Ok(request) => Ok(SyscallRequest::CallContract(request)),
                Err(e) => Err(e),
            },
            Syscall::SendMessageToL1 => match self.send_message_to_l1_request(ptr) {
                Ok(request) => Ok(SyscallRequest::SendMessageToL1(request)),
                Err(e) => Err(e),
            },
            Syscall::GetTxInfo
            | Syscall::GetCallerAddress
            | Syscall::GetContractAddress
            | Syscall::GetSequencerAddress
            | Syscall::GetBlockNumber
            | Syscall::GetBlockTimestamp => match self.felt_field(ptr, 0) {
                Ok(selector) => Ok(
                    match syscall {
                        Syscall::GetTxInfo => SyscallRequest::GetTxInfo(
                            SelectorRequest { selector },
                        ),
                        Syscall::GetCallerAddress => SyscallRequest::GetCallerAddress(
                            SelectorRequest { selector },
                        ),
                        Syscall::GetContractAddress => SyscallRequest::GetContractAddress(
                            SelectorRequest { selector },
                        ),
                        Syscall::GetSequencerAddress => SyscallRequest::GetSequencerAddress(
                            SelectorRequest { selector },
                        ),
                        Syscall::GetBlockNumber => SyscallRequest::GetBlockNumber(
                            SelectorRequest { selector },
                        ),
                        _ => SyscallRequest::GetBlockTimestamp(SelectorRequest { selector }),
                    },
                ),
                Err(e) => Err(e),
            },
        }
    }
}

fn read_emit_event_request(vm: &VirtualMachine, ptr: Relocatable) -> (r: Result<
    EmitEventRequest,
    SyscallHandlerError,
>)
    requires
        machine(*vm).readable(),
    ensures
        r == machine(*vm).emit_event_request(ptr),
{
    let selector = get_integer(vm, ptr, 0)?;
    let keys_len: usize = get_usize(vm, ptr, 1)?;
    let keys = get_relocatable(vm, ptr, 2)?;
    let data_len: usize = get_usize(vm, ptr, 3)?;
    let data = get_relocatable(vm, ptr, 4)?;
    Ok(EmitEventRequest { selector, keys_len, keys, data_len, data })
}

fn read_deploy_request(vm: &VirtualMachine, ptr: Relocatable) -> (r: Result<
    DeployRequest,
    SyscallHandlerError,
>)
    requires
        machine(*vm).readable(),
    ensures
        r == machine(*vm).deploy_request(ptr),
{
    let selector = get_integer(vm, ptr, 0)?;
    let class_hash = get_integer(vm, ptr, 1)?;
    let contract_address_salt = get_integer(vm, ptr, 2)?;
    let constructor_calldata_size = get_integer(vm, ptr, 3)?;
    let constructor_calldata = get_relocatable(vm, ptr, 4)?;
    let deploy_from_zero: usize = get_usize(vm, ptr, 5)?;
    Ok(
        DeployRequest {
            selector,
            class_hash,
            contract_address_salt,
            constructor_calldata_size,
            constructor_calldata,
            deploy_from_zero,
        },
    )
}

fn read_call_contract_request(vm: &VirtualMachine, ptr: Relocatable) -> (r: Result<
    CallContractRequest,
    SyscallHandlerError,
>)
    requires
        machine(*vm).readable(),
    ensures
        r == machine(*vm).call_contract_request(ptr),
{
    let selector = get_integer(vm, ptr, 0)?;
    let code = get_integer(vm, ptr, 1)?;
    let function_selector = get_integer(vm, ptr, 2)?;
    let calldata_size: usize = get_usize(vm, ptr, 3)?;
    let calldata = get_relocatable(vm, ptr, 4)?;
    Ok(
        CallContractRequest {
            selector,
            contract_address: Address(code),
            class_hash: code,
            function_selector,
            calldata_size,
            calldata,
        },
    )
}

fn read_send_message_to_l1_request(vm: &VirtualMachine, ptr: Relocatable) -> (r: Result<
    SendMessageToL1Request,
    SyscallHandlerError,
>)
    requires
        machine(*vm).readable(),
    ensures
        r == machine(*vm).send_message_to_l1_request(ptr),
{
    let selector = get_integer(vm, ptr, 0)?;
    let to_address = get_integer(vm, ptr, 1)?;
    let payload_size: usize = get_usize(vm, ptr, 2)?;
    let payload_ptr = get_relocatable(vm, ptr, 3)?;
    Ok(
        SendMessageToL1Request {
            selector,
            to_address: Address(to_address),
            payload_size,
            payload_ptr,
        },
    )
}

/// Reads the request of the named syscall at `syscall_ptr`. The value of its selector does not
/// matter.
pub fn read_syscall_request(
    syscall_name: &str,
    vm: &VirtualMachine,
    syscall_ptr: Relocatable,
) -> (r: Result<SyscallRequest, SyscallHandlerError>)
    requires
        machine(*vm).readable(),
    ensures
        match syscall_named(syscall_name@) {
            Some(syscall) => r == machine(*vm).request(syscall, syscall_ptr),
            None => r matches Err(SyscallHandlerError::UnknownSyscall(name)) && name@
                == syscall_name@,
        },
{
    match syscall_from_name(syscall_name) {
        Some(Syscall::EmitEvent) => Ok(
            SyscallRequest::EmitEvent(read_emit_event_request(vm, syscall_ptr)?),
        ),
        Some(Syscall::Deploy) => Ok(SyscallRequest::Deploy(read_deploy_request(vm, syscall_ptr)?)),
        Some(
            Syscall::CallContract
            | Syscall::DelegateCall
            | Syscall::DelegateL1Handler
            | Syscall::LibraryCall
            | Syscall::LibraryCallL1Handler,
        ) => Ok(SyscallRequest::CallContract(read_call_contract_request(vm, syscall_ptr)?)),
        Some(Syscall::SendMessageToL1) => Ok(
            SyscallRequest::SendMessageToL1(read_send_message_to_l1_request(vm, syscall_ptr)?),
        ),
        Some(Syscall::GetTxInfo) => Ok(
            SyscallRequest::GetTxInfo(SelectorRequest { selector: get_integer(vm, syscall_ptr, 0)? }),
        ),
        Some(Syscall::GetCallerAddress) => Ok(
            SyscallRequest::GetCallerAddress(
                SelectorRequest { selector: get_integer(vm, syscall_ptr, 0)? },
            ),
        ),
        Some(Syscall::GetContractAddress) => Ok(
            SyscallRequest::GetContractAddress(
                SelectorRequest { selector: get_integer(vm, syscall_ptr, 0)? },
            ),
        ),
        Some(Syscall::GetSequencerAddress) => Ok(
            SyscallRequest::GetSequencerAddress(
                SelectorRequest { selector: get_integer(vm, syscall_ptr, 0)? },
            ),
        ),
        Some(Syscall::GetBlockNumber) => Ok(
            SyscallRequest::GetBlockNumber(
                SelectorRequest { selector: get_integer(vm, syscall_ptr, 0)? },
            ),
        ),
        Some(Syscall::GetBlockTimestamp) => Ok(
            SyscallRequest::GetBlockTimestamp(
                SelectorRequest { selector: get_integer(vm, syscall_ptr, 0)? },
            ),
        ),
        None => Err(SyscallHandlerError::UnknownSyscall(syscall_name.to_owned())),
    }
}

} // verus!
