//! The syscalls: their names, and the sizes of their structures in memory.
use vstd::prelude::*;

verus! {

/// A syscall that the handler reads requests of.
#[derive(Clone, Copy, Debug, PartialEq, Eq, Structural)]
pub enum Syscall {
    EmitEvent,
    Deploy,
    GetTxInfo,
    SendMessageToL1,
    CallContract,
    DelegateCall,
    DelegateL1Handler,
    LibraryCall,
    LibraryCallL1Handler,
    GetCallerAddress,
    GetContractAddress,
    GetSequencerAddress,
    GetBlockNumber,
    GetBlockTimestamp,
}

/// The syscall of the given name.
pub open spec fn syscall_named(name: Seq<char>) -> Option<Syscall> {
    if name == "emit_event"@ {
        Some(Syscall::EmitEvent)
    } else if name == "deploy"@ {
        Some(Syscall::Deploy)
    } else if name == "get_tx_info"@ {
        Some(Syscall::GetTxInfo)
    } else if name == "send_message_to_l1"@ {
        Some(Syscall::SendMessageToL1)
    } else if name == "call_contract"@ {
        Some(Syscall::CallContract)
    } else if name == "delegate_call"@ {
        Some(Syscall::DelegateCall)
    } else if name == "delegate_l1_handler"@ {
        Some(Syscall::DelegateL1Handler)
    } else if name == "library_call"@ {
        Some(Syscall::LibraryCall)
    } else if name == "library_call_l1_handler"@ {
        Some(Syscall::LibraryCallL1Handler)
    } else if name == "get_caller_address"@ {
        Some(Syscall::GetCallerAddress)
    } else if name == "get_contract_address"@ {
        Some(Syscall::GetContractAddress)
    } else if name == "get_sequencer_address"@ {
        Some(Syscall::GetSequencerAddress)
    } else if name == "get_block_number"@ {
        Some(Syscall::GetBlockNumber)
    } else if name == "get_block_timestamp"@ {
        Some(Syscall::GetBlockTimestamp)
    } else {
        None
    }
}

/// The names are all different, so each names its own syscall.
pub proof fn lemma_syscall_names()
    ensures
        syscall_named("emit_event"@) == Some(Syscall::EmitEvent),
        syscall_named("deploy"@) == Some(Syscall::Deploy),
        syscall_named("get_tx_info"@) == Some(Syscall::GetTxInfo),
        syscall_named("send_message_to_l1"@) == Some(Syscall::SendMessageToL1),
        syscall_named("call_contract"@) == Some(Syscall::CallContract),
        syscall_named("delegate_call"@) == Some(Syscall::DelegateCall),
        syscall_named("delegate_l1_handler"@) == Some(Syscall::DelegateL1Handler),
        syscall_named("library_call"@) == Some(Syscall::LibraryCall),
        syscall_named("library_call_l1_handler"@) == Some(Syscall::LibraryCallL1Handler),
        syscall_named("get_caller_address"@) == Some(Syscall::GetCallerAddress),
        syscall_named("get_contract_address"@) == Some(Syscall::GetContractAddress),
        syscall_named("get_sequencer_address"@) == Some(Syscall::GetSequencerAddress),
        syscall_named("get_block_number"@) == Some(Syscall::GetBlockNumber),
        syscall_named("get_block_timestamp"@) == Some(Syscall::GetBlockTimestamp),
{
    reveal_strlit("emit_event");
    reveal_strlit("deploy");
    reveal_strlit("get_tx_info");
    reveal_strlit("send_message_to_l1");
    reveal_strlit("call_contract");
    reveal_strlit("delegate_call");
    reveal_strlit("delegate_l1_handler");
    reveal_strlit("library_call");
    reveal_strlit("library_call_l1_handler");
    reveal_strlit("get_caller_address");
    reveal_strlit("get_contract_address");
    reveal_strlit("get_sequencer_address");
    reveal_strlit("get_block_number");
    reveal_strlit("get_block_timestamp");
    assert("emit_event"@.len() == 10);
    assert("deploy"@.len() == 6);
    assert("get_tx_info"@.len() == 11);
    assert("send_message_to_l1"@.len() == 18);
    assert("call_contract"@.len() == 13);
    assert("delegate_call"@.len() == 13);
    assert("delegate_l1_handler"@.len() == 19);
    assert("library_call"@.len() == 12);
    assert("library_call_l1_handler"@.len() == 23);
    assert("get_caller_address"@.len() == 18);
    assert("get_contract_address"@.len() == 20);
    assert("get_sequencer_address"@.len() == 21);
    assert("get_block_number"@.len() == 16);
    assert("get_block_timestamp"@.len() == 19);
    // Names of one length differ in the character shown.
    assert("send_message_to_l1"@[0] != "get_caller_address"@[0]);
    assert("call_contract"@[0] != "delegate_call"@[0]);
    assert("delegate_l1_handler"@[0] != "get_block_timestamp"@[0]);
}

/// How many cells the structure of a syscall takes: its request, then its response.
pub open spec fn syscall_size(syscall: Syscall) -> usize {
    match syscall {
        Syscall::EmitEvent => 5,
        Syscall::Deploy => 9,
        Syscall::SendMessageToL1 => 4,
        Syscall::CallContract
        | Syscall::DelegateCall
        | Syscall::DelegateL1Handler
        | Syscall::LibraryCall
        | Syscall::LibraryCallL1Handler => 7,
        Syscall::GetTxInfo
        | Syscall::GetCallerAddress
        | Syscall::GetContractAddress
        | Syscall::GetSequencerAddress
        | Syscall::GetBlockNumber
        | Syscall::GetBlockTimestamp => 2,
    }
}

/// Whether two strings are the same.
pub(crate) fn same_string(a: &str, b: &str) -> (r: bool)
    ensures
        r == (a@ == b@),
{
    a.to_owned() == b.to_owned()
}

/// The syscall of the given name.
pub fn syscall_from_name(name: &str) -> (r: Option<Syscall>)
    ensures
        r == syscall_named(name@),
{
    if same_string(name, "emit_event") {
        Some(Syscall::EmitEvent)
    } else if same_string(name, "deploy") {
        Some(Syscall::Deploy)
    } else if same_string(name, "get_tx_info") {
        Some(Syscall::GetTxInfo)
    } else if same_string(name, "send_message_to_l1") {
        Some(Syscall::SendMessageToL1)
    } else if same_string(name, "call_contract") {
        Some(Syscall::CallContract)
    } else if same_string(name, "delegate_call") {
        Some(Syscall::DelegateCall)
    } else if same_string(name, "delegate_l1_handler") {
        Some(Syscall::DelegateL1Handler)
    } else if same_string(name, "library_call") {
        Some(Syscall::LibraryCall)
    } else if same_string(name, "library_call_l1_handler") {
        Some(Syscall::LibraryCallL1Handler)
    } else if same_string(name, "get_caller_address") {
        Some(Syscall::GetCallerAddress)
    } else if same_string(name, "get_contract_address") {
        Some(Syscall::GetContractAddress)
    } else if same_string(name, "get_sequencer_address") {
        Some(Syscall::GetSequencerAddress)
    } else if same_string(name, "get_block_number") {
        Some(Syscall::GetBlockNumber)
    } else if same_string(name, "get_block_timestamp") {
        Some(Syscall::GetBlockTimestamp)
    } else {
        None
    }
}

/// How many cells the structure of the named syscall takes.
pub fn get_syscall_size_from_name(syscall_name: &str) -> (r: usize)
    requires
        syscall_named(syscall_name@) is Some,
    ensures
        r == syscall_size(syscall_named(syscall_name@)->0),
{
    match syscall_from_name(syscall_name) {
        Some(Syscall::EmitEvent) => 5,
        Some(Syscall::Deploy) => 9,
        Some(Syscall::SendMessageToL1) => 4,
        Some(
            Syscall::CallContract
            | Syscall::DelegateCall
            | Syscall::DelegateL1Handler
            | Syscall::LibraryCall
            | Syscall::LibraryCallL1Handler,
        ) => 7,
        _ => 2,
    }
}

} // verus!
