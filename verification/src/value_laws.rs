//! What the makers and readers of plain values give, told by numbers, bytes and cells. Each law
//! speaks of any call, with its arguments and its result.
use vstd::prelude::*;
use cairo_vm::vm::vm_core::VirtualMachine;
use crate::business_logic_syscall_handler::BusinessLogicSyscallHandler;
use crate::call_laws::{lemma_field, lemma_range};
use crate::config::{BlockInfo, StarknetChainId, StarknetGeneralConfig};
use crate::errors::SyscallHandlerError;
use crate::felt::{be_value, digits_value, lemma_felt_of_value, prime, Felt};
use crate::machine::{
    add_memory_segment, get_integer, get_integer_range, get_relocatable, get_usize, insert_value,
    machine, new_machine,
};
use crate::memory_laws::{chain_number, has_more_segments, keeps_every_cell};
use crate::objects::{
    felt_to_hash, get_execute_entry_point_selector, Address, CallInfo,
    TransactionExecutionContext, TxInfoStruct,
};
use crate::raw_memory::{
    are_integers_in, cell, cell_address, fault, integer_in, is_free_for, only_integers_in,
    pointer_in, request_fields, response_cells, segment_exists, FieldKind,
};
use crate::relocatable::{MaybeRelocatable, Relocatable};
use crate::resources::{ExecutionResources, ExecutionResourcesManager};
use crate::state::{State, StateReader};
use crate::syscall_info::{get_syscall_size_from_name, lemma_syscall_names};

verus! {

/// Elements are made of the numbers they are given, and the bytes of an element write that
/// number.
pub proof fn law_elements_are_their_numbers(
    small: u64,
    large: u128,
    size: usize,
    a: Felt,
    b: Felt,
    c: Felt,
    a_bytes: [u8; 32],
    b_bytes: [u8; 32],
    c_size: Option<usize>,
    b_size: Option<usize>,
)
    requires
        call_ensures(Felt::from_u64, (small,), a),
        call_ensures(Felt::from_u128, (large,), b),
        call_ensures(Felt::from_usize, (size,), c),
        call_ensures(Felt::to_bytes_be, (&a,), a_bytes),
        call_ensures(Felt::to_bytes_be, (&b,), b_bytes),
        call_ensures(Felt::to_usize, (&c,), c_size),
        call_ensures(Felt::to_usize, (&b,), b_size),
    ensures
        be_value(a_bytes@) == small,
        be_value(b_bytes@) == large,
        c_size == Some(size),
        b_size is Some <==> large <= usize::MAX,
        b_size matches Some(n) ==> n == large,
{
}

/// Four digits make an element exactly if the number they write is below the modulus, and its
/// bytes write that number.
pub proof fn law_digits_make_elements(
    d0: u64,
    d1: u64,
    d2: u64,
    d3: u64,
    r: Option<Felt>,
    bytes: [u8; 32],
)
    requires
        call_ensures(Felt::from_digits, (d0, d1, d2, d3), r),
        r is Some ==> call_ensures(Felt::to_bytes_be, (&r->0,), bytes),
    ensures
        ({
            let base = 0x1_0000_0000_0000_0000int;
            let number = d0 + base * (d1 + base * (d2 + base * d3));
            &&& r is Some <==> number < prime()
            &&& r is Some ==> be_value(bytes@) == number
        }),
{
    let base = 0x1_0000_0000_0000_0000int;
    assert(d0 + base * (d1 + base * (d2 + base * d3)) == digits_value(d0, d1, d2, d3));
}

/// The bytes of an address and of a class hash write the number of the element.
pub proof fn law_hashes_are_the_bytes_of_the_element(
    element: Felt,
    hash: [u8; 32],
    key: [u8; 32],
)
    requires
        call_ensures(felt_to_hash, (&element,), hash),
        call_ensures(Address::to_32_bytes, (&Address(element),), key),
    ensures
        be_value(hash@) == element@,
        be_value(key@) == element@,
{
}

/// The selector and the chains have fixed numbers.
pub proof fn law_selector_and_chains(selector: Felt, chain_id: StarknetChainId, id: Felt)
    requires
        call_ensures(get_execute_entry_point_selector, (), selector),
        call_ensures(StarknetChainId::to_felt, (&chain_id,), id),
    ensures
        selector@ == 0x15d40a3d6ca2ac30f4031e42be28da9b056fef9bb7357ac5e85627ee876e5adnat,
        id@ == chain_number(chain_id),
{
    lemma_felt_of_value(chain_number(chain_id));
}

/// The description of a transaction is made of its fields, each whole and in its own place.
pub proof fn law_description_is_that_of_the_transaction(
    tx: &TransactionExecutionContext,
    signature: Relocatable,
    chain_id: StarknetChainId,
    info: TxInfoStruct,
    cells: Vec<MaybeRelocatable>,
)
    requires
        call_ensures(TxInfoStruct::new, (tx, signature, chain_id), info),
        call_ensures(TxInfoStruct::to_vec, (&info,), cells),
    ensures
        cells@.len() == 8,
        cells@[0] is Int && cells@[0]->Int_0@ == tx.version,
        cells@[1] is Int && cells@[1]->Int_0@ == tx.account_contract_address.0@,
        cells@[2] is Int && cells@[2]->Int_0@ == tx.max_fee,
        cells@[3] is Int && cells@[3]->Int_0@ == tx.signature@.len(),
        cells@[4] == MaybeRelocatable::RelocatableValue(signature),
        cells@[5] is Int && cells@[5]->Int_0@ == tx.transaction_hash@,
        cells@[6] is Int && cells@[6]->Int_0@ == chain_number(chain_id),
        cells@[7] is Int && cells@[7]->Int_0@ == tx.nonce@,
{
    assert(tx.signature@.len() == tx.signature.len());
    lemma_felt_of_value(tx.version as nat);
    lemma_felt_of_value(tx.max_fee as nat);
    lemma_felt_of_value(tx.signature@.len());
    lemma_felt_of_value(chain_number(chain_id));
}

/// The distance of two addresses leads from the one to the other.
pub proof fn law_distance_leads_back(a: &Relocatable, b: &Relocatable, r: Option<usize>)
    requires
        call_ensures(Relocatable::sub, (a, b), r),
    ensures
        r matches Some(n) ==> a.segment_index == b.segment_index && a.offset == b.offset + n,
        r is None ==> a.segment_index != b.segment_index || a.offset < b.offset,
{
}

/// A value is an address exactly if one comes out of it.
pub proof fn law_address_comes_out(value: &MaybeRelocatable, r: Option<Relocatable>)
    requires
        call_ensures(MaybeRelocatable::get_relocatable, (value,), r),
    ensures
        r matches Some(pointer) ==> *value == MaybeRelocatable::RelocatableValue(pointer),
        r is None ==> *value is Int,
{
}

/// A count goes up by what is added to it, and the others stay.
pub proof fn law_counts_add_up(
    manager: &mut ExecutionResourcesManager,
    name: &str,
    amount: u64,
    asked: &str,
    before: u64,
    after: u64,
)
    requires
        call_ensures(
            ExecutionResourcesManager::increment_syscall_counter,
            (manager, name, amount),
            (),
        ),
        call_ensures(
            ExecutionResourcesManager::get_syscall_counter,
            (&*old(manager), asked),
            before,
        ),
        call_ensures(
            ExecutionResourcesManager::get_syscall_counter,
            (&*final(manager), asked),
            after,
        ),
        before + amount <= u64::MAX,
    ensures
        final(manager).usage() == old(manager).usage(),
        after == before + if asked@ == name@ {
            amount as int
        } else {
            0int
        },
{
}

/// A new manager has counted nothing.
pub proof fn law_new_counts_are_zero(
    syscalls: Vec<String>,
    usage: ExecutionResources,
    manager: ExecutionResourcesManager,
    asked: &str,
    r: u64,
)
    requires
        call_ensures(ExecutionResourcesManager::new, (syscalls, usage), manager),
        call_ensures(ExecutionResourcesManager::get_syscall_counter, (&manager, asked), r),
    ensures
        r == 0,
        manager.usage() == usage,
{
}

/// The readers of memory give what the cell holds, or say what it does not hold.
pub proof fn law_readers_give_what_the_cell_holds(
    vm: &VirtualMachine,
    p: Relocatable,
    k: usize,
    integer: Result<Felt, SyscallHandlerError>,
    size: Result<usize, SyscallHandlerError>,
    pointer: Result<Relocatable, SyscallHandlerError>,
)
    requires
        call_ensures(get_integer, (vm, p, k), integer),
        call_ensures(get_usize, (vm, p, k), size),
        call_ensures(get_relocatable, (vm, p, k), pointer),
    ensures
        ({
            let m = machine(*vm);
            &&& integer matches Ok(value) ==> integer_in(m, p, k as int) == Some(value)
            &&& integer matches Err(e) ==> fault(m, p, k as int, FieldKind::Integer) == Some(e)
            &&& size matches Ok(n) ==> integer_in(m, p, k as int) is Some && n == integer_in(
                m,
                p,
                k as int,
            )->0@
            &&& size matches Err(e) ==> fault(m, p, k as int, FieldKind::Size) == Some(e)
            &&& pointer matches Ok(address) ==> pointer_in(m, p, k as int) == Some(address)
            &&& pointer matches Err(e) ==> fault(m, p, k as int, FieldKind::Pointer) == Some(e)
        }),
{
    lemma_field(machine(*vm), p, k as int);
}

/// A range is read exactly if all its cells hold integers, and gives them in order.
pub proof fn law_range_is_what_the_cells_hold(
    vm: &VirtualMachine,
    p: &Relocatable,
    n: usize,
    r: Result<Vec<Felt>, SyscallHandlerError>,
)
    requires
        call_ensures(get_integer_range, (vm, p, n), r),
    ensures
        r is Ok <==> only_integers_in(machine(*vm), *p, n as int),
        r matches Ok(values) ==> are_integers_in(machine(*vm), *p, n as int, values@),
        r matches Err(e) ==> e == SyscallHandlerError::ExpectedInteger,
{
    lemma_range(machine(*vm), *p, n as nat);
}

/// A value is written exactly if its segment exists and its cell is free or holds that value;
/// then the cell holds it. No other cell changes.
pub proof fn law_value_is_written_once(
    vm: &mut VirtualMachine,
    p: Relocatable,
    value: MaybeRelocatable,
    r: Result<(), SyscallHandlerError>,
)
    requires
        call_ensures(insert_value, (vm, p, value), r),
    ensures
        ({
            let m = machine(*old(vm));
            let after = machine(*final(vm));
            &&& has_more_segments(m, after, 0)
            &&& keeps_every_cell(m, after)
            &&& forall|a: Relocatable| #[trigger]
                after.cells.contains_key(a) ==> m.cells.contains_key(a) || a == p
            &&& r is Ok <==> segment_exists(m, p.segment_index as int) && is_free_for(
                m,
                p,
                0,
                value,
            )
            &&& r is Ok ==> cell(after, p, 0) == Some(value)
            &&& r matches Err(e) ==> after == m && e == SyscallHandlerError::SegmentationFault
        }),
{
    assert(cell_address(p, 0) == p);
}

/// A new segment is the next one, and adding it changes no cell.
pub proof fn law_segment_is_added(vm: &mut VirtualMachine, r: Relocatable)
    requires
        call_ensures(add_memory_segment, (vm,), r),
    ensures
        r.segment_index == machine(*old(vm)).next_segment,
        r.offset == 0,
        has_more_segments(machine(*old(vm)), machine(*final(vm)), 1),
        machine(*final(vm)).cells == machine(*old(vm)).cells,
{
}

/// Whether the transaction is that of no account and has done nothing.
pub open spec fn is_empty_transaction(tx: TransactionExecutionContext) -> bool {
    &&& tx.n_emitted_events == 0
    &&& tx.n_sent_messages == 0
    &&& tx.version == 0
    &&& tx.max_fee == 0
    &&& tx.account_contract_address.0@ == 0
    &&& tx.transaction_hash@ == 0
    &&& tx.nonce@ == 0
    &&& tx.signature@.len() == 0
}

/// Whether the handler has handled nothing, for the contract and the caller, with the syscall
/// pointer where it is expected.
pub open spec fn is_fresh<T: State + StateReader>(
    h: BusinessLogicSyscallHandler<T>,
    contract: nat,
    caller: nat,
    expected: Relocatable,
) -> bool {
    &&& h.contract_address.0@ == contract
    &&& h.caller_address.0@ == caller
    &&& h.starknet_storage_state.contract_address.0@ == contract
    &&& h.expected_syscall_ptr == expected
    &&& h.events@.len() == 0
    &&& h.l2_to_l1_messages@.len() == 0
    &&& h.read_only_segments@.len() == 0
    &&& h.internal_calls@.len() == 0
    &&& h.tx_info_ptr is None
}

/// A new handler is fresh and keeps what it is made of. Its storage works on a clone of the
/// state.
pub proof fn law_new_handler_is_fresh<T: State + StateReader + Clone>(
    tx: TransactionExecutionContext,
    state: T,
    resources: ExecutionResourcesManager,
    caller: Address,
    contract: Address,
    config: StarknetGeneralConfig,
    ptr: Relocatable,
    r: BusinessLogicSyscallHandler<T>,
)
    requires
        call_ensures(
            BusinessLogicSyscallHandler::<T>::new,
            (tx, state, resources, caller, contract, config, ptr),
            r,
        ),
    ensures
        is_fresh(r, contract.0@, caller.0@, ptr),
        r.contract_address == contract,
        r.caller_address == caller,
        r.tx_execution_context == tx,
        r.resources_manager == resources,
        r.general_config == config,
        r.state == state,
        call_ensures(T::clone, (&state,), r.starknet_storage_state.state)
            || r.starknet_storage_state.state == state,
{
}

/// A handler for tests is that of the contract 1, called by 0, in an empty transaction of the
/// given block on the test network, with nothing counted. The address that is passed does not
/// matter.
pub proof fn law_testing_handler_is_fresh<T: State + StateReader + Clone>(
    block: BlockInfo,
    unused: Address,
    state: T,
    r: BusinessLogicSyscallHandler<T>,
    asked: &str,
    told: u64,
)
    requires
        call_ensures(
            BusinessLogicSyscallHandler::<T>::new_for_testing,
            (block, unused, state),
            r,
        ),
        call_ensures(
            ExecutionResourcesManager::get_syscall_counter,
            (&r.resources_manager, asked),
            told,
        ),
    ensures
        is_fresh(r, 1, 0, (Relocatable { segment_index: 0, offset: 0 })),
        is_empty_transaction(r.tx_execution_context),
        told == 0,
        r.resources_manager.usage().n_steps == 0,
        r.resources_manager.usage().n_memory_holes == 0,
        r.resources_manager.usage().builtin_instance_counter@.len() == 0,
        r.general_config.block_info == block,
        r.general_config.starknet_os_config.chain_id == StarknetChainId::TestNet,
        r.state == state,
        call_ensures(T::clone, (&state,), r.starknet_storage_state.state)
            || r.starknet_storage_state.state == state,
{
    lemma_felt_of_value(0);
    lemma_felt_of_value(1);
}

/// A handler by default is one for tests, in a block that is numbered zero and of no sequencer.
pub proof fn law_default_handler_is_fresh<T: State + StateReader + Clone + Default>(
    r: BusinessLogicSyscallHandler<T>,
    asked: &str,
    told: u64,
)
    requires
        call_ensures(<BusinessLogicSyscallHandler<T> as Default>::default, (), r),
        call_ensures(
            ExecutionResourcesManager::get_syscall_counter,
            (&r.resources_manager, asked),
            told,
        ),
    ensures
        is_fresh(r, 1, 0, (Relocatable { segment_index: 0, offset: 0 })),
        is_empty_transaction(r.tx_execution_context),
        told == 0,
        is_empty_block(r.general_config.block_info),
        r.general_config.starknet_os_config.chain_id == StarknetChainId::TestNet,
{
    lemma_felt_of_value(0);
    lemma_felt_of_value(1);
}

/// Whether the block is numbered zero, at the start of time, with no price and no sequencer.
pub open spec fn is_empty_block(block: BlockInfo) -> bool {
    &&& block.block_number == 0
    &&& block.block_timestamp == 0
    &&& block.gas_price == 0
    &&& block.sequencer_address.0@ == 0
}

/// What is made by default is empty, on the test network.
pub proof fn law_defaults_are_empty(
    block: BlockInfo,
    config: StarknetGeneralConfig,
    tx: TransactionExecutionContext,
    zero: Felt,
)
    requires
        call_ensures(<BlockInfo as Default>::default, (), block),
        call_ensures(<StarknetGeneralConfig as Default>::default, (), config),
        call_ensures(<TransactionExecutionContext as Default>::default, (), tx),
        call_ensures(Felt::zero, (), zero),
    ensures
        is_empty_block(block),
        is_empty_block(config.block_info),
        config.starknet_os_config.chain_id == StarknetChainId::TestNet,
        is_empty_transaction(tx),
        zero@ == 0,
{
    lemma_felt_of_value(0);
}

/// The structure of a syscall is its request and its response.
pub proof fn law_structure_is_request_and_response(name: &str, r: usize)
    requires
        call_ensures(get_syscall_size_from_name, (name,), r),
        request_fields(name@) is Some,
    ensures
        r == request_fields(name@)->0.len() + response_cells(name@),
{
    lemma_syscall_names();
}

/// A call gives what it returned, and the handler tells the block it was made for.
pub proof fn law_plain_values_are_handed_on<T: State + StateReader>(
    info: CallInfo,
    retdata: Vec<Felt>,
    h: &BusinessLogicSyscallHandler<T>,
    block: &BlockInfo,
)
    requires
        call_ensures(BusinessLogicSyscallHandler::<T>::call_retdata, (Ok(info),), retdata),
        call_ensures(BusinessLogicSyscallHandler::<T>::get_block_info, (h,), block),
    ensures
        retdata@ == info.retdata@,
        *block == h.general_config.block_info,
{
}

/// A new machine holds nothing.
pub proof fn law_new_machine_is_empty(vm: VirtualMachine)
    requires
        call_ensures(new_machine, (), vm),
    ensures
        forall|a: Relocatable| !(#[trigger] machine(vm).cells.contains_key(a)),
        machine(vm).segments == 0,
        machine(vm).next_segment == 0,
        machine(vm).temporary_segments == 0,
        !machine(vm).run_finished,
{
}

} // verus!
