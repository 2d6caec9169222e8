//! What every call that writes to memory, or checks it, leaves behind, cell by cell. Each law
//! speaks of any call, with its arguments and its result.
use vstd::prelude::*;
use cairo_vm::vm::vm_core::VirtualMachine;
use crate::business_logic_syscall_handler::{int_cells, BusinessLogicSyscallHandler};
use crate::call_laws::{
    is_registered, lemma_request, same_allocations, same_contract, same_output,
};
use crate::config::StarknetChainId;
use crate::errors::{ExecutionError, SyscallHandlerError};
use crate::felt::{felt_of, lemma_felt_is_its_value, lemma_felt_of_value, Felt};
use crate::machine::{machine, MachineState};
use crate::objects::tx_info_cells;
use crate::raw_memory::{
    are_integers_in, cell, cell_address, integer_in, is_free_for, pointer_in, segment_exists,
};
use crate::relocatable::{MaybeRelocatable, Relocatable};
use crate::state::{State, StateReader};
use crate::syscall_info::lemma_syscall_names;

verus! {

/// Whether the machine has so many new segments and is the same otherwise, but for its cells.
pub open spec fn has_more_segments(before: MachineState, after: MachineState, n: int) -> bool {
    &&& after.segments == before.segments + n
    &&& after.next_segment == before.next_segment + n
    &&& after.temporary_segments == before.temporary_segments
    &&& after.relocations == before.relocations
    &&& after.validated == before.validated
    &&& after.used_sizes == before.used_sizes
    &&& after.accessed == before.accessed
    &&& after.run_finished == before.run_finished
}

/// Whether every cell that held a value holds it still.
pub open spec fn keeps_every_cell(before: MachineState, after: MachineState) -> bool {
    forall|a: Relocatable| #[trigger]
        before.cells.contains_key(a) ==> after.cells.contains_key(a) && after.cells[a]
            == before.cells[a]
}

/// Whether the handler has counted no syscall.
pub open spec fn same_requests<T: State + StateReader>(
    before: BusinessLogicSyscallHandler<T>,
    after: BusinessLogicSyscallHandler<T>,
) -> bool {
    &&& after.resources_manager == before.resources_manager
    &&& after.expected_syscall_ptr == before.expected_syscall_ptr
}

/// Whether the record at `i` is of a segment that starts at `start` and has `size` cells.
pub open spec fn is_record(
    records: Seq<(Relocatable, MaybeRelocatable)>,
    i: int,
    start: Relocatable,
    size: int,
) -> bool {
    &&& 0 <= i < records.len()
    &&& records[i].0 == start
    &&& records[i].1 matches MaybeRelocatable::Int(recorded) && recorded@ == size
}

/// Whether so many records were added behind those there were.
pub open spec fn adds_records<T: State + StateReader>(
    before: BusinessLogicSyscallHandler<T>,
    after: BusinessLogicSyscallHandler<T>,
    n: int,
) -> bool {
    &&& after.read_only_segments@.len() == before.read_only_segments@.len() + n
    &&& forall|i: int|
        0 <= i < before.read_only_segments@.len() ==> #[trigger] after.read_only_segments@[i]
            == before.read_only_segments@[i]
}

/// What writing data to the next segment leaves in memory.
proof fn lemma_allocated(m: MachineState, data: Seq<MaybeRelocatable>)
    requires
        data.len() <= usize::MAX,
    ensures
        keeps_every_cell(m, m.allocated(data).0),
        has_more_segments(m, m.allocated(data).0, 1),
        forall|a: Relocatable| #[trigger]
            m.allocated(data).0.cells.contains_key(a) ==> {
                ||| m.cells.contains_key(a)
                ||| a.segment_index == m.next_segment_start().segment_index && a.offset
                    < data.len()
            },
        m.allocated(data).1 ==> forall|i: int|
            0 <= i < data.len() ==> #[trigger] cell(
                m.allocated(data).0,
                m.next_segment_start(),
                i,
            ) == Some(data[i]),
{
    let start = m.next_segment_start();
    let added = m.with_new_segment();
    let after = m.allocated(data).0;
    added.lemma_loaded_writes(start, data);
    added.lemma_loaded_changes_cells(start, data);
    assert(added.cells == m.cells);
    assert forall|a: Relocatable| #[trigger] m.cells.contains_key(a) implies after.cells.contains_key(
        a,
    ) && after.cells[a] == m.cells[a] by {
        assert(added.cells.contains_key(a));
    }
    if m.allocated(data).1 {
        assert forall|i: int| 0 <= i < data.len() implies #[trigger] cell(after, start, i) == Some(
            data[i],
        ) by {
            assert(after.cells.contains_key(start.plus(i)));
        }
    }
}

/// Whether the next segment can hold the data: it gets an index that then exists, as it does
/// until memory is relocated, and its cells are free or hold the data already.
pub open spec fn can_hold(m: MachineState, data: Seq<MaybeRelocatable>) -> bool {
    data.len() > 0 ==> {
        &&& m.next_segment <= m.segments
        &&& forall|i: int|
            0 <= i < data.len() ==> #[trigger] is_free_for(m, next_start(m), i, data[i])
    }
}

/// Whether data can be written to the next segment is what memory says of its cells.
proof fn lemma_can_hold(m: MachineState, data: Seq<MaybeRelocatable>)
    requires
        m.next_segment < isize::MAX,
        data.len() <= usize::MAX,
    ensures
        m.allocated(data).1 <==> can_hold(m, data),
{
    let start = m.next_segment_start();
    let added = m.with_new_segment();
    assert(next_start(m) == start);
    added.lemma_loaded_writes(start, data);
    if can_hold(m, data) {
        assert forall|i: int| 0 <= i < data.len() implies !added.cells.contains_key(
            #[trigger] start.plus(i),
        ) || added.cells[start.plus(i)] == data[i] by {
            assert(is_free_for(m, next_start(m), i, data[i]));
        }
        added.lemma_loaded_accepts(start, data);
    }
    if m.allocated(data).1 && data.len() > 0 {
        let written = m.allocated(data).0;
        assert forall|i: int| 0 <= i < data.len() implies #[trigger] is_free_for(
            m,
            next_start(m),
            i,
            data[i],
        ) by {
            assert(written.cells.contains_key(start.plus(i)));
        }
        added.lemma_loaded_changes_cells(start, data.drop_last());
    }
}

/// Data is allocated in a new segment: its cells hold the data in order, no other cell changes,
/// and the segment is recorded with its size. If a value is refused, nothing is recorded.
pub proof fn law_allocation_writes_the_data<T: State + StateReader>(
    h: &mut BusinessLogicSyscallHandler<T>,
    vm: &mut VirtualMachine,
    data: Vec<MaybeRelocatable>,
    r: Result<Relocatable, SyscallHandlerError>,
)
    requires
        call_ensures(BusinessLogicSyscallHandler::<T>::allocate_segment, (h, vm, data), r),
    ensures
        ({
            let m = machine(*old(vm));
            let after = machine(*final(vm));
            let n = data@.len();
            &&& has_more_segments(m, after, 1)
            &&& keeps_every_cell(m, after)
            &&& forall|a: Relocatable| #[trigger]
                after.cells.contains_key(a) ==> {
                    ||| m.cells.contains_key(a)
                    ||| a.segment_index == m.next_segment && a.offset < n
                }
            &&& r matches Ok(start) ==> {
                &&& start.segment_index == m.next_segment
                &&& start.offset == 0
                &&& forall|i: int| 0 <= i < n ==> #[trigger] cell(after, start, i) == Some(data@[i])
                &&& adds_records(*old(h), *final(h), 1)
                &&& is_record(
                    final(h).read_only_segments@,
                    old(h).read_only_segments@.len() as int,
                    start,
                    n as int,
                )
                &&& final(h).tx_info_ptr == old(h).tx_info_ptr
            }
            &&& r matches Err(e) ==> e == SyscallHandlerError::SegmentationFault
                && same_allocations(*old(h), *final(h))
        }),
        r is Ok <==> can_hold(machine(*old(vm)), data@),
        machine(*old(vm)).next_segment == machine(*old(vm)).segments ==> r is Ok,
        same_contract(*old(h), *final(h)),
        same_output(*old(h), *final(h)),
        same_requests(*old(h), *final(h)),
{
    let m = machine(*old(vm));
    assert(data@.len() == data.len());
    assert(m.allocated(data@).1 <==> can_hold(m, data@)) by {
        lemma_can_hold(m, data@);
    }
    lemma_allocated(m, data@);
    lemma_felt_of_value(data@.len());
}

/// The number of the chain: its name, read as a big-endian number.
pub open spec fn chain_number(chain_id: StarknetChainId) -> nat {
    match chain_id {
        StarknetChainId::MainNet => 0x53_4e_5f_4d_41_49_4enat,
        StarknetChainId::TestNet => 0x53_4e_5f_47_4f_45_52_4c_49nat,
        StarknetChainId::TestNet2 => 0x53_4e_5f_47_4f_45_52_4c_49_32nat,
    }
}

/// Whether the cell `k` cells after `p` holds an integer of the value.
pub open spec fn holds_number(m: MachineState, p: Relocatable, k: int, value: nat) -> bool {
    integer_in(m, p, k) matches Some(integer) && integer@ == value
}

/// The first request for the transaction's description writes it: the cells from the returned
/// address on hold the version, the account, the fee, the length and the address of the
/// signature, the hash, the chain and the nonce, and the signature's cells hold its values in
/// order. No cell that held a value changes.
pub proof fn law_transaction_reads_back<T: State + StateReader>(
    h: &mut BusinessLogicSyscallHandler<T>,
    vm: &mut VirtualMachine,
    r: Result<Relocatable, SyscallHandlerError>,
)
    requires
        call_ensures(BusinessLogicSyscallHandler::<T>::_get_tx_info_ptr, (h, vm), r),
        old(h).tx_info_ptr is None,
    ensures
        ({
            let m = machine(*old(vm));
            let after = machine(*final(vm));
            let tx = old(h).tx_execution_context;
            &&& keeps_every_cell(m, after)
            &&& m.next_segment == m.segments ==> r is Ok
            &&& r matches Err(e) ==> {
                &&& e == SyscallHandlerError::SegmentationFault
                &&& final(h).tx_info_ptr is None
            }
            &&& r matches Ok(start) ==> {
                let signature = pointer_in(after, start, 4)->0;
                let records = old(h).read_only_segments@.len() as int;
                &&& has_more_segments(m, after, 2)
                &&& holds_number(after, start, 0, tx.version as nat)
                &&& holds_number(after, start, 1, tx.account_contract_address.0@)
                &&& holds_number(after, start, 2, tx.max_fee as nat)
                &&& holds_number(after, start, 3, tx.signature@.len())
                &&& pointer_in(after, start, 4) is Some
                &&& are_integers_in(after, signature, tx.signature@.len() as int, tx.signature@)
                &&& holds_number(after, start, 5, tx.transaction_hash@)
                &&& holds_number(
                    after,
                    start,
                    6,
                    chain_number(old(h).general_config.starknet_os_config.chain_id),
                )
                &&& holds_number(after, start, 7, tx.nonce@)
                &&& signature.segment_index == m.next_segment && signature.offset == 0
                &&& start.segment_index == m.next_segment + 1 && start.offset == 0
                &&& adds_records(*old(h), *final(h), 2)
                &&& is_record(
                    final(h).read_only_segments@,
                    records,
                    signature,
                    tx.signature@.len() as int,
                )
                &&& is_record(final(h).read_only_segments@, records + 1, start, 8)
                &&& final(h).tx_info_ptr == Some(MaybeRelocatable::RelocatableValue(start))
            }
        }),
        same_contract(*old(h), *final(h)),
        same_output(*old(h), *final(h)),
        same_requests(*old(h), *final(h)),
{
    let m = machine(*old(vm));
    let after = machine(*final(vm));
    let tx = old(h).tx_execution_context;
    let chain_id = old(h).general_config.starknet_os_config.chain_id;
    let values = int_cells(tx.signature@);
    let signature = m.next_segment_start();
    let signed = m.allocated(values).0;
    let cells = tx_info_cells(tx, signature, chain_id);
    let start = signed.next_segment_start();
    assert(tx.signature@.len() == tx.signature.len());
    lemma_allocated(m, values);
    lemma_allocated(signed, cells);
    lemma_felt_of_value(tx.version as nat);
    lemma_felt_of_value(tx.max_fee as nat);
    lemma_felt_of_value(tx.signature@.len());
    lemma_felt_of_value(chain_number(chain_id));
    lemma_felt_of_value(8);
    if r is Ok {
        assert(cells.len() == 8);
        assert(cell(after, start, 0) == Some(cells[0]));
        assert(cell(after, start, 1) == Some(cells[1]));
        assert(cell(after, start, 2) == Some(cells[2]));
        assert(cell(after, start, 3) == Some(cells[3]));
        assert(cell(after, start, 4) == Some(cells[4]));
        assert(cell(after, start, 5) == Some(cells[5]));
        assert(cell(after, start, 6) == Some(cells[6]));
        assert(cell(after, start, 7) == Some(cells[7]));
        assert forall|k: int| 0 <= k < tx.signature@.len() implies #[trigger] integer_in(
            after,
            signature,
            k,
        ) == Some(tx.signature@[k]) by {
            assert(cell(signed, signature, k) == Some(values[k]));
        }
    }
}

/// A handler that remembers the address of the transaction's description gives it out; one that
/// remembers an integer fails. Neither the handler nor the memory changes.
pub proof fn law_remembered_address_is_given_out<T: State + StateReader>(
    h: &mut BusinessLogicSyscallHandler<T>,
    vm: &mut VirtualMachine,
    r: Result<Relocatable, SyscallHandlerError>,
)
    requires
        call_ensures(BusinessLogicSyscallHandler::<T>::_get_tx_info_ptr, (h, vm), r),
        old(h).tx_info_ptr is Some,
    ensures
        r matches Ok(pointer) ==> old(h).tx_info_ptr->0 == MaybeRelocatable::RelocatableValue(
            pointer,
        ),
        r matches Err(e) ==> old(h).tx_info_ptr->0 is Int && e
            == SyscallHandlerError::ExpectedRelocatable,
        machine(*final(vm)) == machine(*old(vm)),
        same_allocations(*old(h), *final(h)),
        same_contract(*old(h), *final(h)),
        same_output(*old(h), *final(h)),
        same_requests(*old(h), *final(h)),
{
}

/// A request for the transaction's description when it has been given out: the same address is
/// given out again, and neither the handler nor the memory changes.
pub proof fn law_transaction_is_given_out_again<T: State + StateReader>(
    h: &mut BusinessLogicSyscallHandler<T>,
    vm: &mut VirtualMachine,
    r: Result<Relocatable, SyscallHandlerError>,
    again_h: &mut BusinessLogicSyscallHandler<T>,
    again_vm: &mut VirtualMachine,
    again: Result<Relocatable, SyscallHandlerError>,
)
    requires
        call_ensures(BusinessLogicSyscallHandler::<T>::_get_tx_info_ptr, (h, vm), r),
        call_ensures(
            BusinessLogicSyscallHandler::<T>::_get_tx_info_ptr,
            (again_h, again_vm),
            again,
        ),
        *old(again_h) == *final(h),
        *old(again_vm) == *final(vm),
        r is Ok,
    ensures
        again == r,
        machine(*final(again_vm)) == machine(*final(vm)),
        same_allocations(*final(h), *final(again_h)),
        same_contract(*final(h), *final(again_h)),
        same_output(*final(h), *final(again_h)),
        same_requests(*final(h), *final(again_h)),
{
}

/// The start of the next segment that the machine adds.
pub open spec fn next_start(m: MachineState) -> Relocatable {
    Relocatable { segment_index: m.next_segment as isize, offset: 0 }
}

/// The response of a call stands behind its request: the cell at 5 holds how many values the
/// call returned, and the cell at 6 the address of a new segment that holds them in order.
pub proof fn law_response_is_what_the_call_returned<T: State + StateReader>(
    h: &mut BusinessLogicSyscallHandler<T>,
    vm: &mut VirtualMachine,
    ptr: Relocatable,
    retdata: Vec<Felt>,
    r: Result<(), SyscallHandlerError>,
)
    requires
        call_ensures(
            BusinessLogicSyscallHandler::<T>::write_call_response,
            (h, vm, ptr, retdata),
            r,
        ),
        ptr.offset + 6 <= usize::MAX,
    ensures
        ({
            let m = machine(*old(vm));
            let after = machine(*final(vm));
            let n = retdata@.len();
            let start = next_start(m);
            &&& start.segment_index == m.next_segment
            &&& has_more_segments(m, after, 1)
            &&& keeps_every_cell(m, after)
            &&& forall|a: Relocatable| #[trigger]
                after.cells.contains_key(a) ==> {
                    ||| m.cells.contains_key(a)
                    ||| a.segment_index == m.next_segment && a.offset < n
                    ||| a == cell_address(ptr, 5)
                    ||| a == cell_address(ptr, 6)
                }
            &&& r is Ok ==> {
                &&& holds_number(after, ptr, 5, n)
                &&& pointer_in(after, ptr, 6) == Some(start)
                &&& are_integers_in(after, start, n as int, retdata@)
            }
            &&& r matches Err(e) ==> e == SyscallHandlerError::SegmentationFault
        }),
        final(h).tx_info_ptr == old(h).tx_info_ptr,
        same_contract(*old(h), *final(h)),
        same_output(*old(h), *final(h)),
        same_requests(*old(h), *final(h)),
{
    let m = machine(*old(vm));
    let after = machine(*final(vm));
    let start = m.next_segment_start();
    let values = int_cells(retdata@);
    let m1 = m.allocated(values).0;
    assert(retdata@.len() == retdata.len());
    lemma_allocated(m, values);
    lemma_felt_of_value(retdata@.len());
    assert(keeps_every_cell(m1, after));
    if r is Ok {
        assert forall|k: int| 0 <= k < retdata@.len() implies #[trigger] integer_in(
            after,
            start,
            k,
        ) == Some(retdata@[k]) by {
            assert(cell(m1, start, k) == Some(values[k]));
        }
    }
}

/// The segment of the returned values is recorded with its size, exactly if it can hold them.
/// While segments are numbered one after the other it can, and the response is then written
/// exactly if its two cells are free or hold it already.
pub proof fn law_response_is_written_where_it_can_be<T: State + StateReader>(
    h: &mut BusinessLogicSyscallHandler<T>,
    vm: &mut VirtualMachine,
    ptr: Relocatable,
    retdata: Vec<Felt>,
    r: Result<(), SyscallHandlerError>,
)
    requires
        call_ensures(
            BusinessLogicSyscallHandler::<T>::write_call_response,
            (h, vm, ptr, retdata),
            r,
        ),
        ptr.offset + 6 <= usize::MAX,
    ensures
        can_hold(machine(*old(vm)), int_cells(retdata@)) ==> {
            &&& adds_records(*old(h), *final(h), 1)
            &&& is_record(
                final(h).read_only_segments@,
                old(h).read_only_segments@.len() as int,
                next_start(machine(*old(vm))),
                retdata@.len() as int,
            )
        },
        !can_hold(machine(*old(vm)), int_cells(retdata@)) ==> r is Err && same_allocations(
            *old(h),
            *final(h),
        ),
        machine(*old(vm)).next_segment == machine(*old(vm)).segments ==> can_hold(
            machine(*old(vm)),
            int_cells(retdata@),
        ),
        machine(*old(vm)).next_segment == machine(*old(vm)).segments && segment_exists(
            machine(*old(vm)),
            ptr.segment_index as int,
        ) ==> (r is Ok <==> {
            let m = machine(*old(vm));
            &&& cell(m, ptr, 5) is None || holds_number(m, ptr, 5, retdata@.len())
            &&& is_free_for(m, ptr, 6, MaybeRelocatable::RelocatableValue(next_start(m)))
        }),
{
    let m = machine(*old(vm));
    let start = m.next_segment_start();
    let values = int_cells(retdata@);
    let m1 = m.allocated(values).0;
    assert(retdata@.len() == retdata.len());
    lemma_can_hold(m, values);
    lemma_allocated(m, values);
    lemma_felt_of_value(retdata@.len());
    if let Some(integer) = integer_in(m, ptr, 5) {
        if integer@ == retdata@.len() {
            lemma_felt_is_its_value(integer, felt_of(retdata@.len()));
        }
    }
    if m.next_segment == m.segments && segment_exists(m, ptr.segment_index as int) {
        assert(cell(m1, ptr, 5) == cell(m, ptr, 5));
        assert(cell(m1, ptr, 6) == cell(m, ptr, 6));
    }
}

/// The number of the block is written behind the request, exactly if memory holds the request
/// and the cell behind it is free or holds that number. No other cell changes.
pub proof fn law_block_number_is_written<T: State + StateReader>(
    h: &mut BusinessLogicSyscallHandler<T>,
    vm: &mut VirtualMachine,
    ptr: Relocatable,
    r: Result<(), SyscallHandlerError>,
)
    requires
        call_ensures(BusinessLogicSyscallHandler::<T>::get_block_number, (h, vm, ptr), r),
        ptr.offset < usize::MAX,
    ensures
        ({
            let m = machine(*old(vm));
            let after = machine(*final(vm));
            let number = old(h).general_config.block_info.block_number as nat;
            &&& has_more_segments(m, after, 0)
            &&& keeps_every_cell(m, after)
            &&& forall|a: Relocatable| #[trigger]
                after.cells.contains_key(a) ==> m.cells.contains_key(a) || a == cell_address(ptr, 1)
            &&& r is Ok <==> {
                &&& integer_in(m, ptr, 0) is Some
                &&& segment_exists(m, ptr.segment_index as int)
                &&& cell(m, ptr, 1) is None || holds_number(m, ptr, 1, number)
            }
            &&& r is Ok ==> holds_number(after, ptr, 1, number)
            &&& r matches Err(e) ==> after == m && e == if integer_in(m, ptr, 0) is None {
                SyscallHandlerError::ExpectedInteger
            } else {
                SyscallHandlerError::SegmentationFault
            }
        }),
        is_registered(*old(h), *final(h), machine(*old(vm)), "get_block_number"@, ptr),
        same_contract(*old(h), *final(h)),
        same_output(*old(h), *final(h)),
        same_allocations(*old(h), *final(h)),
{
    let m = machine(*old(vm));
    let number = old(h).general_config.block_info.block_number as nat;
    lemma_syscall_names();
    lemma_request(m, "get_block_number"@, ptr);
    lemma_felt_of_value(number);
    if let Some(integer) = integer_in(m, ptr, 1) {
        if integer@ == number {
            lemma_felt_is_its_value(integer, felt_of(number));
        }
    }
}

/// What is wrong with a read-only segment after a run, if anything is.
pub open spec fn segment_fault(
    m: MachineState,
    record: (Relocatable, MaybeRelocatable),
) -> Option<ExecutionError> {
    let index = record.0.segment_index as usize as int;
    if m.used_sizes is None || index >= m.used_sizes->0.len() {
        Some(ExecutionError::InvalidSegmentSize)
    } else if record.1 is RelocatableValue {
        Some(ExecutionError::NotAnInt)
    } else if record.1->Int_0@ != m.used_sizes->0[index] {
        Some(ExecutionError::OutOfBound)
    } else if !m.run_finished || m.accessed is None {
        Some(ExecutionError::RunNotFinished)
    } else {
        None
    }
}

/// Whether the address is that of a cell of one of the first `n` segments.
pub open spec fn is_cell_of(
    records: Seq<(Relocatable, MaybeRelocatable)>,
    n: int,
    address: Relocatable,
) -> bool {
    exists|j: int, k: int|
        0 <= j < n && 0 <= k < records[j].1->Int_0@ && address == #[trigger] cell_address(
            records[j].0,
            k,
        )
}

/// Whether the first `n` segments have been found in order and marked, and no more: the next one
/// gives the failure, or there is none.
pub open spec fn is_checked_up_to(
    m: MachineState,
    after: MachineState,
    records: Seq<(Relocatable, MaybeRelocatable)>,
    r: Result<(), ExecutionError>,
    n: int,
) -> bool {
    &&& 0 <= n <= records.len()
    &&& forall|i: int| 0 <= i < n ==> segment_fault(m, #[trigger] records[i]) is None
    &&& r is Ok ==> n == records.len()
    &&& r matches Err(e) ==> n < records.len() && segment_fault(m, records[n]) == Some(e)
    &&& has_more_segments(MachineState { accessed: after.accessed, ..m }, after, 0)
    &&& after.cells == m.cells
    &&& after.accessed is Some <==> m.accessed is Some
    &&& m.accessed is Some ==> forall|a: Relocatable| #[trigger]
        after.accessed->0.contains(a) <==> m.accessed->0.contains(a) || is_cell_of(records, n, a)
}

/// What the check of the segments does, up to where it stops.
proof fn lemma_check<T: State + StateReader>(
    m: MachineState,
    records: Seq<(Relocatable, MaybeRelocatable)>,
) -> (n: int)
    ensures
        ({
            let (after, r) = BusinessLogicSyscallHandler::<T>::segments_check(m, records);
            is_checked_up_to(m, after, records, r, n)
        }),
    decreases records.len(),
{
    let (after, r) = BusinessLogicSyscallHandler::<T>::segments_check(m, records);
    if records.len() == 0 {
        0
    } else {
        let front = records.drop_last();
        let last = records.len() - 1;
        let n = lemma_check::<T>(m, front);
        let (between, outcome) = BusinessLogicSyscallHandler::<T>::segments_check(m, front);
        assert(records.last() == records[last]);
        assert forall|i: int| 0 <= i < front.len() implies front[i] == #[trigger] records[i] by {}
        assert forall|a: Relocatable| is_cell_of(front, n, a) <==> #[trigger] is_cell_of(
            records,
            n,
            a,
        ) by {
            if is_cell_of(front, n, a) {
                let (j, k) = choose|j: int, k: int|
                    0 <= j < n && 0 <= k < front[j].1->Int_0@ && a == #[trigger] cell_address(
                        front[j].0,
                        k,
                    );
                assert(a == cell_address(records[j].0, k));
            }
            if is_cell_of(records, n, a) {
                let (j, k) = choose|j: int, k: int|
                    0 <= j < n && 0 <= k < records[j].1->Int_0@ && a == #[trigger] cell_address(
                        records[j].0,
                        k,
                    );
                assert(a == cell_address(front[j].0, k));
            }
        }
        if outcome is Err {
            n
        } else {
            assert(segment_fault(between, records[last]) == segment_fault(m, records[last]));
            if r is Err {
                last
            } else {
                let size = m.used_sizes->0[records[last].0.segment_index as usize as int];
                let marks = Seq::new(size as nat, |k: int| records[last].0.plus(k));
                assert forall|a: Relocatable| #[trigger]
                    after.accessed->0.contains(a) <==> m.accessed->0.contains(a) || is_cell_of(
                    records,
                    last + 1,
                    a,
                ) by {
                    lemma_marks(between.accessed->0, marks, a);
                    if marks.contains(a) {
                        let k = choose|k: int| 0 <= k < marks.len() && marks[k] == a;
                        assert(a == cell_address(records[last].0, k));
                    }
                    if is_cell_of(records, last, a) {
                        let (j, k) = choose|j: int, k: int|
                            0 <= j < last && 0 <= k < records[j].1->Int_0@ && a
                                == #[trigger] cell_address(records[j].0, k);
                        assert(a == cell_address(records[j].0, k));
                    }
                    if is_cell_of(records, last + 1, a) {
                        let (j, k) = choose|j: int, k: int|
                            0 <= j < last + 1 && 0 <= k < records[j].1->Int_0@ && a
                                == #[trigger] cell_address(records[j].0, k);
                        if j == last {
                            assert(marks[k] == a);
                        } else {
                            assert(a == cell_address(records[j].0, k));
                        }
                    }
                }
                last + 1
            }
        }
    }
}

/// Two sequences together hold what either holds.
proof fn lemma_marks(a: Seq<Relocatable>, b: Seq<Relocatable>, x: Relocatable)
    ensures
        (a + b).contains(x) <==> a.contains(x) || b.contains(x),
{
    if a.contains(x) {
        let i = choose|i: int| 0 <= i < a.len() && a[i] == x;
        assert((a + b)[i] == x);
    }
    if b.contains(x) {
        let i = choose|i: int| 0 <= i < b.len() && b[i] == x;
        assert((a + b)[a.len() + i] == x);
    }
}

/// The read-only segments are checked in order, up to the first that is not as it was made. The
/// cells of those before it, and no others, are marked as accessed.
pub proof fn law_read_only_segments_are_checked_in_order<T: State + StateReader>(
    h: &BusinessLogicSyscallHandler<T>,
    vm: &mut VirtualMachine,
    r: Result<(), ExecutionError>,
)
    requires
        call_ensures(BusinessLogicSyscallHandler::<T>::validate_read_only_segments, (h, vm), r),
    ensures
        exists|n: int|
            is_checked_up_to(
                machine(*old(vm)),
                machine(*final(vm)),
                h.read_only_segments@,
                r,
                n,
            ),
{
    let n = lemma_check::<T>(machine(*old(vm)), h.read_only_segments@);
}

/// After a run, a syscall pointer that did not stop where it was expected is reported, and
/// nothing is marked. Otherwise the read-only segments are checked.
pub proof fn law_run_is_checked<T: State + StateReader>(
    h: &BusinessLogicSyscallHandler<T>,
    vm: &mut VirtualMachine,
    stop: Relocatable,
    r: Result<(), ExecutionError>,
)
    requires
        call_ensures(BusinessLogicSyscallHandler::<T>::post_run, (h, vm, stop), r),
    ensures
        ({
            let expected = h.expected_syscall_ptr;
            if stop.segment_index == expected.segment_index && stop.offset == expected.offset {
                exists|n: int|
                    is_checked_up_to(
                        machine(*old(vm)),
                        machine(*final(vm)),
                        h.read_only_segments@,
                        r,
                        n,
                    )
            } else {
                &&& r == Err::<(), _>(ExecutionError::InvalidStopPointer(expected, stop))
                &&& machine(*final(vm)) == machine(*old(vm))
            }
        }),
{
    let n = lemma_check::<T>(machine(*old(vm)), h.read_only_segments@);
}

} // verus!
