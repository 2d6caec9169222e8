//! What holds of the handler beyond a single call.
use vstd::prelude::*;
use crate::business_logic_syscall_handler::{
    int_cells, request_of, segment_record, BusinessLogicSyscallHandler,
};
use crate::config::StarknetChainId;
use crate::errors::{ExecutionError, SyscallHandlerError};
use crate::felt::{
    be_bytes, felt_of, lemma_felt_bytes, lemma_felt_is_its_value, lemma_felt_of_value, Felt,
};
use crate::machine::MachineState;
use crate::objects::{tx_info_cells, Address, TransactionExecutionContext};
use crate::relocatable::{MaybeRelocatable, Relocatable};
use crate::state::{State, StateReader};
use crate::syscall_info::{syscall_named, syscall_size};

verus! {

/// Different addresses have different storage keys.
pub proof fn law_storage_keys_differ(a: Address, b: Address)
    requires
        a != b,
    ensures
        be_bytes(a.0@, 32) != be_bytes(b.0@, 32),
{
    lemma_felt_bytes(a.0);
    lemma_felt_bytes(b.0);
    if be_bytes(a.0@, 32) == be_bytes(b.0@, 32) {
        lemma_felt_is_its_value(a.0, b.0);
    }
}

/// A stored value is read back, and what is stored at other addresses stays.
pub proof fn law_storage_returns_what_was_written<T: State + StateReader>(
    before: BusinessLogicSyscallHandler<T>,
    after: BusinessLogicSyscallHandler<T>,
    address: Address,
    value: Felt,
    other: Address,
)
    requires
        after.has_stored(before, address, value),
        after.keeps_all_but_storage(before),
    ensures
        after.stored_at(address) == Ok::<Felt, SyscallHandlerError>(value),
        other != address ==> after.stored_at(other) == before.stored_at(other),
{
    if other != address {
        law_storage_keys_differ(other, address);
    }
}

/// The integers written to memory are the ones read from it, then and as long as no cell
/// changes.
pub proof fn law_integers_read_back(
    m: MachineState,
    later: MachineState,
    start: Relocatable,
    values: Seq<Felt>,
)
    requires
        m.holds(start, int_cells(values)),
        later.keeps_cells(m),
        start.offset + values.len() <= usize::MAX,
    ensures
        later.int_range(start, values.len()) == Some(values),
{
    assert forall|k: int| 0 <= k < values.len() implies #[trigger] later.int_at(start, k) == Some(
        values[k],
    ) by {
        assert(m.cells.contains_key(start.plus(k)) && m.cells[start.plus(k)] == int_cells(
            values,
        )[k]);
    }
    assert(later.int_range(start, values.len())->0 =~= values);
}

/// Every segment that is allocated is another one than those before it.
pub proof fn law_segments_are_new(m: MachineState, values: Seq<MaybeRelocatable>)
    requires
        m.next_segment < isize::MAX,
    ensures
        m.allocated(values).0.next_segment_start().segment_index
            == m.next_segment_start().segment_index + 1,
{
    m.with_new_segment().lemma_loaded_changes_cells(m.next_segment_start(), values);
}

/// The response behind the request of a call gives the contract what the call returned.
pub proof fn law_call_response_reads_back(
    m: MachineState,
    syscall_ptr: Relocatable,
    start: Relocatable,
    retdata: Seq<Felt>,
)
    requires
        m.holds(
            syscall_ptr.plus(5),
            seq![
                MaybeRelocatable::Int(felt_of(retdata.len())),
                MaybeRelocatable::RelocatableValue(start),
            ],
        ),
        m.holds(start, int_cells(retdata)),
        syscall_ptr.offset + 6 <= usize::MAX,
        start.segment_index >= 0,
        start.offset + retdata.len() <= usize::MAX,
    ensures
        m.usize_field(syscall_ptr, 5) == Ok::<usize, SyscallHandlerError>(retdata.len() as usize),
        m.pointer_field(syscall_ptr, 6) == Ok::<Relocatable, SyscallHandlerError>(start),
        m.int_range(start, retdata.len()) == Some(retdata),
{
    assert(syscall_ptr.plus(5).plus(0) == syscall_ptr.plus(5));
    assert(syscall_ptr.plus(5).plus(1) == syscall_ptr.plus(6));
    lemma_felt_of_value(retdata.len());
    law_integers_read_back(m, m, start, retdata);
}

/// The cells that describe the transaction lead the contract to its signature.
pub proof fn law_signature_reads_back(
    m: MachineState,
    tx: TransactionExecutionContext,
    chain_id: StarknetChainId,
    start: Relocatable,
    signature: Relocatable,
)
    requires
        m.holds(start, tx_info_cells(tx, signature, chain_id)),
        m.holds(signature, int_cells(tx.signature@)),
        start.offset + 8 <= usize::MAX,
        signature.segment_index >= 0,
        signature.offset + tx.signature@.len() <= usize::MAX,
    ensures
        m.usize_field(start, 3) == Ok::<usize, SyscallHandlerError>(tx.signature@.len() as usize),
        m.pointer_field(start, 4) == Ok::<Relocatable, SyscallHandlerError>(signature),
        m.int_range(signature, tx.signature@.len()) == Some(tx.signature@),
{
    assert(m.cells.contains_key(start.plus(3)));
    assert(m.cells.contains_key(start.plus(4)));
    lemma_felt_of_value(tx.signature@.len());
    law_integers_read_back(m, m, signature, tx.signature@);
}

/// Whether the machine's size for the segment is the recorded one.
pub open spec fn has_recorded_size(
    m: MachineState,
    segment: (Relocatable, MaybeRelocatable),
) -> bool {
    m.used_size(segment.0.segment_index as usize) matches Some(used_size) && segment.1 matches
    MaybeRelocatable::Int(size) && size@ == used_size
}

/// The check of the read-only segments passes exactly if every segment has the size it was made
/// with and, where there is a segment, the run has ended. It changes nothing in the machine but
/// the accessed addresses.
pub proof fn law_read_only_segments_keep_their_sizes<T: State + StateReader>(
    m: MachineState,
    segments: Seq<(Relocatable, MaybeRelocatable)>,
)
    ensures
        BusinessLogicSyscallHandler::<T>::segments_check(m, segments).1 is Ok <==> {
            &&& forall|i: int| 0 <= i < segments.len() ==> has_recorded_size(m, #[trigger] segments[i])
            &&& segments.len() > 0 ==> m.markable()
        },
        ({
            let after = BusinessLogicSyscallHandler::<T>::segments_check(m, segments).0;
            &&& after == (MachineState { accessed: after.accessed, ..m })
            &&& after.accessed is Some <==> m.accessed is Some
        }),
    decreases segments.len(),
{
    if segments.len() > 0 {
        law_read_only_segments_keep_their_sizes::<T>(m, segments.drop_last());
        let (before, outcome) = BusinessLogicSyscallHandler::<T>::segments_check(
            m,
            segments.drop_last(),
        );
        let n = segments.len() - 1;
        assert(segments.last() == segments[n]);
        assert(before.used_size(segments[n].0.segment_index as usize) == m.used_size(
            segments[n].0.segment_index as usize,
        ));
        assert(has_recorded_size(before, segments[n]) == has_recorded_size(m, segments[n]));
        if forall|i: int| 0 <= i < segments.len() ==> has_recorded_size(m, #[trigger] segments[i]) {
            assert forall|i: int| 0 <= i < n implies has_recorded_size(
                m,
                #[trigger] segments.drop_last()[i],
            ) by {
                assert(has_recorded_size(m, segments[i]));
            }
        }
        if outcome is Ok {
            assert forall|i: int| 0 <= i < n implies has_recorded_size(m, #[trigger] segments[i]) by {
                assert(has_recorded_size(m, segments.drop_last()[i]));
            }
        }
    }
}

/// A segment as it was allocated passes the check after the run; one that has another size then
/// is reported.
pub proof fn law_allocated_segment_is_checked<T: State + StateReader>(
    m: MachineState,
    start: Relocatable,
    size: usize,
    used_size: usize,
)
    requires
        m.markable(),
        m.used_size(start.segment_index as usize) == Some(used_size),
    ensures
        BusinessLogicSyscallHandler::<T>::segment_check(m, segment_record(start, size as nat)).1
            == if used_size == size {
            Ok::<(), ExecutionError>(())
        } else {
            Err(ExecutionError::OutOfBound)
        },
{
    lemma_felt_of_value(size as nat);
}

/// Whether the events that the handler keeps are the last ones of the transaction, numbered
/// without a gap.
pub open spec fn events_in_order<T: State + StateReader>(h: BusinessLogicSyscallHandler<T>) -> bool {
    forall|i: int|
        0 <= i < h.events@.len() ==> (#[trigger] h.events@[i]).order
            == h.tx_execution_context.n_emitted_events - h.events@.len() + i
}

/// A handler that has put out nothing has it in order.
pub proof fn law_no_output_is_in_order<T: State + StateReader>(h: BusinessLogicSyscallHandler<T>)
    requires
        h.events@.len() == 0,
        h.l2_to_l1_messages@.len() == 0,
    ensures
        events_in_order(h),
        messages_in_order(h),
{
}

/// An emitted event takes the next number, so the events stay numbered without a gap.
pub proof fn law_events_stay_in_order<T: State + StateReader>(
    before: BusinessLogicSyscallHandler<T>,
    after: BusinessLogicSyscallHandler<T>,
    keys: Seq<Felt>,
    data: Seq<Felt>,
)
    requires
        events_in_order(before),
        before.tx_execution_context.n_emitted_events < usize::MAX,
        after.has_emitted(before, keys, data),
    ensures
        events_in_order(after),
{
    assert forall|i: int| 0 <= i < after.events@.len() implies (#[trigger] after.events@[i]).order
        == after.tx_execution_context.n_emitted_events - after.events@.len() + i by {
        if i < before.events@.len() {
            assert(after.events@.drop_last()[i] == before.events@[i]);
        }
    }
}

/// Whether the messages that the handler keeps are the last ones of the transaction, numbered
/// without a gap.
pub open spec fn messages_in_order<T: State + StateReader>(
    h: BusinessLogicSyscallHandler<T>,
) -> bool {
    forall|i: int|
        0 <= i < h.l2_to_l1_messages@.len() ==> (#[trigger] h.l2_to_l1_messages@[i]).order
            == h.tx_execution_context.n_sent_messages - h.l2_to_l1_messages@.len() + i
}

/// A sent message takes the next number, so the messages stay numbered without a gap.
pub proof fn law_messages_stay_in_order<T: State + StateReader>(
    before: BusinessLogicSyscallHandler<T>,
    after: BusinessLogicSyscallHandler<T>,
    to_address: Address,
    payload: Seq<Felt>,
)
    requires
        messages_in_order(before),
        before.tx_execution_context.n_sent_messages < usize::MAX,
        after.has_sent(before, to_address, payload),
    ensures
        messages_in_order(after),
{
    assert forall|i: int| 0 <= i < after.l2_to_l1_messages@.len() implies (
    #[trigger] after.l2_to_l1_messages@[i]).order == after.tx_execution_context.n_sent_messages
        - after.l2_to_l1_messages@.len() + i by {
        if i < before.l2_to_l1_messages@.len() {
            assert(after.l2_to_l1_messages@.drop_last()[i] == before.l2_to_l1_messages@[i]);
        }
    }
}

/// Emitting an event leaves the numbering of messages alone, and sending a message that of
/// events.
pub proof fn law_events_and_messages_are_apart<T: State + StateReader>(
    before: BusinessLogicSyscallHandler<T>,
    after: BusinessLogicSyscallHandler<T>,
    keys: Seq<Felt>,
    data: Seq<Felt>,
    to_address: Address,
    payload: Seq<Felt>,
)
    ensures
        messages_in_order(before) && after.has_emitted(before, keys, data) ==> messages_in_order(
            after,
        ),
        events_in_order(before) && after.has_sent(before, to_address, payload) ==> events_in_order(
            after,
        ),
{
}

/// One reading of a request: in which memory, of which syscall, and where.
pub struct RequestReading {
    pub memory: MachineState,
    pub name: Seq<char>,
    pub ptr: Relocatable,
}

/// How far the readings move the syscall pointer: past the structures of the requests that could
/// be read.
pub open spec fn cells_read(readings: Seq<RequestReading>) -> nat
    decreases readings.len(),
{
    if readings.len() == 0 {
        0
    } else {
        let last = readings.last();
        cells_read(readings.drop_last()) + if request_of(last.memory, last.name, last.ptr) is Some {
            syscall_size(syscall_named(last.name)->0) as nat
        } else {
            0
        }
    }
}

/// How many of the readings are of the named syscall.
pub open spec fn readings_of(readings: Seq<RequestReading>, name: Seq<char>) -> nat
    decreases readings.len(),
{
    if readings.len() == 0 {
        0
    } else {
        readings_of(readings.drop_last(), name) + if readings.last().name == name {
            1nat
        } else {
            0nat
        }
    }
}

/// After several syscalls each of them has been counted, whether or not its request could be
/// read, and the syscall pointer is expected behind the structures of all that could be read.
/// `handlers` holds the handler before the first reading and after each.
pub proof fn law_syscalls_add_up<T: State + StateReader>(
    handlers: Seq<BusinessLogicSyscallHandler<T>>,
    readings: Seq<RequestReading>,
    name: Seq<char>,
)
    requires
        handlers.len() == readings.len() + 1,
        forall|i: int|
            #![trigger readings[i]]
            0 <= i < readings.len() ==> handlers[i + 1].has_read(
                handlers[i],
                readings[i].memory,
                readings[i].name,
                readings[i].ptr,
            ),
        handlers[0].expected_syscall_ptr.offset + cells_read(readings) <= usize::MAX,
        handlers[0].resources_manager.times(name) + readings_of(readings, name) <= u64::MAX,
    ensures
        handlers.last().expected_syscall_ptr == handlers[0].expected_syscall_ptr.plus(
            cells_read(readings) as int,
        ),
        handlers.last().resources_manager.times(name) == handlers[0].resources_manager.times(name)
            + readings_of(readings, name),
    decreases readings.len(),
{
    if readings.len() > 0 {
        let n = readings.len() - 1;
        assert forall|i: int|
            #![trigger readings.drop_last()[i]]
            0 <= i < readings.drop_last().len() implies handlers.drop_last()[i + 1].has_read(
            handlers.drop_last()[i],
            readings.drop_last()[i].memory,
            readings.drop_last()[i].name,
            readings.drop_last()[i].ptr,
        ) by {
            assert(readings.drop_last()[i] == readings[i]);
        }
        law_syscalls_add_up(handlers.drop_last(), readings.drop_last(), name);
        assert(readings.last() == readings[n]);
        assert(handlers[n + 1] == handlers.last());
        assert(handlers[n] == handlers.drop_last().last());
    }
}

/// The cells that describe the transaction are written once: who asks again is given the same
/// address, and the memory stays as it is.
pub proof fn law_transaction_is_described_once<T: State + StateReader>(
    before: BusinessLogicSyscallHandler<T>,
    between: BusinessLogicSyscallHandler<T>,
    after: BusinessLogicSyscallHandler<T>,
    memory_before: MachineState,
    memory_between: MachineState,
    memory_after: MachineState,
    pointer: Relocatable,
    again: Result<Relocatable, SyscallHandlerError>,
)
    requires
        between.has_given_tx_info(before, memory_before, memory_between, Ok(pointer)),
        after.has_given_tx_info(between, memory_between, memory_after, again),
    ensures
        again == Ok::<Relocatable, SyscallHandlerError>(pointer),
        memory_after == memory_between,
        after.keeps_segments(between),
{
}

} // verus!
