//! The virtual machine's memory as the handler sees it.
use vstd::prelude::*;
use cairo_felt::Felt as VmFelt;
use cairo_vm::types::relocatable::{MaybeRelocatable as VmValue, Relocatable as VmPointer};
use cairo_vm::vm::errors::memory_errors::MemoryError;
use cairo_vm::vm::errors::vm_errors::VirtualMachineError;
use cairo_vm::vm::vm_core::VirtualMachine;
use crate::errors::SyscallHandlerError;
use crate::felt::Felt;
use crate::relocatable::{MaybeRelocatable, Relocatable};

verus! {

/// The virtual machine of the `cairo_vm` crate.
#[verifier::external_type_specification]
#[verifier::external_body]
pub struct ExVirtualMachine(VirtualMachine);

/// The error of `cairo_vm`'s memory operations.
#[verifier::external_type_specification]
#[verifier::external_body]
pub struct ExMemoryError(MemoryError);

/// The error of `cairo_vm`'s machine operations.
#[verifier::external_type_specification]
#[verifier::external_body]
pub struct ExVirtualMachineError(VirtualMachineError);

/// What the handler's work depends on in a virtual machine.
pub struct MachineState {
    /// The value stored in each cell that holds one.
    pub cells: Map<Relocatable, MaybeRelocatable>,
    /// How many permanent segments the memory has; their indexes count up from zero.
    pub segments: nat,
    /// How many temporary segments the memory has; their indexes count down from -1.
    pub temporary_segments: nat,
    /// The index that the machine gives to the next segment it adds.
    pub next_segment: nat,
    /// Where each temporary segment that has a relocation rule is moved to. The temporary
    /// segment of index -1 has the key 0, that of index -2 the key 1, and so on.
    pub relocations: Map<int, Relocatable>,
    /// The segments whose cells a builtin checks when they are written.
    pub validated: Set<int>,
    /// The sizes that the machine has computed for its segments, if it has.
    pub used_sizes: Option<Seq<usize>>,
    /// The addresses marked as accessed, where the machine keeps them.
    pub accessed: Option<Seq<Relocatable>>,
    /// Whether the run has ended.
    pub run_finished: bool,
}

/// How many cells of a segment, at six words a cell, fit in one allocation.
pub open spec fn offset_limit() -> int {
    (isize::MAX as int) / (if usize::BITS == 32 {
        24int
    } else {
        48int
    })
}

/// The state of a virtual machine.
pub uninterp spec fn machine(vm: VirtualMachine) -> MachineState;

impl MachineState {
    /// A machine with no memory, before its run ends.
    pub open spec fn empty() -> MachineState {
        MachineState {
            cells: Map::empty(),
            segments: 0,
            temporary_segments: 0,
            next_segment: 0,
            relocations: Map::empty(),
            validated: Set::empty(),
            used_sizes: None,
            accessed: Some(Seq::empty()),
            run_finished: false,
        }
    }

    /// Where the rule for the segment of `pointer` moves that segment to.
    pub open spec fn relocation_of(self, pointer: Relocatable) -> Option<Relocatable> {
        if pointer.segment_index < 0 && self.relocations.contains_key(
            -(pointer.segment_index + 1),
        ) {
            Some(self.relocations[-(pointer.segment_index + 1)])
        } else {
            None
        }
    }

    /// A stored value as a read returns it: pointers into temporary segments are moved.
    pub open spec fn relocate(self, value: MaybeRelocatable) -> MaybeRelocatable {
        match value {
            MaybeRelocatable::Int(_) => value,
            MaybeRelocatable::RelocatableValue(pointer) => match self.relocation_of(pointer) {
                Some(target) => MaybeRelocatable::RelocatableValue(
                    target.plus(pointer.offset as int),
                ),
                None => value,
            },
        }
    }

    /// Whether a stored value can be read: an integer if it is reduced, a pointer if moving it
    /// stays within the offsets that exist.
    pub open spec fn can_read(self, value: MaybeRelocatable) -> bool {
        match value {
            MaybeRelocatable::Int(integer) => integer.is_reduced(),
            MaybeRelocatable::RelocatableValue(pointer) => self.relocation_of(
                pointer,
            ) matches Some(target) ==> target.offset + pointer.offset <= usize::MAX,
        }
    }

    /// Whether every cell that holds a value can be read.
    pub open spec fn readable(self) -> bool {
        forall|address: Relocatable| #[trigger]
            self.cells.contains_key(address) ==> self.can_read(self.cells[address])
    }

    /// What a read of `address` returns.
    pub open spec fn read(self, address: Relocatable) -> Option<MaybeRelocatable> {
        if self.cells.contains_key(address) {
            Some(self.relocate(self.cells[address]))
        } else {
            None
        }
    }

    /// What the cell `n` cells after `address` holds.
    pub open spec fn read_at(self, address: Relocatable, n: int) -> Option<MaybeRelocatable> {
        if address.offset + n <= usize::MAX {
            self.read(address.plus(n))
        } else {
            None
        }
    }

    /// The integer in the cell `n` cells after `address`.
    pub open spec fn int_at(self, address: Relocatable, n: int) -> Option<Felt> {
        match self.read_at(address, n) {
            Some(MaybeRelocatable::Int(value)) => Some(value),
            _ => None,
        }
    }

    /// The address in the cell `n` cells after `address`.
    pub open spec fn pointer_at(self, address: Relocatable, n: int) -> Option<Relocatable> {
        match self.read_at(address, n) {
            Some(MaybeRelocatable::RelocatableValue(pointer)) => Some(pointer),
            _ => None,
        }
    }

    /// The integers in the `n` cells from `address` on, when all of them hold one.
    pub open spec fn int_range(self, address: Relocatable, n: nat) -> Option<Seq<Felt>> {
        if forall|k: int| 0 <= k < n ==> #[trigger] self.int_at(address, k) is Some {
            Some(Seq::new(n, |k: int| self.int_at(address, k)->0))
        } else {
            None
        }
    }

    /// The integer that a request holds in its field at `n`.
    pub open spec fn felt_field(self, request: Relocatable, n: int) -> Result<
        Felt,
        SyscallHandlerError,
    > {
        match self.int_at(request, n) {
            Some(value) => Ok(value),
            None => Err(SyscallHandlerError::ExpectedInteger),
        }
    }

    /// The size that a request holds in its field at `n`.
    pub open spec fn usize_field(self, request: Relocatable, n: int) -> Result<
        usize,
        SyscallHandlerError,
    > {
        match self.int_at(request, n) {
            Some(value) => if value@ <= usize::MAX {
                Ok(value@ as usize)
            } else {
                Err(SyscallHandlerError::FeltToUsizeFail)
            },
            None => Err(SyscallHandlerError::ExpectedInteger),
        }
    }

    /// The address that a request holds in its field at `n`.
    pub open spec fn pointer_field(self, request: Relocatable, n: int) -> Result<
        Relocatable,
        SyscallHandlerError,
    > {
        match self.pointer_at(request, n) {
            Some(pointer) => Ok(pointer),
            None => Err(SyscallHandlerError::ExpectedRelocatable),
        }
    }

    /// Whether the memory has the segment.
    pub open spec fn has_segment(self, index: isize) -> bool {
        if index < 0 {
            -(index + 1) < self.temporary_segments
        } else {
            index < self.segments
        }
    }

    /// Whether `value` can be written: the segment exists, and the cell does not hold another
    /// value already.
    pub open spec fn accepts(self, address: Relocatable, value: MaybeRelocatable) -> bool {
        &&& self.has_segment(address.segment_index)
        &&& self.cells.contains_key(address) ==> self.cells[address] == value
    }

    /// The machine after an attempt to write `value`.
    pub open spec fn stored(self, address: Relocatable, value: MaybeRelocatable) -> MachineState {
        if self.accepts(address, value) {
            MachineState { cells: self.cells.insert(address, value), ..self }
        } else {
            self
        }
    }

    /// The machine after an attempt to write `values` from `address` on, up to the first that
    /// is refused, and whether none was refused.
    pub open spec fn loaded(
        self,
        address: Relocatable,
        values: Seq<MaybeRelocatable>,
    ) -> (MachineState, bool)
        decreases values.len(),
    {
        if values.len() == 0 {
            (self, true)
        } else {
            let (before, all) = self.loaded(address, values.drop_last());
            let cell = address.plus(values.len() - 1);
            if all {
                (before.stored(cell, values.last()), before.accepts(cell, values.last()))
            } else {
                (before, false)
            }
        }
    }

    /// Whether no cell of the segment holds a value.
    pub open spec fn is_empty_segment(self, index: isize) -> bool {
        forall|address: Relocatable|
            address.segment_index == index ==> !(#[trigger] self.cells.contains_key(address))
    }

    /// The machine with one more permanent segment, an empty one.
    pub open spec fn with_new_segment(self) -> MachineState {
        MachineState { segments: self.segments + 1, next_segment: self.next_segment + 1, ..self }
    }

    /// The address of the first cell of the next segment that the machine adds.
    pub open spec fn next_segment_start(self) -> Relocatable {
        Relocatable { segment_index: self.next_segment as isize, offset: 0 }
    }

    /// The machine after a new segment was added and `values` were written to it, up to the
    /// first that was refused, and whether none was refused.
    pub open spec fn allocated(self, values: Seq<MaybeRelocatable>) -> (MachineState, bool) {
        self.with_new_segment().loaded(self.next_segment_start(), values)
    }

    /// Whether the next segment gets the index that follows the last one. It does until the
    /// memory is relocated at the end of a run.
    pub open spec fn counts_segments(self) -> bool {
        self.next_segment == self.segments
    }

    /// Whether the cells from `address` on hold `values`.
    pub open spec fn holds(self, address: Relocatable, values: Seq<MaybeRelocatable>) -> bool {
        forall|i: int|
            0 <= i < values.len() ==> self.cells.contains_key(#[trigger] address.plus(i))
                && self.cells[address.plus(i)] == values[i]
    }

    /// Whether every cell that holds a value in `before` holds it still.
    pub open spec fn keeps_cells(self, before: MachineState) -> bool {
        forall|address: Relocatable| #[trigger]
            before.cells.contains_key(address) ==> self.cells.contains_key(address)
                && self.cells[address] == before.cells[address]
    }

    /// Whether no cell outside the segment has got a value since `before`.
    pub open spec fn grows_only_in(self, before: MachineState, index: isize) -> bool {
        forall|address: Relocatable| #[trigger]
            self.cells.contains_key(address) && address.segment_index != index
                ==> before.cells.contains_key(address)
    }

    /// Whether the first `n` cells of the segment are the only ones that may hold a value.
    pub open spec fn has_length(self, index: isize, n: nat) -> bool {
        forall|address: Relocatable| #[trigger]
            self.cells.contains_key(address) && address.segment_index == index ==> address.offset
                < n
    }

    /// Whether the machine differs from `other` in its cells alone.
    pub open spec fn differs_in_cells(self, other: MachineState) -> bool {
        self == (MachineState { cells: self.cells, ..other })
    }

    /// Whether no builtin checks the cells of the next segment that the machine adds.
    pub open spec fn can_allocate(self) -> bool {
        !self.validated.contains(self.next_segment_start().segment_index as int)
    }

    /// Loading values changes nothing but cells.
    pub proof fn lemma_loaded_changes_cells(
        self,
        address: Relocatable,
        values: Seq<MaybeRelocatable>,
    )
        ensures
            self.loaded(address, values).0.differs_in_cells(self),
        decreases values.len(),
    {
        if values.len() > 0 {
            self.lemma_loaded_changes_cells(address, values.drop_last());
        }
    }

    /// Values loaded from the start of an empty segment are all written, each to its own cell,
    /// and no other cell changes.
    pub proof fn lemma_loaded_into_empty(self, start: Relocatable, values: Seq<MaybeRelocatable>)
        requires
            self.has_segment(start.segment_index),
            self.is_empty_segment(start.segment_index),
            start.offset == 0,
            values.len() <= usize::MAX,
        ensures
            self.loaded(start, values).1,
            self.loaded(start, values).0.holds(start, values),
            self.loaded(start, values).0.keeps_cells(self),
            self.loaded(start, values).0.grows_only_in(self, start.segment_index),
            self.loaded(start, values).0.has_length(start.segment_index, values.len()),
        decreases values.len(),
    {
        if values.len() > 0 {
            self.lemma_loaded_into_empty(start, values.drop_last());
            self.lemma_loaded_changes_cells(start, values.drop_last());
            let before = self.loaded(start, values.drop_last()).0;
            let cell = start.plus(values.len() - 1);
            assert(!before.cells.contains_key(cell));
            assert(before.accepts(cell, values.last()));
            let after = self.loaded(start, values).0;
            assert(after.cells == before.cells.insert(cell, values.last()));
            assert forall|i: int| 0 <= i < values.len() implies after.cells.contains_key(
                #[trigger] start.plus(i),
            ) && after.cells[start.plus(i)] == values[i] by {
                if i < values.len() - 1 {
                    assert(values.drop_last()[i] == values[i]);
                    assert(before.cells.contains_key(start.plus(i)));
                }
            }
        }
    }

    /// Loading values keeps every cell that holds one and writes no cell but those from `start`
    /// on; if none is refused, these hold the values.
    pub proof fn lemma_loaded_writes(self, start: Relocatable, values: Seq<MaybeRelocatable>)
        requires
            start.offset + values.len() <= usize::MAX,
        ensures
            self.loaded(start, values).0.keeps_cells(self),
            forall|address: Relocatable| #[trigger]
                self.loaded(start, values).0.cells.contains_key(address) ==> {
                    ||| self.cells.contains_key(address)
                    ||| address.segment_index == start.segment_index && start.offset
                        <= address.offset < start.offset + values.len()
                },
            self.loaded(start, values).1 ==> self.loaded(start, values).0.holds(start, values),
        decreases values.len(),
    {
        if values.len() > 0 {
            self.lemma_loaded_writes(start, values.drop_last());
            let before = self.loaded(start, values.drop_last()).0;
            let after = self.loaded(start, values).0;
            let cell = start.plus(values.len() - 1);
            assert(after.keeps_cells(before));
            if self.loaded(start, values).1 {
                assert forall|i: int| 0 <= i < values.len() implies after.cells.contains_key(
                    #[trigger] start.plus(i),
                ) && after.cells[start.plus(i)] == values[i] by {
                    if i < values.len() - 1 {
                        assert(values.drop_last()[i] == values[i]);
                        assert(before.cells.contains_key(start.plus(i)));
                    } else {
                        assert(start.plus(i) == cell);
                    }
                }
            }
        }
    }

    /// Values are all written if the segment exists and each cell is free or holds its value.
    pub proof fn lemma_loaded_accepts(self, start: Relocatable, values: Seq<MaybeRelocatable>)
        requires
            start.offset + values.len() <= usize::MAX,
            values.len() > 0 ==> self.has_segment(start.segment_index),
            forall|i: int|
                0 <= i < values.len() ==> !self.cells.contains_key(#[trigger] start.plus(i))
                    || self.cells[start.plus(i)] == values[i],
        ensures
            self.loaded(start, values).1,
        decreases values.len(),
    {
        if values.len() > 0 {
            let front = values.drop_last();
            let last = values.len() - 1;
            assert forall|i: int| 0 <= i < front.len() implies !self.cells.contains_key(
                #[trigger] start.plus(i),
            ) || self.cells[start.plus(i)] == front[i] by {
                assert(front[i] == values[i]);
            }
            self.lemma_loaded_accepts(start, front);
            self.lemma_loaded_writes(start, front);
            self.lemma_loaded_changes_cells(start, front);
            let before = self.loaded(start, front).0;
            let cell = start.plus(last);
            if before.cells.contains_key(cell) {
                assert(self.cells.contains_key(cell));
                assert(before.cells[cell] == self.cells[cell]);
            }
            assert(values.last() == values[last]);
        }
    }

    /// A new segment keeps every cell readable.
    pub proof fn lemma_new_segment_stays_readable(self)
        requires
            self.readable(),
        ensures
            self.with_new_segment().readable(),
    {
        let after = self.with_new_segment();
        assert forall|cell: Relocatable| #[trigger]
            after.cells.contains_key(cell) implies after.can_read(after.cells[cell]) by {
            assert(self.can_read(self.cells[cell]));
        }
    }

    /// Writing a value that can be read keeps every cell readable.
    pub proof fn lemma_stored_stays_readable(self, address: Relocatable, value: MaybeRelocatable)
        requires
            self.readable(),
            self.can_read(value),
        ensures
            self.stored(address, value).readable(),
    {
        let after = self.stored(address, value);
        assert forall|cell: Relocatable| #[trigger]
            after.cells.contains_key(cell) implies after.can_read(after.cells[cell]) by {
            if self.cells.contains_key(cell) {
                assert(self.can_read(self.cells[cell]));
            }
        }
    }

    /// Writing values that can be read keeps every cell readable.
    pub proof fn lemma_loaded_stays_readable(
        self,
        start: Relocatable,
        values: Seq<MaybeRelocatable>,
    )
        requires
            self.readable(),
            forall|i: int| 0 <= i < values.len() ==> self.can_read(#[trigger] values[i]),
        ensures
            self.loaded(start, values).0.readable(),
        decreases values.len(),
    {
        if values.len() > 0 {
            assert forall|i: int| 0 <= i < values.drop_last().len() implies self.can_read(
                #[trigger] values.drop_last()[i],
            ) by {
                assert(values.drop_last()[i] == values[i]);
            }
            self.lemma_loaded_stays_readable(start, values.drop_last());
            self.lemma_loaded_changes_cells(start, values.drop_last());
            let before = self.loaded(start, values.drop_last()).0;
            assert(self.can_read(values[values.len() - 1]));
            assert(before.can_read(values.last()));
            before.lemma_stored_stays_readable(start.plus(values.len() - 1), values.last());
        }
    }

    /// The computed size of a segment.
    pub open spec fn used_size(self, index: usize) -> Option<usize> {
        match self.used_sizes {
            Some(sizes) => if index < sizes.len() {
                Some(sizes[index as int])
            } else {
                None
            },
            None => None,
        }
    }

    /// Whether addresses can be marked as accessed.
    pub open spec fn markable(self) -> bool {
        self.run_finished && self.accessed is Some
    }

    /// The machine with the `n` addresses from `base` on marked as accessed.
    pub open spec fn with_marked(self, base: Relocatable, n: usize) -> MachineState {
        MachineState {
            accessed: Some(self.accessed->0 + Seq::new(n as nat, |k: int| base.plus(k))),
            ..self
        }
    }
}

/// Calls `VirtualMachine::new` without a trace: a machine with no memory.
#[verifier::external_body]
fn vm_new() -> (r: VirtualMachine)
    ensures
        machine(r) == MachineState::empty(),
{
    VirtualMachine::new(false)
}

/// Calls `VirtualMachine::get_maybe`: the value of the cell, moved by the relocation rules,
/// or nothing where the cell holds none. Moving a pointer adds two offsets, which must not
/// overflow. An integer must be reduced, which `cairo_felt` does not see to in the results of
/// its bitwise operators.
#[verifier::external_body]
fn vm_get_maybe(vm: &VirtualMachine, address: Relocatable) -> (r: Option<MaybeRelocatable>)
    requires
        machine(*vm).cells.contains_key(address) ==> machine(*vm).can_read(
            machine(*vm).cells[address],
        ),
    ensures
        r == machine(*vm).read(address),
{
    let key = VmPointer::from((address.segment_index, address.offset));
    match vm.get_maybe(&key).ok().flatten()? {
        VmValue::RelocatableValue(p) => Some(
            MaybeRelocatable::RelocatableValue(
                Relocatable { segment_index: p.segment_index, offset: p.offset },
            ),
        ),
        VmValue::Int(n) => {
            let mut d = n.iter_u64_digits().chain([0, 0, 0, 0]);
            Some(MaybeRelocatable::Int(Felt { d0: d.next()?, d1: d.next()?, d2: d.next()?, d3: d.next()? }))
        },
    }
}

/// Calls `VirtualMachine::add_memory_segment`: the memory gets one more permanent segment,
/// with no value in it, and the result is the start of the segment of the machine's next
/// index.
#[verifier::external_body]
fn vm_add_memory_segment(vm: &mut VirtualMachine) -> (r: Relocatable)
    ensures
        r == machine(*old(vm)).next_segment_start(),
        machine(*final(vm)) == machine(*old(vm)).with_new_segment(),
        machine(*final(vm)).segments <= isize::MAX,
        machine(*final(vm)).next_segment <= isize::MAX,
        machine(*final(vm)).is_empty_segment(machine(*old(vm)).segments as isize),
{
    let start = vm.add_memory_segment();
    Relocatable { segment_index: start.segment_index, offset: start.offset }
}

/// Calls `VirtualMachine::write_arg` with a list of values: they are written one after the
/// other from `address` on, up to the first that is refused. The result is the address after
/// the last one. The segment must not be one whose cells a builtin checks: such a check may
/// refuse a value or panic. Integers are reduced, so `Felt::from_bytes_be` keeps their values.
#[verifier::external_body]
pub(crate) fn vm_write_arg(
    vm: &mut VirtualMachine,
    address: Relocatable,
    values: &Vec<MaybeRelocatable>,
) -> (r: Result<Relocatable, MemoryError>)
    requires
        address.offset == 0,
        !machine(*old(vm)).validated.contains(address.segment_index as int),
    ensures
        machine(*final(vm)) == machine(*old(vm)).loaded(address, values@).0,
        r is Ok <==> machine(*old(vm)).loaded(address, values@).1,
        r matches Ok(end) ==> end == address.plus(values@.len() as int),
{
    let arg: Vec<VmValue> = values.iter().map(|value| match value {
        MaybeRelocatable::RelocatableValue(p) => VmValue::from((p.segment_index, p.offset)),
        MaybeRelocatable::Int(n) => {
            let digits = [n.d3.to_be_bytes(), n.d2.to_be_bytes(), n.d1.to_be_bytes(), n.d0.to_be_bytes()];
            VmValue::from(VmFelt::from_bytes_be(&digits.concat()))
        },
    }).collect();
    let end: VmPointer = vm.write_arg(&VmPointer::from((address.segment_index, address.offset)), &arg)?.try_into()?;
    Ok(Relocatable { segment_index: end.segment_index, offset: end.offset })
}

/// Calls `VirtualMachine::insert_value`: the value is written if the segment exists and the
/// cell does not hold another value. The segment must not be one whose cells a builtin
/// checks, and the segment up to the cell must fit in one allocation. A cell takes at most six
/// words: those of a `Vec`, and a tag for each of the three enums around it. Integers are
/// reduced, so `Felt::from_bytes_be` keeps their values.
#[verifier::external_body]
fn vm_insert_value(
    vm: &mut VirtualMachine,
    address: Relocatable,
    value: MaybeRelocatable,
) -> (r: Result<(), VirtualMachineError>)
    requires
        address.offset < offset_limit(),
        !machine(*old(vm)).validated.contains(address.segment_index as int),
    ensures
        machine(*final(vm)) == machine(*old(vm)).stored(address, value),
        r is Ok <==> machine(*old(vm)).accepts(address, value),
{
    let key = VmPointer::from((address.segment_index, address.offset));
    vm.insert_value(&key, match value {
        MaybeRelocatable::RelocatableValue(p) => VmValue::from((p.segment_index, p.offset)),
        MaybeRelocatable::Int(n) => {
            let digits = [n.d3.to_be_bytes(), n.d2.to_be_bytes(), n.d1.to_be_bytes(), n.d0.to_be_bytes()];
            VmValue::from(VmFelt::from_bytes_be(&digits.concat()))
        },
    })
}

/// Calls `VirtualMachine::get_segment_used_size`: the size computed for the segment, or
/// nothing where sizes are not computed or the segment has none. A size counts cells in one
/// allocation. A cell takes at least three words: it has room for an integer, which has room for
/// a `Vec`.
#[verifier::external_body]
pub(crate) fn vm_get_segment_used_size(vm: &VirtualMachine, index: usize) -> (r: Option<usize>)
    ensures
        r == machine(*vm).used_size(index),
        r matches Some(size) ==> size <= (isize::MAX as int) / (if usize::BITS == 32 {
            12int
        } else {
            24int
        }),
{
    vm.get_segment_used_size(index)
}

/// Calls `VirtualMachine::mark_address_range_as_accessed`: it fails unless the run has ended
/// and the machine keeps accessed addresses; otherwise it adds the addresses from `base` on to
/// them, in order. The addresses, of two words each, must fit in one allocation, and their
/// offsets must not overflow.
#[verifier::external_body]
pub(crate) fn vm_mark_address_range_as_accessed(
    vm: &mut VirtualMachine,
    base: Relocatable,
    len: usize,
) -> (r: Result<(), VirtualMachineError>)
    requires
        base.offset + len <= usize::MAX,
        len <= (isize::MAX as int) / (if usize::BITS == 32 {
            8int
        } else {
            16int
        }),
    ensures
        r is Ok <==> machine(*old(vm)).markable(),
        machine(*final(vm)) == if machine(*old(vm)).markable() {
            machine(*old(vm)).with_marked(base, len)
        } else {
            machine(*old(vm))
        },
{
    let base = VmPointer::from((base.segment_index, base.offset));
    vm.mark_address_range_as_accessed(base, len)
}

/// A virtual machine with no memory.
pub fn new_machine() -> (r: VirtualMachine)
    ensures
        machine(r) == MachineState::empty(),
        machine(r).readable(),
        machine(r).can_allocate(),
{
    vm_new()
}

/// Adds an empty segment to the memory and returns its start.
pub fn add_memory_segment(vm: &mut VirtualMachine) -> (r: Relocatable)
    ensures
        r == machine(*old(vm)).next_segment_start(),
        machine(*final(vm)) == machine(*old(vm)).with_new_segment(),
        machine(*final(vm)).segments <= isize::MAX,
        machine(*final(vm)).next_segment <= isize::MAX,
        machine(*final(vm)).is_empty_segment(machine(*old(vm)).segments as isize),
        machine(*old(vm)).readable() ==> machine(*final(vm)).readable(),
{
    proof {
        if machine(*vm).readable() {
            machine(*vm).lemma_new_segment_stays_readable();
        }
    }
    vm_add_memory_segment(vm)
}

/// Writes a value to a cell.
pub fn insert_value(
    vm: &mut VirtualMachine,
    address: Relocatable,
    value: MaybeRelocatable,
) -> (r: Result<(), SyscallHandlerError>)
    requires
        address.offset < offset_limit(),
        !machine(*old(vm)).validated.contains(address.segment_index as int),
    ensures
        machine(*final(vm)) == machine(*old(vm)).stored(address, value),
        r == if machine(*old(vm)).accepts(address, value) {
            Ok(())
        } else {
            Err(SyscallHandlerError::SegmentationFault)
        },
        machine(*old(vm)).readable() && (value is RelocatableValue ==> machine(*old(vm)).can_read(
            value,
        )) ==> machine(*final(vm)).readable(),
{
    if let MaybeRelocatable::Int(integer) = value {
        proof {
            use_type_invariant(&integer);
        }
    }
    proof {
        if machine(*vm).readable() && machine(*vm).can_read(value) {
            machine(*vm).lemma_stored_stays_readable(address, value);
        }
    }
    match vm_insert_value(vm, address, value) {
        Ok(_) => Ok(()),
        Err(_) => Err(SyscallHandlerError::SegmentationFault),
    }
}

/// What the cell `n` cells after `address` holds.
fn read_at(vm: &VirtualMachine, address: Relocatable, n: usize) -> (r: Option<MaybeRelocatable>)
    requires
        machine(*vm).readable(),
    ensures
        r == machine(*vm).read_at(address, n as int),
{
    match address.offset.checked_add(n) {
        Some(offset) => vm_get_maybe(
            vm,
            Relocatable { segment_index: address.segment_index, offset },
        ),
        None => None,
    }
}

/// The integer in the cell `n` cells after `address`.
pub fn get_integer(vm: &VirtualMachine, address: Relocatable, n: usize) -> (r: Result<
    Felt,
    SyscallHandlerError,
>)
    requires
        machine(*vm).readable(),
    ensures
        r == machine(*vm).felt_field(address, n as int),
{
    match read_at(vm, address, n) {
        Some(MaybeRelocatable::Int(value)) => Ok(value),
        _ => Err(SyscallHandlerError::ExpectedInteger),
    }
}

/// The integer in the cell `n` cells after `address`, as a `usize`.
pub fn get_usize(vm: &VirtualMachine, address: Relocatable, n: usize) -> (r: Result<
    usize,
    SyscallHandlerError,
>)
    requires
        machine(*vm).readable(),
    ensures
        r == machine(*vm).usize_field(address, n as int),
{
    match get_integer(vm, address, n)?.to_usize() {
        Some(value) => Ok(value),
        None => Err(SyscallHandlerError::FeltToUsizeFail),
    }
}

/// The address in the cell `n` cells after `address`.
pub fn get_relocatable(vm: &VirtualMachine, address: Relocatable, n: usize) -> (r: Result<
    Relocatable,
    SyscallHandlerError,
>)
    requires
        machine(*vm).readable(),
    ensures
        r == machine(*vm).pointer_field(address, n as int),
{
    match read_at(vm, address, n) {
        Some(MaybeRelocatable::RelocatableValue(pointer)) => Ok(pointer),
        _ => Err(SyscallHandlerError::ExpectedRelocatable),
    }
}

/// The integers in the `size` cells from `address` on.
pub fn get_integer_range(vm: &VirtualMachine, address: &Relocatable, size: usize) -> (r: Result<
    Vec<Felt>,
    SyscallHandlerError,
>)
    requires
        machine(*vm).readable(),
    ensures
        match machine(*vm).int_range(*address, size as nat) {
            Some(values) => r matches Ok(read) && read@ == values,
            None => r == Err::<Vec<Felt>, _>(SyscallHandlerError::ExpectedInteger),
        },
{
    let ghost m = machine(*vm);
    let mut values: Vec<Felt> = Vec::new();
    for k in 0..size
        invariant
            m == machine(*vm),
            m.readable(),
            values@.len() == k,
            forall|j: int| 0 <= j < k ==> #[trigger] m.int_at(*address, j) == Some(values@[j]),
    {
        match get_integer(vm, *address, k) {
            Ok(value) => {
                values.push(value);
            },
            Err(error) => {
                assert(m.int_at(*address, k as int) is None);
                return Err(error);
            },
        }
    }
    assert(m.int_range(*address, size as nat)->0 =~= values@);
    Ok(values)
}

} // verus!
