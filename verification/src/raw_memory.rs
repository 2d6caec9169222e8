//! What the cells of a machine's memory say, cell by cell.
use vstd::prelude::*;
use crate::errors::SyscallHandlerError;
use crate::felt::Felt;
use crate::machine::MachineState;
use crate::relocatable::{MaybeRelocatable, Relocatable};

verus! {

/// The address of the cell `k` cells after `p`.
pub open spec fn cell_address(p: Relocatable, k: int) -> Relocatable {
    Relocatable { segment_index: p.segment_index, offset: (p.offset + k) as usize }
}

/// What the cell `k` cells after `p` holds, as it was written.
pub open spec fn cell(m: MachineState, p: Relocatable, k: int) -> Option<MaybeRelocatable> {
    if p.offset + k <= usize::MAX && m.cells.contains_key(cell_address(p, k)) {
        Some(m.cells[cell_address(p, k)])
    } else {
        None
    }
}

/// Whether the memory has the segment: a permanent one counts up from 0, a temporary one down
/// from -1.
pub open spec fn segment_exists(m: MachineState, index: int) -> bool {
    ||| 0 <= index < m.segments
    ||| index < 0 && -1 - index < m.temporary_segments
}

/// Whether the cell `k` cells after `p` can be written with the value: it is free, or holds the
/// value already.
pub open spec fn is_free_for(
    m: MachineState,
    p: Relocatable,
    k: int,
    value: MaybeRelocatable,
) -> bool {
    cell(m, p, k) is None || cell(m, p, k) == Some(value)
}

/// The integer that the cell `k` cells after `p` holds.
pub open spec fn integer_in(m: MachineState, p: Relocatable, k: int) -> Option<Felt> {
    match cell(m, p, k) {
        Some(MaybeRelocatable::Int(value)) => Some(value),
        _ => None,
    }
}

/// The address that the cell `k` cells after `p` holds. One in a temporary segment for which
/// there is a relocation rule stands for an address behind the target of the rule.
pub open spec fn pointer_in(m: MachineState, p: Relocatable, k: int) -> Option<Relocatable> {
    match cell(m, p, k) {
        Some(MaybeRelocatable::RelocatableValue(written)) => {
            let rule = -1 - written.segment_index;
            if rule >= 0 && m.relocations.contains_key(rule) {
                Some(cell_address(m.relocations[rule], written.offset as int))
            } else {
                Some(written)
            }
        },
        _ => None,
    }
}

/// Whether `values` are the integers in the `n` cells from `p` on, in the order of the cells.
pub open spec fn are_integers_in(m: MachineState, p: Relocatable, n: int, values: Seq<Felt>) -> bool {
    &&& values.len() == n
    &&& forall|k: int| 0 <= k < n ==> #[trigger] integer_in(m, p, k) == Some(values[k])
}

/// Whether all the `n` cells from `p` on hold integers.
pub open spec fn only_integers_in(m: MachineState, p: Relocatable, n: int) -> bool {
    forall|k: int| 0 <= k < n ==> #[trigger] integer_in(m, p, k) is Some
}

/// What a field of a request must be.
pub enum FieldKind {
    Integer,
    Size,
    Pointer,
}

/// What is wrong with the field at `k` of the request at `p`, if anything is.
pub open spec fn fault(m: MachineState, p: Relocatable, k: int, kind: FieldKind) -> Option<
    SyscallHandlerError,
> {
    match kind {
        FieldKind::Integer => if integer_in(m, p, k) is None {
            Some(SyscallHandlerError::ExpectedInteger)
        } else {
            None
        },
        FieldKind::Size => match integer_in(m, p, k) {
            None => Some(SyscallHandlerError::ExpectedInteger),
            Some(size) => if size@ > usize::MAX {
                Some(SyscallHandlerError::FeltToUsizeFail)
            } else {
                None
            },
        },
        FieldKind::Pointer => if pointer_in(m, p, k) is None {
            Some(SyscallHandlerError::ExpectedRelocatable)
        } else {
            None
        },
    }
}

/// Whether every field of the request at `p` is what it must be.
pub open spec fn is_faultless(m: MachineState, p: Relocatable, kinds: Seq<FieldKind>) -> bool {
    forall|k: int| 0 <= k < kinds.len() ==> fault(m, p, k, #[trigger] kinds[k]) is None
}

/// Whether `error` is what is wrong with the first field that is not what it must be.
pub open spec fn is_first_fault(
    m: MachineState,
    p: Relocatable,
    kinds: Seq<FieldKind>,
    error: SyscallHandlerError,
) -> bool {
    exists|k: int|
        0 <= k < kinds.len() && fault(m, p, k, #[trigger] kinds[k]) == Some(error) && forall|j: int|
            0 <= j < k ==> fault(m, p, j, #[trigger] kinds[j]) is None
}

/// The fields of the request of the named syscall, in order. Its structure goes on with
/// `response_cells` cells for the response.
pub open spec fn request_fields(name: Seq<char>) -> Option<Seq<FieldKind>> {
    if name == "emit_event"@ {
        Some(
            seq![
                FieldKind::Integer,
                FieldKind::Size,
                FieldKind::Pointer,
                FieldKind::Size,
                FieldKind::Pointer,
            ],
        )
    } else if name == "deploy"@ {
        Some(
            seq![
                FieldKind::Integer,
                FieldKind::Integer,
                FieldKind::Integer,
                FieldKind::Integer,
                FieldKind::Pointer,
                FieldKind::Size,
            ],
        )
    } else if name == "send_message_to_l1"@ {
        Some(seq![FieldKind::Integer, FieldKind::Integer, FieldKind::Size, FieldKind::Pointer])
    } else if is_call_name(name) {
        Some(
            seq![
                FieldKind::Integer,
                FieldKind::Integer,
                FieldKind::Integer,
                FieldKind::Size,
                FieldKind::Pointer,
            ],
        )
    } else if is_getter_name(name) {
        Some(seq![FieldKind::Integer])
    } else {
        None
    }
}

/// How many cells the response of the named syscall takes.
pub open spec fn response_cells(name: Seq<char>) -> nat {
    if name == "deploy"@ {
        3
    } else if is_call_name(name) {
        2
    } else if is_getter_name(name) {
        1
    } else {
        0
    }
}

/// The names of the syscalls that call a contract or a class.
pub open spec fn is_call_name(name: Seq<char>) -> bool {
    ||| name == "call_contract"@
    ||| name == "delegate_call"@
    ||| name == "delegate_l1_handler"@
    ||| name == "library_call"@
    ||| name == "library_call_l1_handler"@
}

/// The names of the syscalls that ask for one value.
pub open spec fn is_getter_name(name: Seq<char>) -> bool {
    ||| name == "get_tx_info"@
    ||| name == "get_caller_address"@
    ||| name == "get_contract_address"@
    ||| name == "get_sequencer_address"@
    ||| name == "get_block_number"@
    ||| name == "get_block_timestamp"@
}

/// Whether the memory holds a request of the named syscall at `p`.
pub open spec fn has_request(m: MachineState, name: Seq<char>, p: Relocatable) -> bool {
    request_fields(name) matches Some(kinds) && is_faultless(m, p, kinds)
}

} // verus!
