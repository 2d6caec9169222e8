//! What every read and write of storage does, told by the keys that the state is asked for.
//! Each law speaks of any call, with its arguments and its result.
use vstd::prelude::*;
use crate::business_logic_syscall_handler::BusinessLogicSyscallHandler;
use crate::call_laws::{same_allocations, same_output};
use crate::errors::{StateError, SyscallHandlerError};
use crate::felt::{be_value, lemma_be_bytes, Felt};
use crate::laws::law_storage_keys_differ;
use crate::memory_laws::same_requests;
use crate::objects::Address;
use crate::state::{
    last_written, CachedState, InMemoryStateReader, State, StateReader, StorageLog,
};

verus! {

/// Whether the bytes are the key of the address: 32 of them that, read as a big-endian number,
/// are its value.
pub open spec fn is_key_of(key: Seq<u8>, address: Address) -> bool {
    key.len() == 32 && be_value(key) == address.0@
}

/// Whether everything but the state behind the storage is the same.
pub open spec fn same_but_storage<T: State + StateReader>(
    before: BusinessLogicSyscallHandler<T>,
    after: BusinessLogicSyscallHandler<T>,
) -> bool {
    &&& after.contract_address == before.contract_address
    &&& after.caller_address == before.caller_address
    &&& after.general_config == before.general_config
    &&& after.state == before.state
    &&& after.internal_calls == before.internal_calls
    &&& after.starknet_storage_state.contract_address
        == before.starknet_storage_state.contract_address
    &&& same_output(before, after)
    &&& same_allocations(before, after)
    &&& same_requests(before, after)
}

/// A read returns what the state holds for the storage's contract under the key of the address.
/// It changes nothing that the state holds.
pub proof fn law_storage_is_read_under_the_key_of_the_address<T: State + StateReader>(
    h: &mut BusinessLogicSyscallHandler<T>,
    address: Address,
    key: Seq<u8>,
    r: Result<Felt, SyscallHandlerError>,
)
    requires
        call_ensures(BusinessLogicSyscallHandler::<T>::_storage_read, (h, address), r),
        is_key_of(key, address),
    ensures
        ({
            let storage = old(h).starknet_storage_state;
            match storage.state.storage_at(storage.contract_address, key) {
                Ok(value) => r == Ok::<Felt, SyscallHandlerError>(value),
                Err(e) => r == Err::<Felt, _>(SyscallHandlerError::StateError(e)),
            }
        }),
        forall|a: Address, k: Seq<u8>| #[trigger]
            final(h).starknet_storage_state.state.storage_at(a, k)
                == old(h).starknet_storage_state.state.storage_at(a, k),
        same_but_storage(*old(h), *final(h)),
{
    lemma_be_bytes(key);
}

/// A write puts the value under the key of the address, for the storage's contract. Under every
/// other key, and for every other contract, the state holds what it held.
pub proof fn law_storage_is_written_under_the_key_of_the_address<T: State + StateReader>(
    h: &mut BusinessLogicSyscallHandler<T>,
    address: Address,
    value: Felt,
    key: Seq<u8>,
    r: Result<(), SyscallHandlerError>,
)
    requires
        call_ensures(BusinessLogicSyscallHandler::<T>::_storage_write, (h, address, value), r),
        is_key_of(key, address),
    ensures
        r is Ok,
        ({
            let contract = old(h).starknet_storage_state.contract_address;
            let before = old(h).starknet_storage_state.state;
            let after = final(h).starknet_storage_state.state;
            &&& after.storage_at(contract, key) == Ok::<Felt, StateError>(value)
            &&& forall|a: Address, k: Seq<u8>|
                a != contract || k != key ==> #[trigger] after.storage_at(a, k)
                    == before.storage_at(a, k)
        }),
        same_but_storage(*old(h), *final(h)),
{
    lemma_be_bytes(key);
}

/// What is read right after a write: at the same address the value that was written, at another
/// what would have been read before.
pub proof fn law_read_after_write<T: State + StateReader>(
    writer: &mut BusinessLogicSyscallHandler<T>,
    address: Address,
    value: Felt,
    written: Result<(), SyscallHandlerError>,
    reader: &mut BusinessLogicSyscallHandler<T>,
    other: Address,
    read: Result<Felt, SyscallHandlerError>,
    earlier: &mut BusinessLogicSyscallHandler<T>,
    read_before: Result<Felt, SyscallHandlerError>,
)
    requires
        call_ensures(
            BusinessLogicSyscallHandler::<T>::_storage_write,
            (writer, address, value),
            written,
        ),
        call_ensures(BusinessLogicSyscallHandler::<T>::_storage_read, (reader, other), read),
        call_ensures(
            BusinessLogicSyscallHandler::<T>::_storage_read,
            (earlier, other),
            read_before,
        ),
        *old(reader) == *final(writer),
        *old(earlier) == *old(writer),
    ensures
        other == address ==> read == Ok::<Felt, SyscallHandlerError>(value),
        other != address ==> read == read_before,
{
    if other != address {
        law_storage_keys_differ(other, address);
    }
}

/// A log gives back the last value that was put under the key, and what it gives under other
/// keys does not change.
pub proof fn law_log_gives_back_what_was_put(
    log: &mut StorageLog,
    contract: &Address,
    key: &[u8; 32],
    value: Felt,
    other_contract: &Address,
    other_key: &[u8; 32],
    before: Option<Felt>,
    after: Option<Felt>,
)
    requires
        call_ensures(StorageLog::put, (log, contract, key, value), ()),
        call_ensures(StorageLog::get, (&*old(log), other_contract, other_key), before),
        call_ensures(StorageLog::get, (&*final(log), other_contract, other_key), after),
    ensures
        after == if *other_contract == *contract && other_key@ == key@ {
            Some(value)
        } else {
            before
        },
{
    let contract_asked = *other_contract;
    assert(after == last_written(final(log).entries@, contract_asked, other_key@));
    assert(before == last_written(old(log).entries@, contract_asked, other_key@));
}

/// A new log holds nothing.
pub proof fn law_new_log_is_empty(
    log: StorageLog,
    contract: &Address,
    key: &[u8; 32],
    r: Option<Felt>,
)
    requires
        call_ensures(StorageLog::new, (), log),
        call_ensures(StorageLog::get, (&log, contract, key), r),
    ensures
        r is None,
{
}

/// A cached state reads what was written to it, and otherwise what it was made on.
pub proof fn law_cache_reads_its_writes_first<R: StateReader>(
    cache: CachedState<R>,
    contract: &Address,
    key: &[u8; 32],
    written: Option<Felt>,
)
    requires
        call_ensures(StorageLog::get, (&cache.writes, contract, key), written),
    ensures
        written matches Some(value) ==> cache.storage_at(*contract, key@) == Ok::<Felt, StateError>(
            value,
        ),
        written is None ==> cache.storage_at(*contract, key@) == cache.state_reader.storage_at(
            *contract,
            key@,
        ),
{
}

/// A state in memory reads what was put into it, and fails where nothing was.
pub proof fn law_memory_state_reads_what_was_put(
    state: InMemoryStateReader,
    contract: &Address,
    key: &[u8; 32],
    put: Option<Felt>,
)
    requires
        call_ensures(StorageLog::get, (&state.storage, contract, key), put),
    ensures
        state.storage_at(*contract, key@) == match put {
            Some(value) => Ok::<Felt, StateError>(value),
            None => Err(StateError::NoneStorage),
        },
{
}

/// A clone of a state on a state in memory holds what the state holds.
pub proof fn law_clone_holds_the_same(
    state: CachedState<InMemoryStateReader>,
    copy: CachedState<InMemoryStateReader>,
    contract: Address,
    key: Seq<u8>,
)
    requires
        call_ensures(
            <CachedState<InMemoryStateReader> as Clone>::clone,
            (&state,),
            copy,
        ),
    ensures
        copy.storage_at(contract, key) == state.storage_at(contract, key),
{
}

/// A state by default holds nothing.
pub proof fn law_default_state_is_empty(
    state: CachedState<InMemoryStateReader>,
    contract: Address,
    key: Seq<u8>,
)
    requires
        call_ensures(<CachedState<InMemoryStateReader> as Default>::default, (), state),
    ensures
        state.storage_at(contract, key) == Err::<Felt, _>(StateError::NoneStorage),
{
}

} // verus!
