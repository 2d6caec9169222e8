//! The storage of contracts.
use vstd::prelude::*;
use crate::errors::StateError;
use crate::felt::Felt;
use crate::objects::Address;

verus! {

/// A source of the values that contracts have stored.
pub trait StateReader: Sized {
    /// What a read of the contract's storage under the key returns.
    spec fn storage_at(&self, contract_address: Address, key: Seq<u8>) -> Result<Felt, StateError>;

    /// Reads the contract's storage. Reading changes nothing that is read later.
    fn get_storage_at(&mut self, contract_address: &Address, key: &[u8; 32]) -> (r: Result<
        Felt,
        StateError,
    >)
        ensures
            r == old(self).storage_at(*contract_address, key@),
            forall|a: Address, k: Seq<u8>| #[trigger]
                final(self).storage_at(a, k) == old(self).storage_at(a, k),
    ;
}

/// A state that contracts can write to.
pub trait State: StateReader {
    /// Writes to the contract's storage, under this key and no other.
    fn set_storage_at(&mut self, contract_address: &Address, key: &[u8; 32], value: Felt)
        ensures
            forall|a: Address, k: Seq<u8>| #[trigger]
                final(self).storage_at(a, k) == if a == *contract_address && k == key@ {
                    Ok(value)
                } else {
                    old(self).storage_at(a, k)
                },
    ;
}

/// The storage of one contract in a state.
pub struct ContractStorageState<T: State> {
    pub state: T,
    pub contract_address: Address,
}

impl<T: State> ContractStorageState<T> {
    pub fn new(state: T, contract_address: Address) -> (r: Self)
        ensures
            r == (ContractStorageState { state, contract_address }),
    {
        ContractStorageState { state, contract_address }
    }

    /// What a read of the contract's storage under the key returns.
    pub open spec fn value_at(self, key: Seq<u8>) -> Result<Felt, StateError> {
        self.state.storage_at(self.contract_address, key)
    }

    /// Reads the contract's storage.
    pub fn read(&mut self, key: &[u8; 32]) -> (r: Result<Felt, StateError>)
        ensures
            r == old(self).value_at(key@),
            final(self).contract_address == old(self).contract_address,
            forall|a: Address, k: Seq<u8>| #[trigger]
                final(self).state.storage_at(a, k) == old(self).state.storage_at(a, k),
    {
        let contract_address = self.contract_address;
        self.state.get_storage_at(&contract_address, key)
    }

    /// Writes to the contract's storage.
    pub fn write(&mut self, key: &[u8; 32], value: Felt)
        ensures
            final(self).contract_address == old(self).contract_address,
            forall|a: Address, k: Seq<u8>| #[trigger]
                final(self).state.storage_at(a, k) == if a == old(self).contract_address && k
                    == key@ {
                    Ok(value)
                } else {
                    old(self).state.storage_at(a, k)
                },
    {
        let contract_address = self.contract_address;
        self.state.set_storage_at(&contract_address, key, value);
    }
}

/// A value written to the storage of a contract.
#[derive(Clone, Copy, Debug, PartialEq, Eq)]
pub struct StorageEntry {
    pub contract_address: Address,
    pub key: [u8; 32],
    pub value: Felt,
}

/// The last of the values written under the key.
pub open spec fn last_written(
    entries: Seq<StorageEntry>,
    contract_address: Address,
    key: Seq<u8>,
) -> Option<Felt>
    decreases entries.len(),
{
    if entries.len() == 0 {
        None
    } else if entries.last().contract_address == contract_address && entries.last().key@ == key {
        Some(entries.last().value)
    } else {
        last_written(entries.drop_last(), contract_address, key)
    }
}

/// Whether two keys are the same.
fn same_key(a: &[u8; 32], b: &[u8; 32]) -> (r: bool)
    ensures
        r == (a@ == b@),
{
    for i in 0..32usize
        invariant
            forall|j: int| 0 <= j < i ==> a@[j] == b@[j],
    {
        if a[i] != b[i] {
            return false;
        }
    }
    assert(a@ =~= b@);
    true
}

/// Values in the order in which they were written.
#[derive(Debug, PartialEq, Eq)]
pub struct StorageLog {
    pub entries: Vec<StorageEntry>,
}

impl StorageLog {
    pub fn new() -> (r: Self)
        ensures
            r.entries@ == Seq::<StorageEntry>::empty(),
    {
        StorageLog { entries: Vec::new() }
    }

    /// The last value written under the key.
    pub fn get(&self, contract_address: &Address, key: &[u8; 32]) -> (r: Option<Felt>)
        ensures
            r == last_written(self.entries@, *contract_address, key@),
    {
        let mut n: usize = self.entries.len();
        assert(self.entries@.take(n as int) =~= self.entries@);
        while n > 0
            invariant
                n <= self.entries@.len(),
                last_written(self.entries@, *contract_address, key@) == last_written(
                    self.entries@.take(n as int),
                    *contract_address,
                    key@,
                ),
            decreases n,
        {
            let entry = &self.entries[n - 1];
            assert(self.entries@.take(n as int).drop_last() =~= self.entries@.take(n - 1));
            if entry.contract_address == *contract_address && same_key(&entry.key, key) {
                return Some(entry.value);
            }
            n = n - 1;
        }
        None
    }

    /// Writes the value under the key.
    pub fn put(&mut self, contract_address: &Address, key: &[u8; 32], value: Felt)
        ensures
            forall|a: Address, k: Seq<u8>| #[trigger]
                last_written(final(self).entries@, a, k) == if a == *contract_address && k == key@ {
                    Some(value)
                } else {
                    last_written(old(self).entries@, a, k)
                },
            final(self).entries@.len() == old(self).entries@.len() + 1,
            final(self).entries@.drop_last() == old(self).entries@,
            final(self).entries@.last().contract_address == *contract_address,
            final(self).entries@.last().key@ == key@,
            final(self).entries@.last().value == value,
    {
        let entry = StorageEntry { contract_address: *contract_address, key: *key, value };
        self.entries.push(entry);
        assert(self.entries@.drop_last() =~= old(self).entries@);
        assert(self.entries@.last() == entry);
    }
}

impl Clone for StorageLog {
    fn clone(&self) -> (r: Self)
        ensures
            r.entries@ == self.entries@,
    {
        let mut entries: Vec<StorageEntry> = Vec::new();
        for i in 0..self.entries.len()
            invariant
                entries@ == self.entries@.take(i as int),
        {
            entries.push(self.entries[i]);
        }
        StorageLog { entries }
    }
}

/// A state that is held in memory. What was never stored cannot be read.
#[derive(Debug, PartialEq, Eq)]
pub struct InMemoryStateReader {
    pub storage: StorageLog,
}

impl StateReader for InMemoryStateReader {
    open spec fn storage_at(&self, contract_address: Address, key: Seq<u8>) -> Result<
        Felt,
        StateError,
    > {
        match last_written(self.storage.entries@, contract_address, key) {
            Some(value) => Ok(value),
            None => Err(StateError::NoneStorage),
        }
    }

    fn get_storage_at(&mut self, contract_address: &Address, key: &[u8; 32]) -> (r: Result<
        Felt,
        StateError,
    >) {
        match self.storage.get(contract_address, key) {
            Some(value) => Ok(value),
            None => Err(StateError::NoneStorage),
        }
    }
}

impl Default for InMemoryStateReader {
    fn default() -> (r: Self)
        ensures
            r.storage.entries@ == Seq::<StorageEntry>::empty(),
    {
        InMemoryStateReader { storage: StorageLog::new() }
    }
}

impl Clone for InMemoryStateReader {
    fn clone(&self) -> (r: Self)
        ensures
            r.storage.entries@ == self.storage.entries@,
    {
        InMemoryStateReader { storage: self.storage.clone() }
    }
}

/// Writes on top of a state that is only read.
#[derive(Debug, PartialEq, Eq)]
pub struct CachedState<R: StateReader> {
    pub state_reader: R,
    pub writes: StorageLog,
}

impl<R: StateReader> StateReader for CachedState<R> {
    open spec fn storage_at(&self, contract_address: Address, key: Seq<u8>) -> Result<
        Felt,
        StateError,
    > {
        match last_written(self.writes.entries@, contract_address, key) {
            Some(value) => Ok(value),
            None => self.state_reader.storage_at(contract_address, key),
        }
    }

    fn get_storage_at(&mut self, contract_address: &Address, key: &[u8; 32]) -> (r: Result<
        Felt,
        StateError,
    >) {
        match self.writes.get(contract_address, key) {
            Some(value) => Ok(value),
            None => self.state_reader.get_storage_at(contract_address, key),
        }
    }
}

impl<R: StateReader> State for CachedState<R> {
    fn set_storage_at(&mut self, contract_address: &Address, key: &[u8; 32], value: Felt) {
        self.writes.put(contract_address, key, value);
    }
}

impl<R: StateReader + Default> Default for CachedState<R> {
    fn default() -> (r: Self)
        ensures
            R::default.ensures((), r.state_reader),
            r.writes.entries@ == Seq::<StorageEntry>::empty(),
    {
        CachedState { state_reader: R::default(), writes: StorageLog::new() }
    }
}

impl<R: StateReader + Clone> Clone for CachedState<R> {
    fn clone(&self) -> (r: Self)
        ensures
            cloned(self.state_reader, r.state_reader),
            r.writes.entries@ == self.writes.entries@,
    {
        CachedState { state_reader: self.state_reader.clone(), writes: self.writes.clone() }
    }
}

} // verus!
