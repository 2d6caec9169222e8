//! What a contract call is made of.
use vstd::prelude::*;
use crate::config::StarknetChainId;
use crate::felt::{be_bytes, be_value, felt_of, Felt};
use crate::relocatable::{MaybeRelocatable, Relocatable};

verus! {

/// The address of a contract.
#[derive(Clone, Copy, Debug, PartialEq, Eq, Structural)]
pub struct Address(pub Felt);

impl Address {
    /// The 32 big-endian bytes of the address, the form in which it is a storage key.
    pub fn to_32_bytes(&self) -> (r: [u8; 32])
        ensures
            r@ == be_bytes(self.0@, 32),
            be_value(r@) == self.0@,
    {
        self.0.to_bytes_be()
    }
}

/// The hash of a class, as 32 big-endian bytes.
pub type ClassHash = [u8; 32];

/// The class hash that a field element stands for.
pub fn felt_to_hash(value: &Felt) -> (r: ClassHash)
    ensures
        r@ == be_bytes(value@, 32),
        be_value(r@) == value@,
{
    value.to_bytes_be()
}

/// What a transaction carries through the calls it makes.
#[derive(Debug, PartialEq, Eq)]
pub struct TransactionExecutionContext {
    /// How many events the transaction has emitted.
    pub n_emitted_events: usize,
    pub version: usize,
    pub account_contract_address: Address,
    pub max_fee: u64,
    pub transaction_hash: Felt,
    pub signature: Vec<Felt>,
    pub nonce: Felt,
    /// How many messages the transaction has sent to L1.
    pub n_sent_messages: usize,
}

impl TransactionExecutionContext {
    /// Whether the transaction is of no account, unsigned, and has not done anything yet.
    pub open spec fn is_blank(self) -> bool {
        &&& self.n_emitted_events == 0
        &&& self.version == 0
        &&& self.account_contract_address == Address(felt_of(0))
        &&& self.max_fee == 0
        &&& self.transaction_hash == felt_of(0)
        &&& self.signature@ == Seq::<Felt>::empty()
        &&& self.nonce == felt_of(0)
        &&& self.n_sent_messages == 0
    }
}

impl Default for TransactionExecutionContext {
    fn default() -> (r: Self)
        ensures
            r.is_blank(),
    {
        TransactionExecutionContext {
            n_emitted_events: 0,
            version: 0,
            account_contract_address: Address(Felt::zero()),
            max_fee: 0,
            transaction_hash: Felt::zero(),
            signature: Vec::new(),
            nonce: Felt::zero(),
            n_sent_messages: 0,
        }
    }
}

/// An event, with its place among the events of the transaction.
#[derive(Debug, PartialEq, Eq)]
pub struct OrderedEvent {
    pub order: usize,
    pub keys: Vec<Felt>,
    pub data: Vec<Felt>,
}

impl OrderedEvent {
    pub fn new(order: usize, keys: Vec<Felt>, data: Vec<Felt>) -> (r: Self)
        ensures
            r == (OrderedEvent { order, keys, data }),
    {
        OrderedEvent { order, keys, data }
    }
}

/// A message to L1, with its place among the messages of the transaction.
#[derive(Debug, PartialEq, Eq)]
pub struct OrderedL2ToL1Message {
    pub order: usize,
    pub to_address: Address,
    pub payload: Vec<Felt>,
}

impl OrderedL2ToL1Message {
    pub fn new(order: usize, to_address: Address, payload: Vec<Felt>) -> (r: Self)
        ensures
            r == (OrderedL2ToL1Message { order, to_address, payload }),
    {
        OrderedL2ToL1Message { order, to_address, payload }
    }
}

/// The cells that tell a contract about the transaction it runs in.
pub open spec fn tx_info_cells(
    tx: TransactionExecutionContext,
    signature: Relocatable,
    chain_id: StarknetChainId,
) -> Seq<MaybeRelocatable> {
    seq![
        MaybeRelocatable::Int(felt_of(tx.version as nat)),
        MaybeRelocatable::Int(tx.account_contract_address.0),
        MaybeRelocatable::Int(felt_of(tx.max_fee as nat)),
        MaybeRelocatable::Int(felt_of(tx.signature@.len())),
        MaybeRelocatable::RelocatableValue(signature),
        MaybeRelocatable::Int(tx.transaction_hash),
        MaybeRelocatable::Int(felt_of(chain_id.value())),
        MaybeRelocatable::Int(tx.nonce),
    ]
}

/// What a contract is told about the transaction it runs in.
#[derive(Clone, Copy, Debug, PartialEq, Eq, Structural)]
pub struct TxInfoStruct {
    pub version: usize,
    pub account_contract_address: Address,
    pub max_fee: u64,
    pub signature_len: usize,
    /// The address of the first value of the signature.
    pub signature: Relocatable,
    pub transaction_hash: Felt,
    pub chain_id: StarknetChainId,
    pub nonce: Felt,
}

impl TxInfoStruct {
    pub fn new(
        tx: &TransactionExecutionContext,
        signature: Relocatable,
        chain_id: StarknetChainId,
    ) -> (r: Self)
        ensures
            r.cells() == tx_info_cells(*tx, signature, chain_id),
    {
        TxInfoStruct {
            version: tx.version,
            account_contract_address: tx.account_contract_address,
            max_fee: tx.max_fee,
            signature_len: tx.signature.len(),
            signature,
            transaction_hash: tx.transaction_hash,
            chain_id,
            nonce: tx.nonce,
        }
    }

    /// The fields as memory cells.
    pub open spec fn cells(self) -> Seq<MaybeRelocatable> {
        seq![
            MaybeRelocatable::Int(felt_of(self.version as nat)),
            MaybeRelocatable::Int(self.account_contract_address.0),
            MaybeRelocatable::Int(felt_of(self.max_fee as nat)),
            MaybeRelocatable::Int(felt_of(self.signature_len as nat)),
            MaybeRelocatable::RelocatableValue(self.signature),
            MaybeRelocatable::Int(self.transaction_hash),
            MaybeRelocatable::Int(felt_of(self.chain_id.value())),
            MaybeRelocatable::Int(self.nonce),
        ]
    }

    /// The fields as memory cells.
    pub fn to_vec(&self) -> (r: Vec<MaybeRelocatable>)
        ensures
            r@ == self.cells(),
            forall|i: int|
                0 <= i < r@.len() ==> (#[trigger] r@[i] matches MaybeRelocatable::Int(value)
                    ==> value.is_reduced()),
    {
        let account_contract_address = self.account_contract_address.0;
        let transaction_hash = self.transaction_hash;
        let chain_id = self.chain_id.to_felt();
        let nonce = self.nonce;
        proof {
            use_type_invariant(&account_contract_address);
            use_type_invariant(&transaction_hash);
            use_type_invariant(&chain_id);
            use_type_invariant(&nonce);
        }
        vec![
            MaybeRelocatable::Int(Felt::from_usize(self.version)),
            MaybeRelocatable::Int(account_contract_address),
            MaybeRelocatable::Int(Felt::from_u64(self.max_fee)),
            MaybeRelocatable::Int(Felt::from_usize(self.signature_len)),
            MaybeRelocatable::RelocatableValue(self.signature),
            MaybeRelocatable::Int(transaction_hash),
            MaybeRelocatable::Int(chain_id),
            MaybeRelocatable::Int(nonce),
        ]
    }
}

/// What the handler needs of a finished call.
#[derive(Debug, PartialEq, Eq)]
pub struct CallInfo {
    /// The values that the called entry point returned.
    pub retdata: Vec<Felt>,
}

/// Whether a call runs the callee in its own context or in that of the caller.
#[derive(Clone, Copy, Debug, PartialEq, Eq, Structural)]
pub enum CallType {
    Call,
    Delegate,
}

/// The kinds of entry points of a contract.
#[derive(Clone, Copy, Debug, PartialEq, Eq, Structural)]
pub enum EntryPointType {
    External,
    L1Handler,
    Constructor,
}

/// The value of the selector of the entry point `__execute__`.
pub open spec fn execute_entry_point_selector() -> nat {
    0x15d40a3d6ca2ac30f4031e42be28da9b056fef9bb7357ac5e85627ee876e5adnat
}

/// The selector of the entry point `__execute__`.
pub fn get_execute_entry_point_selector() -> (r: Felt)
    ensures
        r@ == execute_entry_point_selector(),
        r == felt_of(execute_entry_point_selector()),
{
    match Felt::from_digits(
        0x5e85627ee876e5ad,
        0xb056fef9bb7357ac,
        0x0f4031e42be28da9,
        0x015d40a3d6ca2ac3,
    ) {
        Some(selector) => selector,
        None => Felt::zero(),
    }
}

/// A call that is ready to be executed.
#[derive(Debug, PartialEq, Eq)]
pub struct ExecutionEntryPoint {
    pub contract_address: Address,
    pub calldata: Vec<Felt>,
    pub entry_point_selector: Felt,
    pub caller_address: Address,
    pub entry_point_type: EntryPointType,
    pub call_type: Option<CallType>,
    pub class_hash: Option<ClassHash>,
}

impl ExecutionEntryPoint {
    pub fn new(
        contract_address: Address,
        calldata: Vec<Felt>,
        entry_point_selector: Felt,
        caller_address: Address,
        entry_point_type: EntryPointType,
        call_type: Option<CallType>,
        class_hash: Option<ClassHash>,
    ) -> (r: Self)
        ensures
            r == (ExecutionEntryPoint {
                contract_address,
                calldata,
                entry_point_selector,
                caller_address,
                entry_point_type,
                call_type,
                class_hash,
            }),
    {
        ExecutionEntryPoint {
            contract_address,
            calldata,
            entry_point_selector,
            caller_address,
            entry_point_type,
            call_type,
            class_hash,
        }
    }
}

/// A contract to deploy, as a `deploy` request describes it.
#[derive(Debug, PartialEq, Eq)]
pub struct ContractDeployment {
    pub contract_address_salt: Address,
    pub class_hash: Felt,
    pub constructor_calldata: Vec<Felt>,
    /// The address that enters into the address of the new contract.
    pub deployer_address: Address,
}

} // verus!
