//! The chain and the block in which a transaction runs.
use vstd::prelude::*;
use crate::felt::{felt_of, Felt};
use crate::objects::Address;

verus! {

/// The block that a transaction belongs to.
#[derive(Clone, Copy, Debug, PartialEq, Eq, Structural)]
pub struct BlockInfo {
    pub block_number: u64,
    pub block_timestamp: u64,
    pub gas_price: u64,
    pub sequencer_address: Address,
}

impl BlockInfo {
    /// The block numbered zero, of no sequencer.
    pub open spec fn empty() -> BlockInfo {
        BlockInfo {
            block_number: 0,
            block_timestamp: 0,
            gas_price: 0,
            sequencer_address: Address(felt_of(0)),
        }
    }
}

impl Default for BlockInfo {
    fn default() -> (r: Self)
        ensures
            r == BlockInfo::empty(),
    {
        BlockInfo {
            block_number: 0,
            block_timestamp: 0,
            gas_price: 0,
            sequencer_address: Address(Felt::zero()),
        }
    }
}

/// The chains.
#[derive(Clone, Copy, Debug, PartialEq, Eq, Structural)]
pub enum StarknetChainId {
    MainNet,
    TestNet,
    TestNet2,
}

impl StarknetChainId {
    /// The name of the chain, read as a big-endian number.
    pub open spec fn value(self) -> nat {
        match self {
            // SN_MAIN
            StarknetChainId::MainNet => 0x534e5f4d41494e,
            // SN_GOERLI
            StarknetChainId::TestNet => 0x534e5f474f45524c49nat,
            // SN_GOERLI2
            StarknetChainId::TestNet2 => 0x534e5f474f45524c4932nat,
        }
    }

    /// The field element that identifies the chain.
    pub fn to_felt(&self) -> (r: Felt)
        ensures
            r == felt_of(self.value()),
    {
        match self {
            StarknetChainId::MainNet => Felt::from_u64(0x534e5f4d41494e),
            StarknetChainId::TestNet => Felt::from_u128(0x534e5f474f45524c49),
            StarknetChainId::TestNet2 => Felt::from_u128(0x534e5f474f45524c4932),
        }
    }
}

/// What the operating system of the chain fixes.
#[derive(Clone, Copy, Debug, PartialEq, Eq, Structural)]
pub struct StarknetOsConfig {
    pub chain_id: StarknetChainId,
}

/// The configuration under which transactions are executed.
#[derive(Clone, Copy, Debug, PartialEq, Eq, Structural)]
pub struct StarknetGeneralConfig {
    pub starknet_os_config: StarknetOsConfig,
    pub block_info: BlockInfo,
}

impl StarknetGeneralConfig {
    /// The test network, in the given block.
    pub open spec fn test_network(block_info: BlockInfo) -> StarknetGeneralConfig {
        StarknetGeneralConfig {
            starknet_os_config: StarknetOsConfig { chain_id: StarknetChainId::TestNet },
            block_info,
        }
    }
}

impl Default for StarknetGeneralConfig {
    fn default() -> (r: Self)
        ensures
            r == StarknetGeneralConfig::test_network(BlockInfo::empty()),
    {
        StarknetGeneralConfig {
            starknet_os_config: StarknetOsConfig { chain_id: StarknetChainId::TestNet },
            block_info: BlockInfo::default(),
        }
    }
}

} // verus!
