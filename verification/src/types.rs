//! Plain values that the handlers take and give: hashes, block selectors,
//! errors, and the read-projections of headers, transactions and logs.

use crate::uint::U256;
use vstd::prelude::*;

verus! {

/// What a handler answers when it cannot give a result.
#[derive(Clone, Copy, Debug, PartialEq, Eq, Structural)]
pub enum Error {
    /// The parameters do not fit the method: a fault of the caller.
    InvalidParams,
    /// Anything that has no kind of its own.
    Internal,
    /// The node no longer keeps the state that the query asks for.
    StatePruned,
    /// The node is importing blocks and gives out no work.
    NoWork,
    /// No mining beneficiary is configured.
    NoAuthor,
    /// The pending block is older than the caller allows.
    NoNewWork,
    /// The compiler could not be run or its output not be read.
    CompilationFailed,
    /// The method is not implemented.
    NotImplemented,
    /// A service that the handler needs is gone.
    ServiceUnavailable,
}

/// A 64-bit hash, such as a proof-of-work nonce.
#[derive(Clone, Copy, Debug, PartialEq, Eq)]
pub struct H64(pub [u8; 8]);

/// A 160-bit hash: an account address.
#[derive(Clone, Copy, Debug, PartialEq, Eq)]
pub struct H160(pub [u8; 20]);

/// A 256-bit hash.
#[derive(Clone, Copy, Debug, PartialEq, Eq)]
pub struct H256(pub [u8; 32]);

/// A 2048-bit hash: a log bloom filter.
#[derive(Clone, Copy, Debug, PartialEq, Eq)]
pub struct H2048(pub [u8; 256]);

/// Every byte is zero.
pub open spec fn all_zero(bytes: Seq<u8>) -> bool {
    forall|i: int| 0 <= i < bytes.len() ==> bytes[i] == 0
}

impl H160 {
    /// Whether two addresses are the same.
    pub fn same(&self, other: &H160) -> (r: bool)
        ensures
            r == (*self == *other),
    {
        let mut i: usize = 0;
        while i < 20
            invariant
                0 <= i <= 20,
                forall|j: int| 0 <= j < i ==> self.0@[j] == other.0@[j],
            decreases 20 - i,
        {
            if self.0[i] != other.0[i] {
                return false;
            }
            i = i + 1;
        }
        assert(self.0 =~= other.0);
        true
    }

    /// Whether this is the zero address, which stands for "no address".
    pub fn is_zero(&self) -> (r: bool)
        ensures
            r == all_zero(self.0@),
    {
        let mut i: usize = 0;
        while i < 20
            invariant
                0 <= i <= 20,
                forall|j: int| 0 <= j < i ==> self.0@[j] == 0,
            decreases 20 - i,
        {
            if self.0[i] != 0 {
                return false;
            }
            i = i + 1;
        }
        true
    }
}

impl H256 {
    /// Whether two hashes are the same.
    pub fn same(&self, other: &H256) -> (r: bool)
        ensures
            r == (*self == *other),
    {
        let mut i: usize = 0;
        while i < 32
            invariant
                0 <= i <= 32,
                forall|j: int| 0 <= j < i ==> self.0@[j] == other.0@[j],
            decreases 32 - i,
        {
            if self.0[i] != other.0[i] {
                return false;
            }
            i = i + 1;
        }
        assert(self.0 =~= other.0);
        true
    }

    /// The hash of 32 zero bytes.
    pub fn zero() -> (r: H256)
        ensures
            all_zero(r.0@),
    {
        H256([0u8; 32])
    }
}

/// The block selector of a request.
#[derive(Clone, Copy, Debug, PartialEq, Eq, Structural)]
pub enum BlockNumber {
    /// The block of the given height.
    Num(u64),
    /// The best block of the chain.
    Latest,
    /// The genesis block.
    Earliest,
    /// The block under construction from the transactions in the mempool.
    Pending,
}

/// The name of a block towards the chain store.
#[derive(Clone, Copy, Debug, PartialEq, Eq)]
pub enum BlockId {
    /// The block with the given hash.
    Hash(H256),
    /// The block of the given height.
    Number(u64),
    /// The genesis block.
    Earliest,
    /// The best block of the chain.
    Latest,
    /// The block under construction.
    Pending,
}

impl BlockNumber {
    /// The same block, named towards the chain store.
    pub open spec fn block_id(self) -> BlockId {
        match self {
            BlockNumber::Num(n) => BlockId::Number(n),
            BlockNumber::Latest => BlockId::Latest,
            BlockNumber::Earliest => BlockId::Earliest,
            BlockNumber::Pending => BlockId::Pending,
        }
    }

    /// The same block, named towards the chain store.
    pub fn to_block_id(self) -> (id: BlockId)
        ensures
            id == self.block_id(),
    {
        match self {
            BlockNumber::Num(n) => BlockId::Number(n),
            BlockNumber::Latest => BlockId::Latest,
            BlockNumber::Earliest => BlockId::Earliest,
            BlockNumber::Pending => BlockId::Pending,
        }
    }
}

/// A block header as the chain store keeps it.
#[derive(Debug, PartialEq, Eq)]
pub struct Header {
    /// Hash of the header.
    pub hash: H256,
    /// Hash of the parent block.
    pub parent_hash: H256,
    /// Hash of the list of uncles.
    pub uncles_hash: H256,
    /// Beneficiary of the block.
    pub author: H160,
    /// Root of the state after the block.
    pub state_root: H256,
    /// Root of the transactions of the block.
    pub transactions_root: H256,
    /// Root of the receipts of the block.
    pub receipts_root: H256,
    /// Height of the block.
    pub number: u64,
    /// Gas used by the transactions of the block.
    pub gas_used: U256,
    /// Gas limit of the block.
    pub gas_limit: U256,
    /// Bloom filter of the logs of the block.
    pub log_bloom: H2048,
    /// Time stamp of the block, in seconds.
    pub timestamp: u64,
    /// Difficulty of the block.
    pub difficulty: U256,
    /// Extra data of the block.
    pub extra_data: Vec<u8>,
    /// Seal of the block, each field in its RLP encoding.
    pub seal: Vec<Vec<u8>>,
}

/// A transaction with its place in the chain, if it has one.
#[derive(Debug, PartialEq, Eq)]
pub struct Transaction {
    /// Hash of the transaction.
    pub hash: H256,
    /// Nonce of the sender.
    pub nonce: U256,
    /// Hash of the block that holds the transaction.
    pub block_hash: Option<H256>,
    /// Height of the block that holds the transaction.
    pub block_number: Option<u64>,
    /// Position of the transaction in its block.
    pub transaction_index: Option<u64>,
    /// Sender.
    pub from: H160,
    /// Recipient; none where the transaction creates a contract.
    pub to: Option<H160>,
    /// Value transferred.
    pub value: U256,
    /// Price of a unit of gas.
    pub gas_price: U256,
    /// Gas provided.
    pub gas: U256,
    /// Call data or contract code.
    pub input: Vec<u8>,
}

/// A block as the chain store hands it out.
#[derive(Debug, PartialEq, Eq)]
pub struct BlockData {
    /// The header.
    pub header: Header,
    /// Length of the encoded block in bytes.
    pub size: u64,
    /// Hashes of the uncles.
    pub uncles: Vec<H256>,
    /// The transactions in their order.
    pub transactions: Vec<Transaction>,
}

/// The transactions of a block in an answer.
#[derive(Debug, PartialEq, Eq)]
pub enum BlockTransactions {
    /// Only the hashes.
    Hashes(Vec<H256>),
    /// The transactions in full.
    Full(Vec<Transaction>),
}

/// A block or an uncle in an answer.
#[derive(Debug, PartialEq, Eq)]
pub struct Block {
    /// Hash of the header.
    pub hash: Option<H256>,
    /// Hash of the parent block.
    pub parent_hash: H256,
    /// Hash of the list of uncles.
    pub uncles_hash: H256,
    /// Beneficiary of the block.
    pub author: H160,
    /// Beneficiary of the block, under its other name.
    pub miner: H160,
    /// Root of the state after the block.
    pub state_root: H256,
    /// Root of the transactions of the block.
    pub transactions_root: H256,
    /// Root of the receipts of the block.
    pub receipts_root: H256,
    /// Height of the block.
    pub number: Option<u64>,
    /// Gas used by the transactions of the block.
    pub gas_used: U256,
    /// Gas limit of the block.
    pub gas_limit: U256,
    /// Extra data of the block.
    pub extra_data: Vec<u8>,
    /// Bloom filter of the logs of the block.
    pub logs_bloom: H2048,
    /// Time stamp of the block, in seconds.
    pub timestamp: u64,
    /// Difficulty of the block.
    pub difficulty: U256,
    /// Sum of the difficulties up to and including the block.
    pub total_difficulty: U256,
    /// Seal of the block, each field decoded.
    pub seal_fields: Vec<Vec<u8>>,
    /// Hashes of the uncles.
    pub uncles: Vec<H256>,
    /// The transactions.
    pub transactions: BlockTransactions,
    /// Length of the encoded block in bytes; none for an uncle.
    pub size: Option<u64>,
}

/// A log as a receipt holds it.
#[derive(Debug, PartialEq, Eq)]
pub struct LogEntry {
    /// The contract that wrote the log.
    pub address: H160,
    /// The topics of the log.
    pub topics: Vec<H256>,
    /// The data of the log.
    pub data: Vec<u8>,
}

/// A log in an answer.
#[derive(Debug, PartialEq, Eq)]
pub struct Log {
    /// The contract that wrote the log.
    pub address: H160,
    /// The topics of the log.
    pub topics: Vec<H256>,
    /// The data of the log.
    pub data: Vec<u8>,
    /// Hash of the block that holds the log.
    pub block_hash: Option<H256>,
    /// Height of the block that holds the log.
    pub block_number: Option<u64>,
    /// Hash of the transaction that wrote the log.
    pub transaction_hash: Option<H256>,
    /// Position of that transaction in its block.
    pub transaction_index: Option<u64>,
    /// Position of the log in its block.
    pub log_index: Option<u64>,
}

/// What the sync engine is doing.
#[derive(Clone, Copy, Debug, PartialEq, Eq, Structural)]
pub enum SyncState {
    /// Nothing: the node follows the chain.
    Idle,
    /// Waiting for peers.
    Waiting,
    /// Downloading blocks.
    Blocks,
    /// Downloading blocks that peers announced.
    NewBlocks,
    /// Looking for the head of the chain.
    ChainHead,
    /// Downloading the manifest of a snapshot.
    SnapshotManifest,
    /// Downloading a snapshot.
    SnapshotData,
    /// Waiting for a snapshot to be restored.
    SnapshotWaiting,
}

/// What the sync engine reports of itself.
#[derive(Clone, Copy, Debug, PartialEq, Eq, Structural)]
pub struct SyncSnapshot {
    /// What the engine is doing.
    pub state: SyncState,
    /// The block at which this run of the sync started.
    pub start_block_number: u64,
    /// The highest block that a peer has shown, once one is known.
    pub highest_block_number: Option<u64>,
}

/// Progress of a sync in an answer.
#[derive(Clone, Copy, Debug, PartialEq, Eq, Structural)]
pub struct SyncInfo {
    /// The block at which the sync started.
    pub starting_block: u64,
    /// The best block of the chain.
    pub current_block: u64,
    /// The highest block known.
    pub highest_block: u64,
}

/// The answer to "is the node syncing".
#[derive(Clone, Copy, Debug, PartialEq, Eq, Structural)]
pub enum SyncStatus {
    /// The node is syncing, with this progress.
    Info(SyncInfo),
    /// The node is not syncing.
    NotSyncing,
}

/// Where the state behind a selector is to be read.
#[derive(Clone, Copy, Debug, PartialEq, Eq)]
pub enum StateSource {
    /// In the miner's view of the pending block.
    Pending,
    /// In the chain store, at the given block.
    Committed(BlockId),
}

/// What was read of the state behind a selector.
#[derive(Debug, PartialEq, Eq)]
pub enum StateAnswer<T> {
    /// The miner's view of the pending block gave this value.
    Pending(T),
    /// The chain store gave this value, or nothing where it no longer keeps
    /// the state of the block.
    Committed(Option<T>),
}

/// A call or a gas estimate as the caller asks for it.
#[derive(Debug, PartialEq, Eq)]
pub struct CallRequest {
    /// Sender.
    pub from: Option<H160>,
    /// Recipient.
    pub to: Option<H160>,
    /// Price of a unit of gas.
    pub gas_price: Option<U256>,
    /// Gas provided.
    pub gas: Option<U256>,
    /// Value transferred.
    pub value: Option<U256>,
    /// Call data.
    pub data: Option<Vec<u8>>,
    /// Nonce of the sender.
    pub nonce: Option<U256>,
}

/// What a transaction does.
#[derive(Clone, Copy, Debug, PartialEq, Eq)]
pub enum Action {
    /// It creates a contract.
    Create,
    /// It calls the given address.
    Call(H160),
}

/// The transaction that stands for a call: complete, and attributed to its
/// sender without a signature.
#[derive(Debug, PartialEq, Eq)]
pub struct CallTransaction {
    /// Sender.
    pub from: H160,
    /// Nonce of the sender.
    pub nonce: U256,
    /// What the transaction does.
    pub action: Action,
    /// Gas provided.
    pub gas: U256,
    /// Price of a unit of gas.
    pub gas_price: U256,
    /// Value transferred.
    pub value: U256,
    /// Call data.
    pub data: Vec<u8>,
}

/// What the execution of a call gave.
#[derive(Debug, PartialEq, Eq)]
pub struct Executed {
    /// Gas used.
    pub gas_used: U256,
    /// Gas refunded.
    pub refunded: U256,
    /// Bytes returned.
    pub output: Vec<u8>,
}

} // verus!
