//! The handlers of the `eth` methods. Each handler is given what the chain
//! store, the miner and the sync engine answered, and decides what the call
//! returns.

use crate::auto_args::BlockParam;
use crate::encoding::{byte_strings, decode_seal, decoded_seal, rlp_decoded_list};
use crate::filter::{limit_logs, limited, matching_logs, pending_matches, show_pending, Filter};
use crate::mining::{
    answers_work, difficulty_to_boundary, is_stale, unix_now, PendingBlock, SeedHashCompute, Work,
    MAX_QUEUE_SIZE_TO_MINE_ON,
};
use crate::solc::{scrape_binary, scraped};
use crate::transaction::{decode_transaction, holds_fields, well_formed, RawTransaction};
use crate::types::{
    all_zero, Action, Block, BlockData, BlockId, BlockNumber, BlockTransactions, CallRequest, CallTransaction, Error,
    Executed, Header, Log, LogEntry, StateAnswer, StateSource, SyncInfo, SyncSnapshot, SyncState, SyncStatus,
    Transaction, H160, H256,
};
use crate::uint::{be_value, modulus, U256};
use vstd::prelude::*;

verus! {

/// Options of the handlers.
#[derive(Clone, Copy, Debug, PartialEq, Eq, Structural)]
pub struct EthClientOptions {
    /// Whether receipts of pending transactions are given out.
    pub allow_pending_receipt_query: bool,
    /// Whether a work package names the number of its block.
    pub send_block_number_in_get_work: bool,
}

impl Default for EthClientOptions {
    fn default() -> (options: EthClientOptions)
        ensures
            options.allow_pending_receipt_query,
            options.send_block_number_in_get_work,
    {
        EthClientOptions { allow_pending_receipt_query: true, send_block_number_in_get_work: true }
    }
}

/// The handlers of the `eth` methods.
pub struct EthClient {
    seed_compute: SeedHashCompute,
    options: EthClientOptions,
}

/// How far the highest known block has to be ahead of the best block for the
/// node to count as syncing: more than this many blocks.
pub const SYNC_LAG: u64 = 6;

/// The gas that a call is given where the request names none.
pub const CALL_GAS: u64 = 50_000_000;

/// The answer to "is the node syncing" for a report of the sync engine and a
/// best block.
pub open spec fn sync_status(status: SyncSnapshot, best_block_number: u64) -> SyncStatus {
    let highest = match status.highest_block_number {
        Some(highest) => highest,
        None => status.start_block_number,
    };
    if status.state != SyncState::Idle && highest > best_block_number + SYNC_LAG {
        SyncStatus::Info(
            SyncInfo {
                starting_block: status.start_block_number,
                current_block: best_block_number,
                highest_block: highest,
            },
        )
    } else {
        SyncStatus::NotSyncing
    }
}

/// The value of a field of a call request, or its default.
pub open spec fn or_default(given: Option<U256>, default: U256) -> U256 {
    match given {
        Some(value) => value,
        None => default,
    }
}

/// Whether `transaction` is the one that stands for `request`: each field
/// as the request gives it, and where it gives none: the zero address as
/// sender, the sender's latest nonce, creation of a contract as action, the
/// fixed gas ceiling, the default gas price, no value and no data.
pub open spec fn stands_for(
    transaction: CallTransaction,
    request: CallRequest,
    latest_nonce: U256,
    default_gas_price: U256,
) -> bool {
    &&& match request.from {
        Some(from) => transaction.from == from,
        None => all_zero(transaction.from.0@),
    }
    &&& transaction.nonce == or_default(request.nonce, latest_nonce)
    &&& transaction.action == match request.to {
        Some(to) => Action::Call(to),
        None => Action::Create,
    }
    &&& match request.gas {
        Some(gas) => transaction.gas == gas,
        None => transaction.gas@ == CALL_GAS,
    }
    &&& transaction.gas_price == or_default(request.gas_price, default_gas_price)
    &&& match request.value {
        Some(value) => transaction.value == value,
        None => transaction.value@ == 0,
    }
    &&& transaction.data@ == match request.data {
        Some(data) => data@,
        None => Seq::<u8>::empty(),
    }
}

/// The hashes of a list of transactions, in its order.
pub open spec fn hashes_of(transactions: Seq<Transaction>) -> Seq<H256> {
    transactions.map_values(|t: Transaction| t.hash)
}

/// Whether `block` shows the header: every field of the header as it is, the
/// author also as the miner, the seal as `seal_fields` and the total
/// difficulty as given.
pub open spec fn shows_header(block: Block, header: Header, total_difficulty: nat, seal_fields: Seq<Seq<u8>>) -> bool {
    &&& block.hash == Some(header.hash)
    &&& block.parent_hash == header.parent_hash
    &&& block.uncles_hash == header.uncles_hash
    &&& block.author == header.author
    &&& block.miner == header.author
    &&& block.state_root == header.state_root
    &&& block.transactions_root == header.transactions_root
    &&& block.receipts_root == header.receipts_root
    &&& block.number == Some(header.number)
    &&& block.gas_used == header.gas_used
    &&& block.gas_limit == header.gas_limit
    &&& block.extra_data@ == header.extra_data@
    &&& block.logs_bloom == header.log_bloom
    &&& block.timestamp == header.timestamp
    &&& block.difficulty == header.difficulty
    &&& block.total_difficulty@ == total_difficulty
    &&& byte_strings(block.seal_fields@) == seal_fields
}

/// Whether `block` shows the block `data`: its header, its size, the hashes
/// of its uncles, and its transactions in full or by their hashes.
pub open spec fn shows_block(
    block: Block,
    data: BlockData,
    total_difficulty: nat,
    seal_fields: Seq<Seq<u8>>,
    include_txs: bool,
) -> bool {
    &&& shows_header(block, data.header, total_difficulty, seal_fields)
    &&& block.size == Some(data.size)
    &&& block.uncles@ == data.uncles@
    &&& match block.transactions {
        BlockTransactions::Full(transactions) => include_txs && transactions@ == data.transactions@,
        BlockTransactions::Hashes(hashes) => !include_txs && hashes@ == hashes_of(data.transactions@),
    }
}

/// Whether `block` shows the uncle `header`: its header, no size, no uncles
/// and no transactions.
pub open spec fn shows_uncle(block: Block, header: Header, total_difficulty: nat, seal_fields: Seq<Seq<u8>>) -> bool {
    &&& shows_header(block, header, total_difficulty, seal_fields)
    &&& block.size.is_none()
    &&& block.uncles@.len() == 0
    &&& block.transactions matches BlockTransactions::Hashes(hashes) && hashes@.len() == 0
}

/// The hashes of the transactions, in their order.
fn transaction_hashes(transactions: &Vec<Transaction>) -> (hashes: Vec<H256>)
    ensures
        hashes@ == hashes_of(transactions@),
{
    let mut hashes: Vec<H256> = Vec::new();
    let mut i: usize = 0;
    while i < transactions.len()
        invariant
            0 <= i <= transactions@.len(),
            hashes@ == hashes_of(transactions@.take(i as int)),
        decreases transactions@.len() - i,
    {
        hashes.push(transactions[i].hash);
        i = i + 1;
        assert(hashes@ =~= hashes_of(transactions@.take(i as int)));
    }
    assert(transactions@.take(i as int) =~= transactions@);
    hashes
}

/// The projection of a header, with everything that a header does not hold
/// left empty.
fn header_view(header: Header, total_difficulty: U256, seal_fields: Vec<Vec<u8>>) -> (block: Block)
    ensures
        shows_uncle(block, header, total_difficulty@, byte_strings(seal_fields@)),
{
    Block {
        hash: Some(header.hash),
        parent_hash: header.parent_hash,
        uncles_hash: header.uncles_hash,
        author: header.author,
        miner: header.author,
        state_root: header.state_root,
        transactions_root: header.transactions_root,
        receipts_root: header.receipts_root,
        number: Some(header.number),
        gas_used: header.gas_used,
        gas_limit: header.gas_limit,
        extra_data: header.extra_data,
        logs_bloom: header.log_bloom,
        timestamp: header.timestamp,
        difficulty: header.difficulty,
        total_difficulty,
        seal_fields,
        uncles: Vec::new(),
        transactions: BlockTransactions::Hashes(Vec::new()),
        size: None,
    }
}

/// A copy of a list of plain values.
fn copy_of<T: Copy>(list: &Vec<T>) -> (copy: Vec<T>)
    ensures
        copy@ == list@,
{
    let mut copy: Vec<T> = Vec::new();
    let mut i: usize = 0;
    while i < list.len()
        invariant
            0 <= i <= list@.len(),
            copy@ == list@.take(i as int),
        decreases list@.len() - i,
    {
        copy.push(list[i]);
        i = i + 1;
        assert(copy@ =~= list@.take(i as int));
    }
    assert(list@.take(i as int) =~= list@);
    copy
}

/// The logs of the pending receipts that the filter lets through, each
/// stamped with the hash of the transaction that wrote it: receipt by
/// receipt, and within a receipt in the order of its logs.
pub fn pending_logs(receipts: &Vec<(H256, Vec<LogEntry>)>, filter: &Filter) -> (logs: Vec<Log>)
    ensures
        show_pending(logs@, pending_matches(receipts@, *filter)),
{
    let mut logs: Vec<Log> = Vec::new();
    let mut i: usize = 0;
    assert(receipts@.take(0) =~= Seq::empty());
    while i < receipts.len()
        invariant
            0 <= i <= receipts@.len(),
            show_pending(logs@, pending_matches(receipts@.take(i as int), *filter)),
        decreases receipts@.len() - i,
    {
        let hash = receipts[i].0;
        let entries = &receipts[i].1;
        let ghost done = pending_matches(receipts@.take(i as int), *filter);
        let mut j: usize = 0;
        assert(entries@.take(0) =~= Seq::empty());
        while j < entries.len()
            invariant
                0 <= j <= entries@.len(),
                show_pending(logs@, done + matching_logs(hash, entries@.take(j as int), *filter)),
            decreases entries@.len() - j,
        {
            let entry = &entries[j];
            let ghost before = matching_logs(hash, entries@.take(j as int), *filter);
            proof {
                assert(entries@.take(j + 1).drop_last() =~= entries@.take(j as int));
                assert(entries@.take(j + 1).last() == *entry);
            }
            if filter.matches(entry) {
                let log = Log {
                    address: entry.address,
                    topics: copy_of(&entry.topics),
                    data: copy_of(&entry.data),
                    block_hash: None,
                    block_number: None,
                    transaction_hash: Some(hash),
                    transaction_index: None,
                    log_index: None,
                };
                logs.push(log);
                assert(done + before.push((hash, *entry)) =~= (done + before).push((hash, *entry)));
            }
            j = j + 1;
        }
        proof {
            assert(entries@.take(j as int) =~= entries@);
            assert(receipts@.take(i + 1).drop_last() =~= receipts@.take(i as int));
            assert(receipts@.take(i + 1).last() == receipts@[i as int]);
        }
        i = i + 1;
    }
    assert(receipts@.take(i as int) =~= receipts@);
    logs
}

impl EthClient {
    /// Handlers with the given options.
    pub fn new(options: EthClientOptions) -> (client: EthClient)
        ensures
            client.options() == options,
    {
        EthClient { seed_compute: SeedHashCompute::new(), options }
    }

    /// The options that the handlers were made with.
    pub closed spec fn options(&self) -> EthClientOptions {
        self.options
    }

    /// A service for a call, from what became of the handle to it: a
    /// service that is gone makes the call fail as "service unavailable".
    pub fn take_weak<T>(upgraded: Option<T>) -> (r: Result<T, Error>)
        ensures
            r == match upgraded {
                Some(service) => Ok::<T, Error>(service),
                None => Err(Error::ServiceUnavailable),
            },
    {
        match upgraded {
            Some(service) => Ok(service),
            None => Err(Error::ServiceUnavailable),
        }
    }

    /// A block for an answer, from what the chain store found under one
    /// block id: the block and its total difficulty. Where either is missing
    /// the answer is "not found". The transactions are shown in full or by
    /// their hashes.
    pub fn block(&self, found: Option<BlockData>, total_difficulty: Option<U256>, include_txs: bool) -> (r: Result<
        Option<Block>,
        Error,
    >)
        ensures
            match (found, total_difficulty) {
                (Some(data), Some(total)) => match decoded_seal(byte_strings(data.header.seal@)) {
                    Some(fields) => r matches Ok(Some(block)) && shows_block(
                        block,
                        data,
                        total@,
                        fields,
                        include_txs,
                    ),
                    None => r matches Err(e) && e == Error::Internal,
                },
                _ => r matches Ok(None),
            },
    {
        match (found, total_difficulty) {
            (Some(data), Some(total)) => {
                let seal_fields = match decode_seal(&data.header.seal) {
                    Ok(fields) => fields,
                    Err(e) => {
                        return Err(e);
                    },
                };
                let transactions = if include_txs {
                    BlockTransactions::Full(data.transactions)
                } else {
                    BlockTransactions::Hashes(transaction_hashes(&data.transactions))
                };
                let mut block = header_view(data.header, total, seal_fields);
                block.size = Some(data.size);
                block.uncles = data.uncles;
                block.transactions = transactions;
                Ok(Some(block))
            },
            _ => Ok(None),
        }
    }

    /// The block whose total difficulty an uncle's own is counted from: its
    /// parent.
    pub fn uncle_parent(&self, uncle: &Header) -> (id: BlockId)
        ensures
            id == BlockId::Hash(uncle.parent_hash),
    {
        BlockId::Hash(uncle.parent_hash)
    }

    /// An uncle for an answer, from its header and the total difficulty of
    /// its parent. Where either is missing the answer is "not found". The
    /// total difficulty of the uncle is its own difficulty added to that of
    /// its parent; a sum beyond 256 bits is an internal error.
    pub fn uncle(&self, uncle: Option<Header>, parent_total_difficulty: Option<U256>) -> (r: Result<
        Option<Block>,
        Error,
    >)
        ensures
            match (uncle, parent_total_difficulty) {
                (Some(header), Some(parent)) => match decoded_seal(byte_strings(header.seal@)) {
                    Some(fields) if header.difficulty@ + parent@ < modulus() => r matches Ok(Some(block))
                        && shows_uncle(block, header, header.difficulty@ + parent@, fields),
                    _ => r matches Err(e) && e == Error::Internal,
                },
                _ => r matches Ok(None),
            },
    {
        match (uncle, parent_total_difficulty) {
            (Some(header), Some(parent)) => {
                let seal_fields = match decode_seal(&header.seal) {
                    Ok(fields) => fields,
                    Err(e) => {
                        return Err(e);
                    },
                };
                match header.difficulty.checked_add(parent) {
                    Some(total) => Ok(Some(header_view(header, total, seal_fields))),
                    None => Err(Error::Internal),
                }
            },
            _ => Ok(None),
        }
    }

    /// The answer to "is the node syncing": the progress of the sync where
    /// the sync engine is busy and the highest known block is more than
    /// `SYNC_LAG` blocks ahead of the best block, and "not syncing"
    /// otherwise. Until a peer has shown a higher block, the block at which
    /// the sync started counts as the highest.
    pub fn syncing(&self, status: SyncSnapshot, best_block_number: u64) -> (r: SyncStatus)
        ensures
            r == sync_status(status, best_block_number),
    {
        let highest = match status.highest_block_number {
            Some(highest) => highest,
            None => status.start_block_number,
        };
        let busy = match status.state {
            SyncState::Idle => false,
            _ => true,
        };
        if busy && highest > best_block_number && highest - best_block_number > SYNC_LAG {
            SyncStatus::Info(
                SyncInfo {
                    starting_block: status.start_block_number,
                    current_block: best_block_number,
                    highest_block: highest,
                },
            )
        } else {
            SyncStatus::NotSyncing
        }
    }

    /// The accounts of the node, from what the account store answered: its
    /// failure is an internal error.
    pub fn accounts<A, E>(&self, fetched: Result<Vec<A>, E>) -> (r: Result<Vec<A>, Error>)
        ensures
            match fetched {
                Ok(accounts) => r matches Ok(list) && list@ == accounts@,
                Err(_) => r matches Err(e) && e == Error::Internal,
            },
    {
        match fetched {
            Ok(accounts) => Ok(accounts),
            Err(_) => Err(Error::Internal),
        }
    }

    /// Where balance, nonce, code and storage behind a selector are read:
    /// "pending" in the miner's view of the pending block, any other selector
    /// in the chain store at that block.
    pub fn state_source(&self, num: BlockParam) -> (source: StateSource)
        ensures
            source == match num.0 {
                BlockNumber::Pending => StateSource::Pending,
                other => StateSource::Committed(other.block_id()),
            },
    {
        match num.0 {
            BlockNumber::Pending => StateSource::Pending,
            other => StateSource::Committed(other.to_block_id()),
        }
    }

    /// A balance, a nonce or a storage value for an answer, from what was
    /// read. Where the chain store no longer keeps the state of the block,
    /// the state is pruned.
    pub fn state_value<T>(&self, answer: StateAnswer<T>) -> (r: Result<T, Error>)
        ensures
            r == match answer {
                StateAnswer::Pending(value) => Ok::<T, Error>(value),
                StateAnswer::Committed(Some(value)) => Ok(value),
                StateAnswer::Committed(None) => Err(Error::StatePruned),
            },
    {
        match answer {
            StateAnswer::Pending(value) => Ok(value),
            StateAnswer::Committed(Some(value)) => Ok(value),
            StateAnswer::Committed(None) => Err(Error::StatePruned),
        }
    }

    /// The key of a storage position: the position as a number of 32
    /// bytes, the most significant byte first.
    pub fn storage_key(&self, position: U256) -> (key: H256)
        ensures
            be_value(key.0@) == position@,
    {
        H256(position.to_be_bytes())
    }

    /// The code of an account for an answer, from what was read: an account
    /// without code has the empty code. Where the chain store no longer
    /// keeps the state of the block, the state is pruned.
    pub fn code_at(&self, answer: StateAnswer<Option<Vec<u8>>>) -> (r: Result<Vec<u8>, Error>)
        ensures
            match answer {
                StateAnswer::Pending(Some(code)) | StateAnswer::Committed(Some(Some(code))) => r matches Ok(bytes)
                    && bytes@ == code@,
                StateAnswer::Pending(None) | StateAnswer::Committed(Some(None)) => r matches Ok(bytes)
                    && bytes@.len() == 0,
                StateAnswer::Committed(None) => r matches Err(e) && e == Error::StatePruned,
            },
    {
        match answer {
            StateAnswer::Pending(Some(code)) => Ok(code),
            StateAnswer::Committed(Some(Some(code))) => Ok(code),
            StateAnswer::Pending(None) => Ok(Vec::new()),
            StateAnswer::Committed(Some(None)) => Ok(Vec::new()),
            StateAnswer::Committed(None) => Err(Error::StatePruned),
        }
    }

    /// The number of transactions of the block that the chain store found
    /// under a hash, if it found one.
    pub fn block_transaction_count_by_hash(&self, found: Option<&BlockData>) -> (r: Option<U256>)
        ensures
            match found {
                Some(block) => r matches Some(count) && count@ == block.transactions@.len(),
                None => r.is_none(),
            },
    {
        match found {
            Some(block) => Some(U256::from_usize(block.transactions.len())),
            None => None,
        }
    }

    /// The number of transactions of a block named by a selector: for
    /// "pending" what the miner counts in its pending block, for any other
    /// selector the count of the block that the chain store found, if it
    /// found one.
    pub fn block_transaction_count_by_number(
        &self,
        num: BlockNumber,
        in_pending_block: usize,
        found: Option<&BlockData>,
    ) -> (r: Option<U256>)
        ensures
            match num {
                BlockNumber::Pending => r matches Some(count) && count@ == in_pending_block,
                _ => match found {
                    Some(block) => r matches Some(count) && count@ == block.transactions@.len(),
                    None => r.is_none(),
                },
            },
    {
        match num {
            BlockNumber::Pending => Some(U256::from_usize(in_pending_block)),
            _ => self.block_transaction_count_by_hash(found),
        }
    }

    /// The number of uncles of the block that the chain store found under a
    /// hash, if it found one.
    pub fn block_uncles_count_by_hash(&self, found: Option<&BlockData>) -> (r: Option<U256>)
        ensures
            match found {
                Some(block) => r matches Some(count) && count@ == block.uncles@.len(),
                None => r.is_none(),
            },
    {
        match found {
            Some(block) => Some(U256::from_usize(block.uncles.len())),
            None => None,
        }
    }

    /// The number of uncles of a block named by a selector: the pending
    /// block has none, any other selector gives the count of the block that
    /// the chain store found, if it found one.
    pub fn block_uncles_count_by_number(&self, num: BlockNumber, found: Option<&BlockData>) -> (r: Option<U256>)
        ensures
            match num {
                BlockNumber::Pending => r matches Some(count) && count@ == 0,
                _ => match found {
                    Some(block) => r matches Some(count) && count@ == block.uncles@.len(),
                    None => r.is_none(),
                },
            },
    {
        match num {
            BlockNumber::Pending => Some(U256::zero()),
            _ => self.block_uncles_count_by_hash(found),
        }
    }

    /// A transaction looked up by its hash: the one in the chain, and where
    /// the chain has none, the one in the mempool.
    pub fn transaction_by_hash(&self, committed: Option<Transaction>, pending: Option<Transaction>) -> (r: Option<
        Transaction,
    >)
        ensures
            r == match committed {
                Some(transaction) => Some(transaction),
                None => pending,
            },
    {
        match committed {
            Some(transaction) => Some(transaction),
            None => pending,
        }
    }

    /// A receipt looked up by the hash of its transaction: the one of the
    /// chain, and where the chain has none, the pending one, if the options
    /// allow pending receipts.
    pub fn transaction_receipt<R>(&self, committed: Option<R>, pending: Option<R>) -> (r: Option<R>)
        ensures
            r == match committed {
                Some(receipt) => Some(receipt),
                None => if self.options().allow_pending_receipt_query {
                    pending
                } else {
                    None
                },
            },
    {
        match committed {
            Some(receipt) => Some(receipt),
            None => if self.options.allow_pending_receipt_query {
                pending
            } else {
                None
            },
        }
    }

    /// The logs that a filter asks for: the logs of the chain in their
    /// order, then, where the range ends at "pending", the logs of the
    /// pending receipts that the filter lets through, each stamped with the
    /// hash of its transaction; of all these the last `limit`, where the
    /// filter sets a limit and there are more.
    pub fn logs(&self, filter: &Filter, committed: Vec<Log>, pending_receipts: &Vec<(H256, Vec<LogEntry>)>) -> (r:
        Vec<Log>)
        ensures
            exists|pending: Seq<Log>|
                show_pending(
                    pending,
                    if filter.to_block == Some(BlockNumber::Pending) {
                        pending_matches(pending_receipts@, *filter)
                    } else {
                        Seq::empty()
                    },
                ) && r@ == limited(committed@ + pending, filter.limit),
    {
        let mut logs = committed;
        if filter.includes_pending() {
            let mut pending = pending_logs(pending_receipts, filter);
            let ghost stamped = pending@;
            logs.append(&mut pending);
            let r = limit_logs(logs, filter.limit);
            assert(show_pending(stamped, pending_matches(pending_receipts@, *filter)) && r@ == limited(
                committed@ + stamped,
                filter.limit,
            ));
            r
        } else {
            let r = limit_logs(logs, filter.limit);
            assert(show_pending(Seq::<Log>::empty(), Seq::empty()) && r@ == limited(
                committed@ + Seq::<Log>::empty(),
                filter.limit,
            ));
            r
        }
    }

    /// The transaction that stands for a call request. `latest_nonce` is the
    /// latest known nonce of the sender and `default_gas_price` the gas price
    /// that the node computes; they fill in where the request names none.
    pub fn sign_call(&self, request: CallRequest, latest_nonce: U256, default_gas_price: U256) -> (transaction:
        CallTransaction)
        ensures
            stands_for(transaction, request, latest_nonce, default_gas_price),
    {
        let from = match request.from {
            Some(from) => from,
            None => H160([0u8; 20]),
        };
        CallTransaction {
            from,
            nonce: match request.nonce {
                Some(nonce) => nonce,
                None => latest_nonce,
            },
            action: match request.to {
                Some(to) => Action::Call(to),
                None => Action::Create,
            },
            gas: match request.gas {
                Some(gas) => gas,
                None => U256::from_u64(CALL_GAS),
            },
            gas_price: match request.gas_price {
                Some(price) => price,
                None => default_gas_price,
            },
            value: match request.value {
                Some(value) => value,
                None => U256::zero(),
            },
            data: match request.data {
                Some(data) => data,
                None => Vec::new(),
            },
        }
    }

    /// The bytes that a call returned; a call that failed returned none.
    pub fn call<E>(&self, executed: Result<Executed, E>) -> (output: Vec<u8>)
        ensures
            output@ == match executed {
                Ok(done) => done.output@,
                Err(_) => Seq::<u8>::empty(),
            },
    {
        match executed {
            Ok(done) => done.output,
            Err(_) => Vec::new(),
        }
    }

    /// The gas estimate of a call: the gas it used and the gas it was
    /// refunded, together; zero for a call that failed. A sum beyond 256 bits
    /// is an internal error.
    pub fn estimate_gas<E>(&self, executed: Result<Executed, E>) -> (r: Result<U256, Error>)
        ensures
            match executed {
                Ok(done) => if done.gas_used@ + done.refunded@ < modulus() {
                    r matches Ok(gas) && gas@ == done.gas_used@ + done.refunded@
                } else {
                    r matches Err(e) && e == Error::Internal
                },
                Err(_) => r matches Ok(gas) && gas@ == 0,
            },
    {
        match executed {
            Ok(done) => match done.gas_used.checked_add(done.refunded) {
                Some(gas) => Ok(gas),
                None => Err(Error::Internal),
            },
            Err(_) => Ok(U256::zero()),
        }
    }

    /// Answers a request for work at the time `now`, in seconds of the wall
    /// clock. `queue_size` is the length of the import queue when the request
    /// arrived, `author` the beneficiary that the miner is set to, `pending`
    /// the block that the miner is sealing. A timeout of zero lets a pending
    /// block of any age through.
    pub fn work_at(
        &mut self,
        queue_size: usize,
        author: &H160,
        pending: Option<PendingBlock>,
        no_new_work_timeout: u64,
        now: u64,
    ) -> (r: Result<Work, Error>)
        ensures
            answers_work(
                r,
                old(self).options().send_block_number_in_get_work,
                queue_size,
                *author,
                pending,
                no_new_work_timeout,
                now,
            ),
            final(self).options() == old(self).options(),
    {
        if queue_size > MAX_QUEUE_SIZE_TO_MINE_ON {
            return Err(Error::NoWork);
        }
        if author.is_zero() {
            return Err(Error::NoAuthor);
        }
        match pending {
            None => Err(Error::Internal),
            Some(block) => {
                let target = difficulty_to_boundary(&block.difficulty);
                let seed_hash = self.seed_compute.get_seedhash(block.number);
                if is_stale(block.timestamp, no_new_work_timeout, now) {
                    Err(Error::NoNewWork)
                } else {
                    Ok(
                        Work {
                            pow_hash: block.pow_hash,
                            seed_hash,
                            target: H256(target.to_be_bytes()),
                            number: if self.options.send_block_number_in_get_work {
                                Some(block.number)
                            } else {
                                None
                            },
                        },
                    )
                }
            },
        }
    }

    /// Answers a request for work at the time that the wall clock shows.
    /// Whatever it shows: a request that arrived with more than
    /// `MAX_QUEUE_SIZE_TO_MINE_ON` blocks in the import queue gets no work,
    /// and a request with a timeout of zero is never refused for the age of
    /// the pending block.
    pub fn work(
        &mut self,
        queue_size: usize,
        author: &H160,
        pending: Option<PendingBlock>,
        no_new_work_timeout: u64,
    ) -> (r: Result<Work, Error>)
        ensures
            exists|now: u64|
                answers_work(
                    r,
                    old(self).options().send_block_number_in_get_work,
                    queue_size,
                    *author,
                    pending,
                    no_new_work_timeout,
                    now,
                ),
            queue_size > MAX_QUEUE_SIZE_TO_MINE_ON ==> r == Err::<Work, Error>(Error::NoWork),
            no_new_work_timeout == 0 ==> r != Err::<Work, Error>(Error::NoNewWork),
            final(self).options() == old(self).options(),
    {
        let now = unix_now();
        self.work_at(queue_size, author, pending, no_new_work_timeout, now)
    }

    /// The answer to a submitted solution, from what the miner made of its
    /// seal: whether the miner took it. That the miner refused it is an
    /// answer, not an error.
    pub fn submit_work<E>(&self, sealed: Result<(), E>) -> (r: Result<bool, Error>)
        ensures
            r == Ok::<bool, Error>(sealed.is_ok()),
    {
        match sealed {
            Ok(_) => Ok(true),
            Err(_) => Ok(false),
        }
    }

    /// The answer to raw transaction bytes: the transaction to hand on
    /// where the bytes encode one, and for any other bytes the zero hash as
    /// the answer of the call, not an error.
    pub fn send_raw_transaction(&self, raw: &[u8]) -> (r: Result<RawTransaction, H256>)
        ensures
            match rlp_decoded_list(raw@) {
                Some(fields) if well_formed(fields) => r matches Ok(transaction) && holds_fields(
                    transaction,
                    fields,
                ),
                _ => r matches Err(hash) && all_zero(hash.0@),
            },
    {
        match decode_transaction(raw) {
            Some(transaction) => Ok(transaction),
            None => Err(H256::zero()),
        }
    }

    /// The compilers that the node offers: Solidity, if its compiler can be
    /// run.
    pub fn compilers(&self, solidity_runs: bool) -> (names: Vec<String>)
        ensures
            names@.len() == if solidity_runs { 1nat } else { 0nat },
            solidity_runs ==> names@[0]@ == "solidity"@,
    {
        let mut names: Vec<String> = Vec::new();
        if solidity_runs {
            names.push("solidity".to_string());
        }
        names
    }

    /// The answer to a request to compile Solidity, from what running the
    /// compiler gave: the code that its output holds. That the compiler
    /// could not be run, or that its output holds no code, means that the
    /// compilation failed.
    pub fn compile_solidity<E>(&self, output: Result<Vec<u8>, E>) -> (r: Result<Vec<u8>, Error>)
        ensures
            match output {
                Ok(stdout) => match scraped(stdout@) {
                    Some(code) => r matches Ok(bytes) && bytes@ == code,
                    None => r matches Err(e) && e == Error::CompilationFailed,
                },
                Err(_) => r matches Err(e) && e == Error::CompilationFailed,
            },
    {
        match output {
            Ok(stdout) => scrape_binary(stdout.as_slice()),
            Err(_) => Err(Error::CompilationFailed),
        }
    }

    /// The answer of the compilers that are not implemented.
    pub fn compile_unimplemented(&self) -> (r: Result<Vec<u8>, Error>)
        ensures
            r matches Err(e) && e == Error::NotImplemented,
    {
        Err(Error::NotImplemented)
    }
}

} // verus!
