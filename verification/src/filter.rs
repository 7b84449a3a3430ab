//! Log filters: which logs a filter lets through, the logs of pending
//! transactions, and the cap on the number of logs in an answer.

use crate::types::{BlockNumber, Log, LogEntry, H160, H256};
use vstd::prelude::*;

verus! {

/// A request for logs.
#[derive(Debug, PartialEq, Eq)]
pub struct Filter {
    /// The first block of the range.
    pub from_block: Option<BlockNumber>,
    /// The last block of the range; "pending" adds the logs of the
    /// transactions in the mempool.
    pub to_block: Option<BlockNumber>,
    /// The contracts whose logs are asked for; none or an empty list asks
    /// for the logs of every contract.
    pub address: Option<Vec<H160>>,
    /// For each position of a topic, the topics asked for at that position;
    /// none or an empty list lets every topic through.
    pub topics: Vec<Option<Vec<H256>>>,
    /// The largest number of logs in the answer.
    pub limit: Option<usize>,
}

/// Whether the filter lets the address of a log through.
pub open spec fn address_matches(wanted: Option<Vec<H160>>, address: H160) -> bool {
    match wanted {
        Some(list) => list@.len() == 0 || list@.contains(address),
        None => true,
    }
}

/// Whether the filter lets a log through at one position of its topics: the
/// log has a topic at the position and it is one of those asked for.
pub open spec fn topic_matches(wanted: Option<Vec<H256>>, topics: Seq<H256>, position: int) -> bool {
    match wanted {
        Some(list) => list@.len() == 0 || (position < topics.len() && list@.contains(topics[position])),
        None => true,
    }
}

/// Whether the filter lets a log through: its address and, at every
/// position that the filter speaks of, its topic.
pub open spec fn filter_matches(filter: Filter, log: LogEntry) -> bool {
    &&& address_matches(filter.address, log.address)
    &&& forall|i: int|
        0 <= i < filter.topics@.len() ==> topic_matches(#[trigger] filter.topics@[i], log.topics@, i)
}

/// The logs among `entries` that the filter lets through, in their order,
/// each with the hash of the transaction that wrote it.
pub open spec fn matching_logs(hash: H256, entries: Seq<LogEntry>, filter: Filter) -> Seq<(H256, LogEntry)>
    decreases entries.len(),
{
    if entries.len() == 0 {
        Seq::empty()
    } else {
        let before = matching_logs(hash, entries.drop_last(), filter);
        if filter_matches(filter, entries.last()) {
            before.push((hash, entries.last()))
        } else {
            before
        }
    }
}

/// The logs of the pending receipts that the filter lets through: receipt by
/// receipt, and within a receipt in the order of its logs.
pub open spec fn pending_matches(receipts: Seq<(H256, Vec<LogEntry>)>, filter: Filter) -> Seq<(H256, LogEntry)>
    decreases receipts.len(),
{
    if receipts.len() == 0 {
        Seq::empty()
    } else {
        pending_matches(receipts.drop_last(), filter) + matching_logs(
            receipts.last().0,
            receipts.last().1@,
            filter,
        )
    }
}

/// Whether `log` shows a pending log entry: address, topics and data of the
/// entry, the hash of its transaction, and no place in the chain.
pub open spec fn shows_pending(log: Log, source: (H256, LogEntry)) -> bool {
    &&& log.address == source.1.address
    &&& log.topics@ == source.1.topics@
    &&& log.data@ == source.1.data@
    &&& log.transaction_hash == Some(source.0)
    &&& log.block_hash.is_none()
    &&& log.block_number.is_none()
    &&& log.transaction_index.is_none()
    &&& log.log_index.is_none()
}

/// Whether `logs` shows the pending log entries `sources`, one by one.
pub open spec fn show_pending(logs: Seq<Log>, sources: Seq<(H256, LogEntry)>) -> bool {
    &&& logs.len() == sources.len()
    &&& forall|i: int| 0 <= i < logs.len() ==> shows_pending(#[trigger] logs[i], sources[i])
}

/// The last `limit` of the logs, or all of them where there are fewer or
/// where there is no limit.
pub open spec fn limited<T>(logs: Seq<T>, limit: Option<usize>) -> Seq<T> {
    match limit {
        Some(limit) if logs.len() >= limit => logs.skip(logs.len() - limit),
        _ => logs,
    }
}

/// A capped list is the end of the whole list and holds as many logs as the
/// list has, but no more than the limit.
pub proof fn lemma_limited<T>(logs: Seq<T>, limit: Option<usize>)
    ensures
        limited(logs, limit).len() == match limit {
            Some(limit) if logs.len() >= limit => limit as nat,
            _ => logs.len(),
        },
        limited(logs, limit) == logs.skip(logs.len() - limited(logs, limit).len()),
{
    assert(logs.skip(0) =~= logs);
}

fn contains_address(list: &Vec<H160>, address: &H160) -> (r: bool)
    ensures
        r == list@.contains(*address),
{
    let mut i: usize = 0;
    while i < list.len()
        invariant
            0 <= i <= list@.len(),
            forall|j: int| 0 <= j < i ==> list@[j] != *address,
        decreases list@.len() - i,
    {
        if list[i].same(address) {
            return true;
        }
        i = i + 1;
    }
    false
}

fn contains_hash(list: &Vec<H256>, hash: &H256) -> (r: bool)
    ensures
        r == list@.contains(*hash),
{
    let mut i: usize = 0;
    while i < list.len()
        invariant
            0 <= i <= list@.len(),
            forall|j: int| 0 <= j < i ==> list@[j] != *hash,
        decreases list@.len() - i,
    {
        if list[i].same(hash) {
            return true;
        }
        i = i + 1;
    }
    false
}

impl Filter {
    /// Whether the filter lets the log through.
    pub fn matches(&self, log: &LogEntry) -> (r: bool)
        ensures
            r == filter_matches(*self, *log),
    {
        let address_ok = match &self.address {
            Some(list) => list.len() == 0 || contains_address(list, &log.address),
            None => true,
        };
        if !address_ok {
            return false;
        }
        let mut i: usize = 0;
        while i < self.topics.len()
            invariant
                0 <= i <= self.topics@.len(),
                forall|j: int| 0 <= j < i ==> topic_matches(#[trigger] self.topics@[j], log.topics@, j),
            decreases self.topics@.len() - i,
        {
            let ok = match &self.topics[i] {
                Some(list) => list.len() == 0 || (i < log.topics.len() && contains_hash(list, &log.topics[i])),
                None => true,
            };
            if !ok {
                assert(!topic_matches(self.topics@[i as int], log.topics@, i as int));
                return false;
            }
            i = i + 1;
        }
        true
    }

    /// Whether the answer takes in the logs of the pending transactions:
    /// where the range ends at "pending".
    pub fn includes_pending(&self) -> (r: bool)
        ensures
            r == (self.to_block == Some(BlockNumber::Pending)),
    {
        match self.to_block {
            Some(BlockNumber::Pending) => true,
            _ => false,
        }
    }
}

/// Caps a list of logs: where it is longer than the limit, only its last
/// `limit` logs stay, which are the most recent ones.
pub fn limit_logs<T>(logs: Vec<T>, limit: Option<usize>) -> (r: Vec<T>)
    ensures
        r@ == limited(logs@, limit),
{
    let ghost all = logs@;
    let mut logs = logs;
    let len = logs.len();
    match limit {
        Some(limit) => if len >= limit {
            let kept = logs.split_off(len - limit);
            assert(kept@ =~= limited(all, Some(limit)));
            kept
        } else {
            logs
        },
        None => logs,
    }
}

} // verus!
