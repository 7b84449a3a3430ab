//! Work packages for external miners: the target and the seed hash of a
//! pending block, and the rules by which a request for work is refused.

use crate::types::{all_zero, Error, H160, H256};
use crate::uint::{be_value, modulus, U256};
use tiny_keccak::{Hasher, Keccak};
use vstd::arithmetic::div_mod::lemma_div_is_ordered_by_denominator;
use vstd::prelude::*;

verus! {

/// The longest import queue under which work is given out: uncles go back
/// six blocks.
pub const MAX_QUEUE_SIZE_TO_MINE_ON: usize = 4;

/// How long a request for work waits for the import queue to drain, in
/// milliseconds.
pub const QUEUE_DRAIN_MILLIS: u64 = 1000;

/// How long a request sleeps between two looks at the import queue, in
/// milliseconds.
pub const QUEUE_POLL_MILLIS: u64 = 1;

/// The number of blocks for which the seed hash stays the same.
pub const EPOCH_LENGTH: u64 = 30000;

/// The Keccak-256 hash of a byte string.
pub uninterp spec fn keccak256(data: Seq<u8>) -> Seq<u8>;

/// `tiny_keccak::Keccak` with 256 bits: the hash of the 32 bytes.
#[verifier::external_body]
fn keccak_of(data: &[u8; 32]) -> (hash: [u8; 32])
    ensures
        hash@ == keccak256(data@),
{
    let mut keccak = Keccak::v256();
    keccak.update(data);
    let mut hash = [0u8; 32];
    keccak.finalize(&mut hash);
    hash
}

/// `time::get_time`: the wall clock, in whole seconds since the start of
/// 1970. Nothing is known of what it shows.
#[verifier::external_body]
fn wall_clock_seconds() -> (seconds: i64) {
    time::get_time().sec
}

/// The target of the proof of work for a difficulty: the largest number for
/// a difficulty of at most one, and else twice the quotient of two to the
/// power 255 by the difficulty.
pub open spec fn boundary(difficulty: nat) -> nat {
    if difficulty <= 1 {
        (modulus() - 1) as nat
    } else {
        2 * ((modulus() / 2) / difficulty)
    }
}

/// The seed hash of an epoch: 32 zero bytes for the first epoch, and for
/// every other epoch the hash of the seed hash of the epoch before.
pub open spec fn seed_of_epoch(epoch: nat) -> Seq<u8>
    decreases epoch,
{
    if epoch == 0 {
        Seq::new(32, |i: int| 0u8)
    } else {
        keccak256(seed_of_epoch((epoch - 1) as nat))
    }
}

/// The seed hash of a block: that of its epoch.
pub open spec fn seed_hash(block_number: u64) -> Seq<u8> {
    seed_of_epoch((block_number / EPOCH_LENGTH) as nat)
}

/// A higher difficulty never gives a larger target.
pub proof fn lemma_boundary_monotonic(lower: nat, higher: nat)
    requires
        lower <= higher,
    ensures
        boundary(higher) <= boundary(lower),
        boundary(lower) < modulus(),
{
    let x = (modulus() / 2) as int;
    if lower >= 2 {
        lemma_div_is_ordered_by_denominator(x, lower as int, higher as int);
        lemma_div_is_ordered_by_denominator(x, 2, lower as int);
    } else if higher >= 2 {
        lemma_div_is_ordered_by_denominator(x, 2, higher as int);
    }
}

/// The product of a difficulty and its target never exceeds two to the
/// power 256: of all 256-bit numbers at most one in `difficulty` lies below
/// the target.
pub proof fn lemma_boundary_times_difficulty(difficulty: nat)
    ensures
        boundary(difficulty) * difficulty <= modulus(),
{
    let x = modulus() / 2;
    if difficulty >= 2 {
        let q = x / difficulty;
        assert(q * difficulty <= x) by (nonlinear_arith)
            requires
                q == x / difficulty,
                difficulty >= 2,
        ;
        assert((2 * q) * difficulty == 2 * (q * difficulty)) by (nonlinear_arith);
    } else {
        assert(boundary(difficulty) * difficulty <= boundary(difficulty)) by (nonlinear_arith)
            requires
                difficulty <= 1,
        ;
    }
}

/// The seed hash changes only where a new epoch begins: two blocks of one
/// epoch have the same seed hash.
pub proof fn lemma_seed_hash_by_epoch(a: u64, b: u64)
    requires
        a / EPOCH_LENGTH == b / EPOCH_LENGTH,
    ensures
        seed_hash(a) == seed_hash(b),
{
}

/// The target of the proof of work for a difficulty.
pub fn difficulty_to_boundary(difficulty: &U256) -> (target: U256)
    ensures
        target@ == boundary(difficulty@),
{
    if difficulty.le(&U256::one()) {
        U256::max_value()
    } else {
        let range = U256 { hi: 0x8000_0000_0000_0000_0000_0000_0000_0000, lo: 0 };
        assert(range@ == modulus() / 2) by (nonlinear_arith)
            requires
                range@ == 0x8000_0000_0000_0000_0000_0000_0000_0000nat * crate::uint::half(),
                crate::uint::half() == 0x1_0000_0000_0000_0000_0000_0000_0000_0000nat,
                modulus()
                    == 0x1_0000_0000_0000_0000_0000_0000_0000_0000_0000_0000_0000_0000_0000_0000_0000_0000nat,
        ;
        let (quotient, _) = range.div_rem(*difficulty);
        proof {
            lemma_div_is_ordered_by_denominator(range@ as int, 2, difficulty@ as int);
        }
        let (target, _) = quotient.overflowing_add(quotient);
        target
    }
}

/// Seed hashes, computed from the one that was asked for last.
pub struct SeedHashCompute {
    prev_epoch: u64,
    prev_seedhash: H256,
}

impl SeedHashCompute {
    #[verifier::type_invariant]
    spec fn holds_seed(self) -> bool {
        self.prev_seedhash.0@ == seed_of_epoch(self.prev_epoch as nat)
    }

    /// The epoch whose seed hash the cache holds.
    pub closed spec fn epoch(&self) -> nat {
        self.prev_epoch as nat
    }

    /// A cache that holds the seed hash of the first epoch.
    pub fn new() -> (cache: SeedHashCompute)
        ensures
            cache.epoch() == 0,
    {
        let zero = [0u8; 32];
        assert(zero@ =~= seed_of_epoch(0));
        SeedHashCompute { prev_epoch: 0, prev_seedhash: H256(zero) }
    }

    /// The seed hash of a block. It is computed from the seed hash that the
    /// cache holds where that is of an earlier epoch, and from the first
    /// epoch on where it is of a later one.
    pub fn get_seedhash(&mut self, block_number: u64) -> (hash: H256)
        ensures
            hash.0@ == seed_hash(block_number),
            final(self).epoch() == block_number / EPOCH_LENGTH,
    {
        proof {
            use_type_invariant(&*self);
        }
        let epoch = block_number / EPOCH_LENGTH;
        let mut from: u64 = self.prev_epoch;
        let mut hash: [u8; 32] = self.prev_seedhash.0;
        if epoch < from {
            from = 0;
            hash = [0u8; 32];
            assert(hash@ =~= seed_of_epoch(0));
        }
        while from < epoch
            invariant
                from <= epoch,
                hash@ == seed_of_epoch(from as nat),
            decreases epoch - from,
        {
            hash = keccak_of(&hash);
            from = from + 1;
        }
        *self = SeedHashCompute { prev_epoch: epoch, prev_seedhash: H256(hash) };
        H256(hash)
    }
}

/// The block that the miner is sealing, as far as a work package shows it.
#[derive(Clone, Copy, Debug, PartialEq, Eq)]
pub struct PendingBlock {
    /// The hash of the header without its seal.
    pub pow_hash: H256,
    /// The difficulty of the block.
    pub difficulty: U256,
    /// The height of the block.
    pub number: u64,
    /// The time stamp of the block, in seconds.
    pub timestamp: u64,
}

/// What a miner needs to work on the pending block.
#[derive(Clone, Copy, Debug, PartialEq, Eq)]
pub struct Work {
    /// The hash of the header without its seal.
    pub pow_hash: H256,
    /// The seed hash of the epoch of the block.
    pub seed_hash: H256,
    /// The target that the proof of work has to stay under, as a number of
    /// 32 bytes with the most significant byte first.
    pub target: H256,
    /// The height of the block, where the options ask for it.
    pub number: Option<u64>,
}

/// What a request for work does next.
#[derive(Clone, Copy, Debug, PartialEq, Eq, Structural)]
pub enum WorkStep {
    /// It is refused with this error.
    Refuse(Error),
    /// It sleeps `QUEUE_POLL_MILLIS` milliseconds and then looks at the
    /// import queue again.
    Sleep,
    /// It asks the miner for the pending block and builds the package.
    Build,
}

/// Why a request for work is refused, or nothing where it is granted. In
/// this order: the import queue held more than `MAX_QUEUE_SIZE_TO_MINE_ON`
/// blocks when the request arrived; no beneficiary is configured; the miner
/// has no pending block; the caller set a timeout and the pending block is
/// older than that.
pub open spec fn work_refusal(
    queue_size: usize,
    author: H160,
    pending: Option<PendingBlock>,
    no_new_work_timeout: u64,
    now: u64,
) -> Option<Error> {
    if queue_size > MAX_QUEUE_SIZE_TO_MINE_ON {
        Some(Error::NoWork)
    } else if all_zero(author.0@) {
        Some(Error::NoAuthor)
    } else {
        match pending {
            None => Some(Error::Internal),
            Some(block) => if no_new_work_timeout > 0 && block.timestamp + no_new_work_timeout < now {
                Some(Error::NoNewWork)
            } else {
                None
            },
        }
    }
}

/// Whether `work` is the package for the pending block: its hash, the seed
/// hash of its epoch, the target for its difficulty, and its height where
/// `with_number` asks for it.
pub open spec fn is_work_for(work: Work, block: PendingBlock, with_number: bool) -> bool {
    &&& work.pow_hash == block.pow_hash
    &&& work.seed_hash.0@ == seed_hash(block.number)
    &&& be_value(work.target.0@) == boundary(block.difficulty@)
    &&& work.number == if with_number {
        Some(block.number)
    } else {
        None
    }
}

/// Whether `r` answers a request for work at the time `now`.
pub open spec fn answers_work(
    r: Result<Work, Error>,
    with_number: bool,
    queue_size: usize,
    author: H160,
    pending: Option<PendingBlock>,
    no_new_work_timeout: u64,
    now: u64,
) -> bool {
    match work_refusal(queue_size, author, pending, no_new_work_timeout, now) {
        Some(error) => r == Err::<Work, Error>(error),
        None => r matches Ok(work) && is_work_for(work, pending.unwrap(), with_number),
    }
}

/// A request that arrives while the import queue holds more than
/// `MAX_QUEUE_SIZE_TO_MINE_ON` blocks gets no work, whatever its timeout,
/// the time, the beneficiary and the pending block are.
pub proof fn lemma_busy_queue_gives_no_work(
    queue_size: usize,
    author: H160,
    pending: Option<PendingBlock>,
    no_new_work_timeout: u64,
    now: u64,
)
    requires
        queue_size > MAX_QUEUE_SIZE_TO_MINE_ON,
    ensures
        work_refusal(queue_size, author, pending, no_new_work_timeout, now) == Some(Error::NoWork),
{
}

/// A request with a timeout of zero is never refused for the age of the
/// pending block, whatever the time and the time stamp of the block are.
pub proof fn lemma_zero_timeout_is_never_stale(
    queue_size: usize,
    author: H160,
    pending: Option<PendingBlock>,
    now: u64,
)
    ensures
        work_refusal(queue_size, author, pending, 0, now) != Some(Error::NoNewWork),
{
}

/// What a request for work does after it has waited `waited_millis`
/// milliseconds for the import queue to drain. When it arrives it is refused
/// if the queue holds more than `MAX_QUEUE_SIZE_TO_MINE_ON` blocks. After
/// that it sleeps as long as the queue holds a block and it has waited less
/// than `QUEUE_DRAIN_MILLIS`, and then builds the package.
pub fn next_work_step(arrived: bool, queue_size: usize, waited_millis: u64) -> (step: WorkStep)
    ensures
        step == if arrived && queue_size > MAX_QUEUE_SIZE_TO_MINE_ON {
            WorkStep::Refuse(Error::NoWork)
        } else if waited_millis < QUEUE_DRAIN_MILLIS && queue_size > 0 {
            WorkStep::Sleep
        } else {
            WorkStep::Build
        },
{
    if arrived && queue_size > MAX_QUEUE_SIZE_TO_MINE_ON {
        WorkStep::Refuse(Error::NoWork)
    } else if waited_millis < QUEUE_DRAIN_MILLIS && queue_size > 0 {
        WorkStep::Sleep
    } else {
        WorkStep::Build
    }
}

/// The wall clock in seconds, as an unsigned number.
pub(crate) fn unix_now() -> (now: u64) {
    let seconds = wall_clock_seconds();
    seconds_to_unsigned(seconds)
}

/// Whether a pending block with the given time stamp is too old for a
/// caller that allows `no_new_work_timeout` seconds. A timeout of zero
/// allows any age.
pub fn is_stale(timestamp: u64, no_new_work_timeout: u64, now: u64) -> (stale: bool)
    ensures
        stale == (no_new_work_timeout > 0 && timestamp + no_new_work_timeout < now),
{
    if no_new_work_timeout == 0 {
        false
    } else {
        match timestamp.checked_add(no_new_work_timeout) {
            Some(deadline) => deadline < now,
            None => false,
        }
    }
}

/// The seconds of a clock as an unsigned number of 64 bits: seconds from
/// 1970 on as they are, seconds before 1970 counted down from two to the
/// power 64.
pub open spec fn unsigned_seconds(seconds: i64) -> u64 {
    if seconds >= 0 {
        seconds as u64
    } else {
        (seconds + 0x1_0000_0000_0000_0000) as u64
    }
}

/// Reads the seconds of a clock as an unsigned number of 64 bits.
pub fn seconds_to_unsigned(seconds: i64) -> (now: u64)
    ensures
        now == unsigned_seconds(seconds),
{
    if seconds >= 0 {
        seconds as u64
    } else {
        u64::MAX - ((-(seconds + 1)) as u64)
    }
}

} // verus!
