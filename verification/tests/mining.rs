use eth_rpc::eth::{EthClient, EthClientOptions};
use eth_rpc::mining::{
    difficulty_to_boundary, is_stale, next_work_step, seconds_to_unsigned, PendingBlock, SeedHashCompute, Work,
    WorkStep,
};
use eth_rpc::types::{Error, H160, H256};
use eth_rpc::uint::U256;

const EPOCH_1_SEED: [u8; 32] = [
    0x29, 0x0d, 0xec, 0xd9, 0x54, 0x8b, 0x62, 0xa8, 0xd6, 0x03, 0x45, 0xa9, 0x88, 0x38, 0x6f, 0xc8, 0x4b, 0xa6,
    0xbc, 0x95, 0x48, 0x40, 0x08, 0xf6, 0x36, 0x2f, 0x93, 0x16, 0x0e, 0xf3, 0xe5, 0x63,
];

const EPOCH_2_SEED: [u8; 32] = [
    0x51, 0x0e, 0x4e, 0x77, 0x08, 0x28, 0xdd, 0xbf, 0x7f, 0x7b, 0x00, 0xab, 0x00, 0xa9, 0xf6, 0xad, 0xaf, 0x81,
    0xc0, 0xdc, 0x9c, 0xc8, 0x5f, 0x1f, 0x82, 0x49, 0xc2, 0x56, 0x94, 0x2d, 0x61, 0xd9,
];

fn author() -> H160 {
    H160([0x11; 20])
}

fn pending(timestamp: u64) -> PendingBlock {
    PendingBlock { pow_hash: H256([0xab; 32]), difficulty: U256::from_u64(4), number: 30_001, timestamp }
}

fn quarter() -> H256 {
    let mut target = [0u8; 32];
    target[0] = 0x40;
    H256(target)
}

fn client(with_number: bool) -> EthClient {
    EthClient::new(EthClientOptions { allow_pending_receipt_query: true, send_block_number_in_get_work: with_number })
}

#[test]
fn boundary_of_small_difficulties_is_the_largest_number() {
    assert_eq!(difficulty_to_boundary(&U256::zero()), U256::max_value());
    assert_eq!(difficulty_to_boundary(&U256::one()), U256::max_value());
}

#[test]
fn boundary_is_twice_the_quotient() {
    assert_eq!(difficulty_to_boundary(&U256::from_u64(2)), U256 { hi: 1 << 127, lo: 0 });
    assert_eq!(difficulty_to_boundary(&U256::from_u64(4)), U256 { hi: 1 << 126, lo: 0 });
    assert_eq!(
        difficulty_to_boundary(&U256::from_u64(3)),
        U256 { hi: 0x5555_5555_5555_5555_5555_5555_5555_5555, lo: 0x5555_5555_5555_5555_5555_5555_5555_5554 }
    );
    assert_eq!(difficulty_to_boundary(&U256 { hi: 1 << 127, lo: 0 }), U256::from_u64(2));
    assert_eq!(difficulty_to_boundary(&U256::max_value()), U256::zero());
}

#[test]
fn boundary_falls_as_difficulty_rises() {
    let mut last = U256::max_value();
    for difficulty in [1u64, 2, 3, 5, 1000, 1 << 40, u64::MAX] {
        let target = difficulty_to_boundary(&U256::from_u64(difficulty));
        assert!(target.le(&last));
        last = target;
    }
}

#[test]
fn seed_hash_changes_at_epoch_boundaries_only() {
    let mut seeds = SeedHashCompute::new();
    assert_eq!(seeds.get_seedhash(0), H256([0; 32]));
    assert_eq!(seeds.get_seedhash(29_999), H256([0; 32]));
    assert_eq!(seeds.get_seedhash(30_000), H256(EPOCH_1_SEED));
    assert_eq!(seeds.get_seedhash(59_999), H256(EPOCH_1_SEED));
    assert_eq!(seeds.get_seedhash(60_000), H256(EPOCH_2_SEED));
}

#[test]
fn seed_hash_of_an_earlier_epoch_is_computed_afresh() {
    let mut seeds = SeedHashCompute::new();
    assert_eq!(seeds.get_seedhash(60_000), H256(EPOCH_2_SEED));
    assert_eq!(seeds.get_seedhash(30_000), H256(EPOCH_1_SEED));
    assert_eq!(seeds.get_seedhash(1), H256([0; 32]));
    assert_eq!(seeds.get_seedhash(60_001), H256(EPOCH_2_SEED));
}

#[test]
fn work_package_is_built_from_the_pending_block() {
    let mut eth = client(true);
    let work = eth.work_at(0, &author(), Some(pending(1_000)), 0, 5_000);
    assert_eq!(
        work,
        Ok(Work {
            pow_hash: H256([0xab; 32]),
            seed_hash: H256(EPOCH_1_SEED),
            target: quarter(),
            number: Some(30_001),
        })
    );
    let mut eth = client(false);
    let work = eth.work_at(4, &author(), Some(pending(1_000)), 0, 5_000);
    assert_eq!(
        work,
        Ok(Work {
            pow_hash: H256([0xab; 32]),
            seed_hash: H256(EPOCH_1_SEED),
            target: quarter(),
            number: None,
        })
    );
}

#[test]
fn busy_queue_yields_no_work_whatever_the_timeout() {
    let mut eth = client(true);
    for timeout in [0u64, 1, 10, u64::MAX] {
        assert_eq!(eth.work_at(5, &author(), Some(pending(1_000)), timeout, 5_000), Err(Error::NoWork));
        assert_eq!(eth.work(5, &author(), Some(pending(1_000)), timeout), Err(Error::NoWork));
        assert_eq!(eth.work(usize::MAX, &H160([0; 20]), None, timeout), Err(Error::NoWork));
    }
}

#[test]
fn zero_timeout_never_yields_no_new_work() {
    let mut eth = client(true);
    for timestamp in [0u64, 1, 1_000, u64::MAX] {
        for now in [0u64, 1_000, u64::MAX] {
            assert!(eth.work_at(0, &author(), Some(pending(timestamp)), 0, now).is_ok());
        }
        assert!(eth.work(0, &author(), Some(pending(timestamp)), 0).is_ok());
    }
}

#[test]
fn stale_pending_block_yields_no_new_work() {
    let mut eth = client(true);
    assert_eq!(eth.work_at(0, &author(), Some(pending(1_000)), 10, 1_011), Err(Error::NoNewWork));
    assert!(eth.work_at(0, &author(), Some(pending(1_000)), 10, 1_010).is_ok());
    assert!(eth.work_at(0, &author(), Some(pending(u64::MAX)), 10, u64::MAX).is_ok());
    assert_eq!(eth.work(0, &author(), Some(pending(1)), 1), Err(Error::NoNewWork));
}

#[test]
fn missing_author_and_missing_block_are_refused() {
    let mut eth = client(true);
    assert_eq!(eth.work_at(0, &H160([0; 20]), Some(pending(1_000)), 0, 0), Err(Error::NoAuthor));
    assert_eq!(eth.work_at(0, &H160([0; 20]), None, 0, 0), Err(Error::NoAuthor));
    assert_eq!(eth.work_at(0, &author(), None, 0, 0), Err(Error::Internal));
}

#[test]
fn staleness_goes_by_timestamp_plus_timeout() {
    assert!(!is_stale(100, 0, u64::MAX));
    assert!(is_stale(100, 5, 106));
    assert!(!is_stale(100, 5, 105));
    assert!(!is_stale(u64::MAX, 5, u64::MAX));
}

#[test]
fn request_waits_for_the_queue_to_drain() {
    assert_eq!(next_work_step(true, 5, 0), WorkStep::Refuse(Error::NoWork));
    assert_eq!(next_work_step(true, 4, 0), WorkStep::Sleep);
    assert_eq!(next_work_step(true, 0, 0), WorkStep::Build);
    assert_eq!(next_work_step(false, 5, 10), WorkStep::Sleep);
    assert_eq!(next_work_step(false, 1, 999), WorkStep::Sleep);
    assert_eq!(next_work_step(false, 1, 1000), WorkStep::Build);
    assert_eq!(next_work_step(false, 0, 10), WorkStep::Build);
}

#[test]
fn clock_seconds_are_read_as_unsigned() {
    assert_eq!(seconds_to_unsigned(0), 0);
    assert_eq!(seconds_to_unsigned(1_470_000_000), 1_470_000_000);
    assert_eq!(seconds_to_unsigned(i64::MAX), i64::MAX as u64);
    assert_eq!(seconds_to_unsigned(-1), u64::MAX);
    assert_eq!(seconds_to_unsigned(-2), u64::MAX - 1);
    assert_eq!(seconds_to_unsigned(i64::MIN), 1u64 << 63);
    for seconds in [-5i64, -1, 0, 7, i64::MIN, i64::MAX] {
        assert_eq!(seconds_to_unsigned(seconds), seconds as u64);
    }
}
