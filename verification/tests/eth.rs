use eth_rpc::auto_args::BlockParam;
use eth_rpc::eth::{EthClient, EthClientOptions};
use eth_rpc::types::{
    Action, Block, BlockData, BlockId, BlockNumber, BlockTransactions, CallRequest, CallTransaction, Error, Executed,
    Header, StateAnswer, StateSource, SyncInfo, SyncSnapshot, SyncState, SyncStatus, Transaction, H160, H2048, H256,
};
use eth_rpc::uint::U256;

fn eth() -> EthClient {
    EthClient::new(EthClientOptions::default())
}

fn header(difficulty: U256) -> Header {
    Header {
        hash: H256([1; 32]),
        parent_hash: H256([2; 32]),
        uncles_hash: H256([3; 32]),
        author: H160([4; 20]),
        state_root: H256([5; 32]),
        transactions_root: H256([6; 32]),
        receipts_root: H256([7; 32]),
        number: 42,
        gas_used: U256::from_u64(21_000),
        gas_limit: U256::from_u64(4_700_000),
        log_bloom: H2048([8; 256]),
        timestamp: 1_470_000_000,
        difficulty,
        extra_data: vec![0xde, 0xad],
        seal: vec![vec![0x82, 0xaa, 0xbb], vec![0x07]],
    }
}

fn shown(difficulty: U256, total_difficulty: U256) -> Block {
    Block {
        hash: Some(H256([1; 32])),
        parent_hash: H256([2; 32]),
        uncles_hash: H256([3; 32]),
        author: H160([4; 20]),
        miner: H160([4; 20]),
        state_root: H256([5; 32]),
        transactions_root: H256([6; 32]),
        receipts_root: H256([7; 32]),
        number: Some(42),
        gas_used: U256::from_u64(21_000),
        gas_limit: U256::from_u64(4_700_000),
        extra_data: vec![0xde, 0xad],
        logs_bloom: H2048([8; 256]),
        timestamp: 1_470_000_000,
        difficulty,
        total_difficulty,
        seal_fields: vec![vec![0xaa, 0xbb], vec![0x07]],
        uncles: vec![],
        transactions: BlockTransactions::Hashes(vec![]),
        size: None,
    }
}

fn transaction(n: u8) -> Transaction {
    Transaction {
        hash: H256([n; 32]),
        nonce: U256::from_u64(n as u64),
        block_hash: Some(H256([1; 32])),
        block_number: Some(42),
        transaction_index: Some(n as u64),
        from: H160([n; 20]),
        to: None,
        value: U256::zero(),
        gas_price: U256::one(),
        gas: U256::from_u64(21_000),
        input: vec![n],
    }
}

fn block_data() -> BlockData {
    BlockData {
        header: header(U256::from_u64(100)),
        size: 517,
        uncles: vec![H256([0x10; 32]), H256([0x11; 32])],
        transactions: vec![transaction(1), transaction(2)],
    }
}

#[test]
fn default_options_allow_both() {
    let options = EthClientOptions::default();
    assert!(options.allow_pending_receipt_query);
    assert!(options.send_block_number_in_get_work);
}

#[test]
fn block_shows_hashes_or_full_transactions() {
    let r = eth().block(Some(block_data()), Some(U256::from_u64(1_000)), false);
    let mut expected = shown(U256::from_u64(100), U256::from_u64(1_000));
    expected.size = Some(517);
    expected.uncles = vec![H256([0x10; 32]), H256([0x11; 32])];
    expected.transactions = BlockTransactions::Hashes(vec![H256([1; 32]), H256([2; 32])]);
    assert_eq!(r, Ok(Some(expected)));

    let r = eth().block(Some(block_data()), Some(U256::from_u64(1_000)), true);
    let mut expected = shown(U256::from_u64(100), U256::from_u64(1_000));
    expected.size = Some(517);
    expected.uncles = vec![H256([0x10; 32]), H256([0x11; 32])];
    expected.transactions = BlockTransactions::Full(vec![transaction(1), transaction(2)]);
    assert_eq!(r, Ok(Some(expected)));
}

#[test]
fn block_without_data_or_difficulty_is_not_found() {
    assert_eq!(eth().block(None, Some(U256::one()), true), Ok(None));
    assert_eq!(eth().block(Some(block_data()), None, true), Ok(None));
    assert_eq!(eth().block(None, None, false), Ok(None));
}

#[test]
fn block_with_undecodable_seal_is_an_internal_error() {
    let mut data = block_data();
    data.header.seal = vec![vec![0x83, 0x01]];
    assert_eq!(eth().block(Some(data), Some(U256::one()), true), Err(Error::Internal));
}

#[test]
fn uncle_total_difficulty_adds_the_parents() {
    let r = eth().uncle(Some(header(U256::from_u64(100))), Some(U256::from_u64(5_000)));
    assert_eq!(r, Ok(Some(shown(U256::from_u64(100), U256::from_u64(5_100)))));

    let big = U256 { hi: 0, lo: u128::MAX };
    let r = eth().uncle(Some(header(big)), Some(U256::one()));
    assert_eq!(r, Ok(Some(shown(big, U256 { hi: 1, lo: 0 }))));
}

#[test]
fn uncle_without_parent_difficulty_is_not_found() {
    assert_eq!(eth().uncle(Some(header(U256::one())), None), Ok(None));
    assert_eq!(eth().uncle(None, Some(U256::one())), Ok(None));
    assert_eq!(eth().uncle(None, None), Ok(None));
}

#[test]
fn uncle_difficulty_beyond_256_bits_is_an_internal_error() {
    assert_eq!(eth().uncle(Some(header(U256::max_value())), Some(U256::one())), Err(Error::Internal));
}

#[test]
fn uncle_parent_is_named_by_hash() {
    assert_eq!(eth().uncle_parent(&header(U256::one())), BlockId::Hash(H256([2; 32])));
}

#[test]
fn syncing_needs_a_busy_engine_and_a_lag_of_more_than_six() {
    let status = |state, highest| SyncSnapshot { state, start_block_number: 10, highest_block_number: highest };
    let info = |highest| SyncStatus::Info(SyncInfo { starting_block: 10, current_block: 100, highest_block: highest });
    assert_eq!(eth().syncing(status(SyncState::Idle, Some(1_000)), 100), SyncStatus::NotSyncing);
    assert_eq!(eth().syncing(status(SyncState::Blocks, Some(107)), 100), info(107));
    assert_eq!(eth().syncing(status(SyncState::Blocks, Some(106)), 100), SyncStatus::NotSyncing);
    assert_eq!(eth().syncing(status(SyncState::Waiting, Some(50)), 100), SyncStatus::NotSyncing);
    assert_eq!(eth().syncing(status(SyncState::SnapshotData, Some(u64::MAX)), 100), info(u64::MAX));
    assert_eq!(eth().syncing(status(SyncState::ChainHead, Some(u64::MAX)), u64::MAX - 3), SyncStatus::NotSyncing);
    assert_eq!(eth().syncing(status(SyncState::NewBlocks, None), 100), SyncStatus::NotSyncing);
    assert_eq!(
        eth().syncing(status(SyncState::NewBlocks, None), 3),
        SyncStatus::Info(SyncInfo { starting_block: 10, current_block: 3, highest_block: 10 })
    );
}

#[test]
fn state_is_read_from_the_miner_only_for_pending() {
    assert_eq!(eth().state_source(BlockParam(BlockNumber::Pending)), StateSource::Pending);
    assert_eq!(eth().state_source(BlockParam(BlockNumber::Latest)), StateSource::Committed(BlockId::Latest));
    assert_eq!(eth().state_source(BlockParam(BlockNumber::Earliest)), StateSource::Committed(BlockId::Earliest));
    assert_eq!(eth().state_source(BlockParam(BlockNumber::Num(9))), StateSource::Committed(BlockId::Number(9)));
}

#[test]
fn missing_committed_state_is_pruned() {
    assert_eq!(eth().state_value(StateAnswer::Pending(5u64)), Ok(5));
    assert_eq!(eth().state_value(StateAnswer::Committed(Some(6u64))), Ok(6));
    assert_eq!(eth().state_value(StateAnswer::<u64>::Committed(None)), Err(Error::StatePruned));
    assert_eq!(eth().code_at(StateAnswer::Pending(Some(vec![1, 2]))), Ok(vec![1, 2]));
    assert_eq!(eth().code_at(StateAnswer::Pending(None)), Ok(vec![]));
    assert_eq!(eth().code_at(StateAnswer::Committed(Some(Some(vec![3])))), Ok(vec![3]));
    assert_eq!(eth().code_at(StateAnswer::Committed(Some(None))), Ok(vec![]));
    assert_eq!(eth().code_at(StateAnswer::Committed(None)), Err(Error::StatePruned));
}

#[test]
fn storage_position_is_a_key_of_32_bytes() {
    let mut key = [0u8; 32];
    key[31] = 5;
    assert_eq!(eth().storage_key(U256::from_u64(5)), H256(key));
    assert_eq!(eth().storage_key(U256::max_value()), H256([0xff; 32]));
}

#[test]
fn counts_of_the_pending_block_come_from_the_miner() {
    let e = eth();
    let mut found = block_data();
    found.transactions.push(transaction(3));
    assert_eq!(e.block_transaction_count_by_number(BlockNumber::Pending, 5, None), Some(U256::from_u64(5)));
    assert_eq!(e.block_transaction_count_by_number(BlockNumber::Pending, 5, Some(&found)), Some(U256::from_u64(5)));
    assert_eq!(e.block_transaction_count_by_number(BlockNumber::Latest, 5, Some(&found)), Some(U256::from_u64(3)));
    assert_eq!(e.block_transaction_count_by_number(BlockNumber::Num(1), 5, None), None);
    assert_eq!(e.block_transaction_count_by_hash(Some(&found)), Some(U256::from_u64(3)));
    assert_eq!(e.block_transaction_count_by_hash(None), None);
    assert_eq!(e.block_uncles_count_by_number(BlockNumber::Pending, Some(&found)), Some(U256::zero()));
    assert_eq!(e.block_uncles_count_by_number(BlockNumber::Earliest, Some(&found)), Some(U256::from_u64(2)));
    assert_eq!(e.block_uncles_count_by_number(BlockNumber::Latest, None), None);
    assert_eq!(e.block_uncles_count_by_hash(Some(&found)), Some(U256::from_u64(2)));
    assert_eq!(e.block_uncles_count_by_hash(None), None);
}

#[test]
fn transaction_lookup_falls_back_to_the_mempool() {
    let e = eth();
    assert_eq!(e.transaction_by_hash(Some(transaction(1)), Some(transaction(2))), Some(transaction(1)));
    assert_eq!(e.transaction_by_hash(None, Some(transaction(2))), Some(transaction(2)));
    assert_eq!(e.transaction_by_hash(Some(transaction(1)), None), Some(transaction(1)));
    assert_eq!(e.transaction_by_hash(None, None), None);
}

#[test]
fn pending_receipt_is_given_only_where_allowed() {
    let allowed = eth();
    assert_eq!(allowed.transaction_receipt(Some(1), Some(2)), Some(1));
    assert_eq!(allowed.transaction_receipt(Some(1), None), Some(1));
    assert_eq!(allowed.transaction_receipt(None, Some(2)), Some(2));
    assert_eq!(allowed.transaction_receipt::<u8>(None, None), None);
    let denied = EthClient::new(EthClientOptions {
        allow_pending_receipt_query: false,
        send_block_number_in_get_work: true,
    });
    assert_eq!(denied.transaction_receipt(Some(1), Some(2)), Some(1));
    assert_eq!(denied.transaction_receipt(None, Some(2)), None);
    assert_eq!(denied.transaction_receipt::<u8>(None, None), None);
}

#[test]
fn call_request_defaults() {
    let request =
        CallRequest { from: None, to: None, gas_price: None, gas: None, value: None, data: None, nonce: None };
    let tx = eth().sign_call(request, U256::from_u64(7), U256::from_u64(20_000_000_000));
    assert_eq!(
        tx,
        CallTransaction {
            from: H160([0; 20]),
            nonce: U256::from_u64(7),
            action: Action::Create,
            gas: U256::from_u64(50_000_000),
            gas_price: U256::from_u64(20_000_000_000),
            value: U256::zero(),
            data: vec![],
        }
    );
}

#[test]
fn call_request_fields_win_over_defaults() {
    let request = CallRequest {
        from: Some(H160([1; 20])),
        to: Some(H160([2; 20])),
        gas_price: Some(U256::from_u64(3)),
        gas: Some(U256::from_u64(4)),
        value: Some(U256::from_u64(5)),
        data: Some(vec![6]),
        nonce: Some(U256::from_u64(8)),
    };
    let tx = eth().sign_call(request, U256::from_u64(7), U256::from_u64(20_000_000_000));
    assert_eq!(
        tx,
        CallTransaction {
            from: H160([1; 20]),
            nonce: U256::from_u64(8),
            action: Action::Call(H160([2; 20])),
            gas: U256::from_u64(4),
            gas_price: U256::from_u64(3),
            value: U256::from_u64(5),
            data: vec![6],
        }
    );
}

#[test]
fn failed_call_gives_empty_output_and_zero_gas() {
    let done = || Executed { gas_used: U256::from_u64(21_000), refunded: U256::from_u64(500), output: vec![1, 2, 3] };
    assert_eq!(eth().call::<()>(Ok(done())), vec![1, 2, 3]);
    assert_eq!(eth().call::<()>(Err(())), Vec::<u8>::new());
    assert_eq!(eth().estimate_gas::<()>(Ok(done())), Ok(U256::from_u64(21_500)));
    assert_eq!(eth().estimate_gas::<()>(Err(())), Ok(U256::zero()));
    let huge = Executed { gas_used: U256::max_value(), refunded: U256::one(), output: vec![] };
    assert_eq!(eth().estimate_gas::<()>(Ok(huge)), Err(Error::Internal));
}

#[test]
fn rejected_solution_is_false_not_an_error() {
    assert_eq!(eth().submit_work::<&str>(Err("proof of work does not meet the target")), Ok(false));
    assert_eq!(eth().submit_work::<&str>(Ok(())), Ok(true));
}

#[test]
fn malformed_raw_transaction_gives_the_zero_hash() {
    assert_eq!(eth().send_raw_transaction(&[]), Err(H256([0; 32])));
    assert_eq!(eth().send_raw_transaction(&[0x01, 0x02, 0x03]), Err(H256([0; 32])));
    assert_eq!(eth().send_raw_transaction(&[0xc0]), Err(H256([0; 32])));
    assert_eq!(eth().send_raw_transaction(&[0xc3, 0x01, 0x02, 0x03]), Err(H256([0; 32])));
    assert_eq!(eth().send_raw_transaction(b"not a transaction at all"), Err(H256([0; 32])));
}

#[test]
fn well_formed_raw_transaction_is_handed_on() {
    let raw = [0xc9, 0x01, 0x02, 0x03, 0x80, 0x04, 0x80, 0x1b, 0x05, 0x06];
    assert!(eth().send_raw_transaction(&raw).is_ok());
}

#[test]
fn service_that_is_gone_is_unavailable() {
    assert_eq!(EthClient::take_weak(Some(5)), Ok(5));
    assert_eq!(EthClient::take_weak::<u8>(None), Err(Error::ServiceUnavailable));
    let service = std::sync::Arc::new(7u32);
    let handle = std::sync::Arc::downgrade(&service);
    assert_eq!(EthClient::take_weak(handle.upgrade()).map(|s| *s), Ok(7));
    drop(service);
    assert_eq!(EthClient::take_weak(handle.upgrade()).map(|s| *s), Err(Error::ServiceUnavailable));
}

#[test]
fn accounts_failure_is_internal() {
    assert_eq!(eth().accounts::<u8, &str>(Ok(vec![1, 2])), Ok(vec![1, 2]));
    assert_eq!(eth().accounts::<u8, &str>(Err("locked")), Err(Error::Internal));
}

#[test]
fn solidity_is_offered_where_it_runs() {
    assert_eq!(eth().compilers(true), vec!["solidity".to_string()]);
    assert_eq!(eth().compilers(false), Vec::<String>::new());
}

#[test]
fn zero_address_and_hash_equality() {
    assert!(H160([0; 20]).is_zero());
    assert!(!H160([0, 0, 0, 0, 0, 0, 0, 0, 0, 0, 0, 0, 0, 0, 0, 0, 0, 0, 0, 1]).is_zero());
    assert_eq!(H256::zero(), H256([0; 32]));
    assert!(H256([3; 32]).same(&H256([3; 32])));
    assert!(!H256([3; 32]).same(&H256([4; 32])));
    assert!(H160([3; 20]).same(&H160([3; 20])));
    assert_eq!(BlockNumber::Num(3).to_block_id(), BlockId::Number(3));
    assert_eq!(BlockNumber::Pending.to_block_id(), BlockId::Pending);
}
