use eth_rpc::eth::{EthClient, EthClientOptions};
use eth_rpc::solc::scrape_binary;
use eth_rpc::types::Error;

#[test]
fn code_is_on_the_line_after_the_marker() {
    let out = b"\n======= <stdin>:Test =======\nBinary: \n6060ff\n";
    assert_eq!(scrape_binary(out), Ok(vec![0x60, 0x60, 0xff]));
}

#[test]
fn first_marker_line_counts() {
    let out = b"Binary\n0a\nBinary\n0b\n";
    assert_eq!(scrape_binary(out), Ok(vec![0x0a]));
    let out = b"xxBinaryxx\nAbCdEf\n";
    assert_eq!(scrape_binary(out), Ok(vec![0xab, 0xcd, 0xef]));
}

#[test]
fn output_without_marker_or_without_next_line_fails() {
    assert_eq!(scrape_binary(b""), Err(Error::CompilationFailed));
    assert_eq!(scrape_binary(b"nothing here\n6060\n"), Err(Error::CompilationFailed));
    assert_eq!(scrape_binary(b"Binary"), Err(Error::CompilationFailed));
    assert_eq!(scrape_binary(b"Binary:\n"), Err(Error::CompilationFailed));
    assert_eq!(scrape_binary(b"Binar\ny\n6060\n"), Err(Error::CompilationFailed));
    assert_eq!(scrape_binary(b"binary\n6060\n"), Err(Error::CompilationFailed));
}

#[test]
fn line_that_is_no_hexadecimal_gives_empty_code() {
    assert_eq!(scrape_binary(b"Binary\n\n"), Ok(vec![]));
    assert_eq!(scrape_binary(b"Binary\nxyz\n"), Ok(vec![]));
    assert_eq!(scrape_binary(b"Binary\n606\n"), Ok(vec![]));
    assert_eq!(scrape_binary(b"Binary\n60 6g\n"), Ok(vec![]));
}

#[test]
fn blanks_between_digits_are_skipped() {
    assert_eq!(scrape_binary(b"Binary\r\n60 60\tf f\r\n"), Ok(vec![0x60, 0x60, 0xff]));
    assert_eq!(scrape_binary(b"Binary\n0 1"), Ok(vec![0x01]));
}

#[test]
fn compile_solidity_fails_where_the_compiler_did() {
    let eth = EthClient::new(EthClientOptions::default());
    assert_eq!(eth.compile_solidity::<()>(Err(())), Err(Error::CompilationFailed));
    assert_eq!(eth.compile_solidity::<()>(Ok(b"Binary\n00ff\n".to_vec())), Ok(vec![0x00, 0xff]));
    assert_eq!(eth.compile_solidity::<()>(Ok(b"Unexpected".to_vec())), Err(Error::CompilationFailed));
    assert_eq!(eth.compile_unimplemented(), Err(Error::NotImplemented));
}
