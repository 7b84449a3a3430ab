use eth_rpc::selector::parse_selector;
use eth_rpc::types::BlockNumber;

#[test]
fn words_name_the_special_blocks() {
    assert_eq!(parse_selector(b"latest"), Some(BlockNumber::Latest));
    assert_eq!(parse_selector(b"earliest"), Some(BlockNumber::Earliest));
    assert_eq!(parse_selector(b"pending"), Some(BlockNumber::Pending));
    assert_eq!(parse_selector(b"Latest"), None);
    assert_eq!(parse_selector(b"latest "), None);
    assert_eq!(parse_selector(b"pendin"), None);
}

#[test]
fn heights_are_hexadecimal_after_0x() {
    assert_eq!(parse_selector(b"0x0"), Some(BlockNumber::Num(0)));
    assert_eq!(parse_selector(b"0xa"), Some(BlockNumber::Num(10)));
    assert_eq!(parse_selector(b"0x1F4"), Some(BlockNumber::Num(500)));
    assert_eq!(parse_selector(b"0x00ff"), Some(BlockNumber::Num(255)));
    assert_eq!(parse_selector(b"0xffffffffffffffff"), Some(BlockNumber::Num(u64::MAX)));
    assert_eq!(parse_selector(b"0x+10"), Some(BlockNumber::Num(16)));
}

#[test]
fn heights_are_decimal_otherwise() {
    assert_eq!(parse_selector(b"0"), Some(BlockNumber::Num(0)));
    assert_eq!(parse_selector(b"1234"), Some(BlockNumber::Num(1234)));
    assert_eq!(parse_selector(b"+7"), Some(BlockNumber::Num(7)));
    assert_eq!(parse_selector(b"18446744073709551615"), Some(BlockNumber::Num(u64::MAX)));
    assert_eq!(parse_selector(b"007"), Some(BlockNumber::Num(7)));
}

#[test]
fn anything_else_is_no_selector() {
    assert_eq!(parse_selector(b""), None);
    assert_eq!(parse_selector(b"+"), None);
    assert_eq!(parse_selector(b"0x"), None);
    assert_eq!(parse_selector(b"0x+"), None);
    assert_eq!(parse_selector(b"0xg"), None);
    assert_eq!(parse_selector(b"0X10"), None);
    assert_eq!(parse_selector(b"12a"), None);
    assert_eq!(parse_selector(b"-1"), None);
    assert_eq!(parse_selector(b"1 2"), None);
    assert_eq!(parse_selector(b"++1"), None);
}

#[test]
fn heights_beyond_64_bits_are_no_selector() {
    assert_eq!(parse_selector(b"18446744073709551616"), None);
    assert_eq!(parse_selector(b"99999999999999999999999"), None);
    assert_eq!(parse_selector(b"0x10000000000000000"), None);
    assert_eq!(parse_selector(b"0xfffffffffffffffff"), None);
}
