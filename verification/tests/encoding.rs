use eth_rpc::encoding::{decode_seal, seal_work};
use eth_rpc::types::{Error, H256, H64};

#[test]
fn seal_holds_mix_hash_then_nonce() {
    let nonce = H64([1, 2, 3, 4, 5, 6, 7, 8]);
    let mix_hash = H256([0x42; 32]);
    let seal = seal_work(&nonce, &mix_hash);
    let mut mix = vec![0xa0u8];
    mix.extend_from_slice(&[0x42; 32]);
    assert_eq!(seal, vec![mix, vec![0x88, 1, 2, 3, 4, 5, 6, 7, 8]]);
}

#[test]
fn seal_of_zero_hashes_keeps_every_byte() {
    let seal = seal_work(&H64([0; 8]), &H256([0; 32]));
    assert_eq!(seal.len(), 2);
    assert_eq!(seal[0].len(), 33);
    assert_eq!(seal[0][0], 0xa0);
    assert_eq!(seal[1], vec![0x88, 0, 0, 0, 0, 0, 0, 0, 0]);
}

#[test]
fn decoded_seal_is_the_seal_without_its_framing() {
    let nonce = H64([9, 8, 7, 6, 5, 4, 3, 2]);
    let mix_hash = H256([0x17; 32]);
    let seal = seal_work(&nonce, &mix_hash);
    assert_eq!(decode_seal(&seal), Ok(vec![vec![0x17; 32], vec![9, 8, 7, 6, 5, 4, 3, 2]]));
}

#[test]
fn seal_fields_decode_one_by_one() {
    let seal = vec![vec![0x05], vec![0x80], vec![0x82, 0xff, 0x00]];
    assert_eq!(decode_seal(&seal), Ok(vec![vec![0x05], vec![], vec![0xff, 0x00]]));
    assert_eq!(decode_seal(&vec![]), Ok(vec![]));
}

#[test]
fn undecodable_seal_field_is_an_internal_error() {
    assert_eq!(decode_seal(&vec![vec![0x05], vec![0x83, 0x01]]), Err(Error::Internal));
    assert_eq!(decode_seal(&vec![vec![]]), Err(Error::Internal));
    assert_eq!(decode_seal(&vec![vec![0xc0], vec![0x05]]), Err(Error::Internal));
    assert_eq!(decode_seal(&vec![vec![0x81, 0x05]]), Err(Error::Internal));
}
