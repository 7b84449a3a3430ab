//! RLP as far as the handlers need it: the fields of a block seal are byte
//! strings in their RLP encoding.

use crate::types::{Error, H256, H64};
use vstd::prelude::*;

verus! {

/// The RLP encoding of a byte string of at most 55 bytes: a single byte below
/// 0x80 stands for itself, any other string follows a byte that holds 0x80
/// plus its length.
pub open spec fn rlp_string(data: Seq<u8>) -> Seq<u8>
    recommends
        data.len() <= 55,
{
    if data.len() == 1 && data[0] < 0x80 {
        data
    } else {
        seq![(0x80 + data.len()) as u8] + data
    }
}

/// The byte string that a piece of RLP encodes, or nothing where the bytes
/// are not the encoding of one.
pub uninterp spec fn rlp_decoded_string(raw: Seq<u8>) -> Option<Seq<u8>>;

/// The items of the list that a piece of RLP encodes, each a byte string, or
/// nothing where an item is no byte string.
pub uninterp spec fn rlp_decoded_list(raw: Seq<u8>) -> Option<Seq<Seq<u8>>>;

/// The error of the `rlp` crate's decoder.
#[verifier::external_type_specification]
#[verifier::external_body]
pub struct ExDecoderError(rlp::DecoderError);

/// `rlp::encode` on a byte string: for a string of at most 55 bytes the
/// result is the short form of the encoding.
#[verifier::external_body]
fn encode_string(data: &[u8]) -> (out: Vec<u8>)
    requires
        data@.len() <= 55,
    ensures
        out@ == rlp_string(data@),
{
    rlp::encode(&data).to_vec()
}

/// `rlp::decode` to a byte string: the decoded string, or the decoder's
/// error where the bytes do not encode one.
#[verifier::external_body]
fn decode_string(raw: &[u8]) -> (r: Result<Vec<u8>, rlp::DecoderError>)
    ensures
        match r {
            Ok(data) => rlp_decoded_string(raw@) == Some(data@),
            Err(_) => rlp_decoded_string(raw@).is_none(),
        },
{
    rlp::decode::<Vec<u8>>(raw)
}

/// `rlp::Rlp::as_list` to byte strings: the items of the list, each decoded
/// as a byte string, or the decoder's error where an item is no byte
/// string.
#[verifier::external_body]
pub(crate) fn decode_list(raw: &[u8]) -> (r: Result<Vec<Vec<u8>>, rlp::DecoderError>)
    ensures
        match r {
            Ok(items) => rlp_decoded_list(raw@) == Some(byte_strings(items@)),
            Err(_) => rlp_decoded_list(raw@).is_none(),
        },
{
    rlp::Rlp::new(raw).as_list::<Vec<u8>>()
}

/// The decoded fields of a seal, or nothing where a field does not decode.
pub open spec fn decoded_seal(seal: Seq<Seq<u8>>) -> Option<Seq<Seq<u8>>>
    decreases seal.len(),
{
    if seal.len() == 0 {
        Some(Seq::empty())
    } else {
        match (decoded_seal(seal.drop_last()), rlp_decoded_string(seal.last())) {
            (Some(fields), Some(field)) => Some(fields.push(field)),
            _ => None,
        }
    }
}

/// The byte strings of a list of byte vectors.
pub open spec fn byte_strings(list: Seq<Vec<u8>>) -> Seq<Seq<u8>> {
    list.map_values(|v: Vec<u8>| v@)
}

/// The seal that a proof-of-work solution makes: the mix hash and then the
/// nonce, each in its RLP encoding.
pub open spec fn work_seal(nonce: H64, mix_hash: H256) -> Seq<Seq<u8>> {
    seq![rlp_string(mix_hash.0@), rlp_string(nonce.0@)]
}

/// Decodes the fields of a seal. An undecodable field makes the whole seal
/// an internal error.
pub fn decode_seal(seal: &Vec<Vec<u8>>) -> (r: Result<Vec<Vec<u8>>, Error>)
    ensures
        match decoded_seal(byte_strings(seal@)) {
            Some(fields) => r matches Ok(out) && byte_strings(out@) == fields,
            None => r matches Err(e) && e == Error::Internal,
        },
{
    let mut out: Vec<Vec<u8>> = Vec::new();
    let mut i: usize = 0;
    assert(byte_strings(seal@).take(0) =~= Seq::empty());
    while i < seal.len()
        invariant
            0 <= i <= seal@.len(),
            decoded_seal(byte_strings(seal@).take(i as int)) == Some(byte_strings(out@)),
        decreases seal@.len() - i,
    {
        let ghost all = byte_strings(seal@);
        proof {
            assert(all.take(i + 1).drop_last() =~= all.take(i as int));
            assert(all.take(i + 1).last() == seal@[i as int]@);
        }
        match decode_string(seal[i].as_slice()) {
            Ok(field) => {
                let ghost before = byte_strings(out@);
                out.push(field);
                assert(byte_strings(out@) =~= before.push(field@));
            },
            Err(_) => {
                proof {
                    lemma_seal_prefix(all, i + 1);
                }
                return Err(Error::Internal);
            },
        }
        i = i + 1;
    }
    assert(byte_strings(seal@).take(i as int) =~= byte_strings(seal@));
    Ok(out)
}

/// A seal with an undecodable prefix is undecodable.
proof fn lemma_seal_prefix(seal: Seq<Seq<u8>>, n: int)
    requires
        0 <= n <= seal.len(),
        decoded_seal(seal.take(n)).is_none(),
    ensures
        decoded_seal(seal).is_none(),
    decreases seal.len(),
{
    if n < seal.len() {
        assert(seal.drop_last().take(n) =~= seal.take(n));
        lemma_seal_prefix(seal.drop_last(), n);
    } else {
        assert(seal.take(n) =~= seal);
    }
}

/// Builds the seal of a proof-of-work solution.
pub fn seal_work(nonce: &H64, mix_hash: &H256) -> (seal: Vec<Vec<u8>>)
    ensures
        byte_strings(seal@) == work_seal(*nonce, *mix_hash),
{
    let mix = encode_string(mix_hash.0.as_slice());
    let non = encode_string(nonce.0.as_slice());
    let mut seal: Vec<Vec<u8>> = Vec::new();
    seal.push(mix);
    seal.push(non);
    assert(byte_strings(seal@) =~= work_seal(*nonce, *mix_hash));
    seal
}

} // verus!
