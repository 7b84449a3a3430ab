//! Raw transactions: the bytes that a client submits are the RLP encoding of
//! a list of nine fields.

use crate::encoding::{byte_strings, decode_list, rlp_decoded_list};
use crate::types::{Action, H160};
use crate::uint::{be_value, lemma_be_value_bound, U256};
use vstd::arithmetic::power2::{lemma2_to64, pow2};
use vstd::prelude::*;

verus! {

/// The number of fields of a signed transaction.
pub const TRANSACTION_FIELDS: usize = 9;

/// A signed transaction as it was submitted, before its signature is
/// checked.
#[derive(Debug, PartialEq, Eq)]
pub struct RawTransaction {
    /// Nonce of the sender.
    pub nonce: U256,
    /// Price of a unit of gas.
    pub gas_price: U256,
    /// Gas provided.
    pub gas: U256,
    /// What the transaction does.
    pub action: Action,
    /// Value transferred.
    pub value: U256,
    /// Call data or contract code.
    pub data: Vec<u8>,
    /// Recovery id of the signature.
    pub v: u64,
    /// First half of the signature.
    pub r: U256,
    /// Second half of the signature.
    pub s: U256,
}

/// Whether a byte string is a number of at most `max_len` bytes in its
/// shortest form: it does not begin with a zero byte.
pub open spec fn is_number(bytes: Seq<u8>, max_len: nat) -> bool {
    bytes.len() <= max_len && (bytes.len() == 0 || bytes[0] != 0)
}

/// Whether the fields are those of a transaction: nine fields, of which the
/// fourth is empty or an address of 20 bytes, the seventh a number of at
/// most 8 bytes, the sixth any byte string, and the others numbers of at
/// most 32 bytes.
pub open spec fn well_formed(fields: Seq<Seq<u8>>) -> bool {
    &&& fields.len() == TRANSACTION_FIELDS
    &&& is_number(fields[0], 32)
    &&& is_number(fields[1], 32)
    &&& is_number(fields[2], 32)
    &&& (fields[3].len() == 0 || fields[3].len() == 20)
    &&& is_number(fields[4], 32)
    &&& is_number(fields[6], 8)
    &&& is_number(fields[7], 32)
    &&& is_number(fields[8], 32)
}

/// Whether the transaction holds the fields: each number as its field gives
/// it, the creation of a contract for an empty fourth field and a call of
/// the address in it otherwise, and the sixth field as data.
pub open spec fn holds_fields(transaction: RawTransaction, fields: Seq<Seq<u8>>) -> bool {
    &&& transaction.nonce@ == be_value(fields[0])
    &&& transaction.gas_price@ == be_value(fields[1])
    &&& transaction.gas@ == be_value(fields[2])
    &&& match transaction.action {
        Action::Create => fields[3].len() == 0,
        Action::Call(address) => address.0@ == fields[3],
    }
    &&& transaction.value@ == be_value(fields[4])
    &&& transaction.data@ == fields[5]
    &&& transaction.v == be_value(fields[6])
    &&& transaction.r@ == be_value(fields[7])
    &&& transaction.s@ == be_value(fields[8])
}

/// The number in a field of at most 32 bytes, if the field is a number in
/// its shortest form.
fn number_of(field: &Vec<u8>) -> (r: Option<U256>)
    ensures
        match r {
            Some(number) => is_number(field@, 32) && number@ == be_value(field@),
            None => !is_number(field@, 32),
        },
{
    if field.len() > 0 && field[0] == 0 {
        return None;
    }
    U256::from_be_bytes(field.as_slice())
}

/// The number in a field of at most 8 bytes, if the field is a number in its
/// shortest form.
fn small_number_of(field: &Vec<u8>) -> (r: Option<u64>)
    ensures
        match r {
            Some(number) => is_number(field@, 8) && number == be_value(field@),
            None => !is_number(field@, 8),
        },
{
    if field.len() > 8 {
        return None;
    }
    match number_of(field) {
        Some(number) => {
            proof {
                lemma_be_value_bound(field@);
                lemma2_to64();
                if field@.len() < 8 {
                    vstd::arithmetic::power2::lemma_pow2_strictly_increases(8 * field@.len(), 64);
                }
            }
            Some(number.lo as u64)
        },
        None => None,
    }
}

/// The action in the recipient field: creation for an empty field, a call
/// for an address of 20 bytes.
fn action_of(field: &Vec<u8>) -> (r: Option<Action>)
    ensures
        match r {
            Some(Action::Create) => field@.len() == 0,
            Some(Action::Call(address)) => address.0@ == field@,
            None => field@.len() != 0 && field@.len() != 20,
        },
{
    if field.len() == 0 {
        Some(Action::Create)
    } else if field.len() == 20 {
        let mut address = [0u8; 20];
        let mut i: usize = 0;
        while i < 20
            invariant
                0 <= i <= 20,
                field@.len() == 20,
                forall|j: int| 0 <= j < i ==> address@[j] == field@[j],
            decreases 20 - i,
        {
            address[i] = field[i];
            i = i + 1;
        }
        assert(address@ =~= field@);
        Some(Action::Call(H160(address)))
    } else {
        None
    }
}

/// The transaction that a list of fields holds, if the fields are those of
/// a transaction.
pub fn transaction_from_fields(fields: Vec<Vec<u8>>) -> (r: Option<RawTransaction>)
    ensures
        match r {
            Some(transaction) => well_formed(byte_strings(fields@)) && holds_fields(
                transaction,
                byte_strings(fields@),
            ),
            None => !well_formed(byte_strings(fields@)),
        },
{
    let mut fields = fields;
    let ghost all = byte_strings(fields@);
    if fields.len() != TRANSACTION_FIELDS {
        return None;
    }
    assert(forall|i: int| 0 <= i < 9 ==> all[i] == fields@[i]@);
    let nonce = number_of(&fields[0]);
    let gas_price = number_of(&fields[1]);
    let gas = number_of(&fields[2]);
    let action = action_of(&fields[3]);
    let value = number_of(&fields[4]);
    let v = small_number_of(&fields[6]);
    let r = number_of(&fields[7]);
    let s = number_of(&fields[8]);
    match (nonce, gas_price, gas, action, value, v, r, s) {
        (Some(nonce), Some(gas_price), Some(gas), Some(action), Some(value), Some(v), Some(r), Some(s)) => {
            let data = fields.swap_remove(5);
            Some(RawTransaction { nonce, gas_price, gas, action, value, data, v, r, s })
        },
        _ => None,
    }
}

/// The transaction that raw bytes encode, if they encode one.
pub fn decode_transaction(raw: &[u8]) -> (r: Option<RawTransaction>)
    ensures
        match rlp_decoded_list(raw@) {
            Some(fields) if well_formed(fields) => r matches Some(transaction) && holds_fields(transaction, fields),
            _ => r.is_none(),
        },
{
    match decode_list(raw) {
        Ok(fields) => transaction_from_fields(fields),
        Err(_) => None,
    }
}

} // verus!
