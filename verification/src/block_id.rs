//! Block identifiers as big integers and as 32 bytes.

use vstd::prelude::*;
use vstd::arithmetic::power::pow;
use num_bigint::BigInt;
use num_bigint::BigUint;
use crate::animation::start::BlockId;

verus! {

/// `num_bigint::BigUint`. The verifier knows it by the number it holds.
#[verifier::external_type_specification]
#[verifier::external_body]
pub struct ExBigUint(BigUint);

/// `num_bigint::BigInt`. The verifier knows it by the number it holds.
#[verifier::external_type_specification]
#[verifier::external_body]
pub struct ExBigInt(BigInt);

/// The number that a `BigUint` holds.
pub uninterp spec fn biguint_value(n: BigUint) -> nat;

/// The number that a `BigInt` holds.
pub uninterp spec fn bigint_value(n: BigInt) -> int;

/// The number that `bytes` spell, most significant byte first.
pub open spec fn be_value(bytes: Seq<u8>) -> nat
    decreases bytes.len(),
{
    if bytes.len() == 0 {
        0
    } else {
        be_value(bytes.drop_last()) * 256 + bytes.last() as nat
    }
}

/// The shortest spelling of `value` in bytes, most significant byte first.
/// Zero is spelt as one zero byte.
pub open spec fn be_bytes(value: nat) -> Seq<u8>
    decreases value,
{
    if value < 256 {
        seq![value as u8]
    } else {
        be_bytes(value / 256).push((value % 256) as u8)
    }
}

/// The 32 bytes of the identifier `value`: its shortest spelling behind as
/// many zero bytes as fill the width.
pub open spec fn block_bytes(value: nat) -> Seq<u8>
    recommends
        value < pow(256, 32),
{
    Seq::new((32 - be_bytes(value).len()) as nat, |i: int| 0u8) + be_bytes(value)
}

/// One decimal digit.
pub open spec fn digit(d: nat) -> char
    recommends
        d < 10,
{
    if d == 0 {
        '0'
    } else if d == 1 {
        '1'
    } else if d == 2 {
        '2'
    } else if d == 3 {
        '3'
    } else if d == 4 {
        '4'
    } else if d == 5 {
        '5'
    } else if d == 6 {
        '6'
    } else if d == 7 {
        '7'
    } else if d == 8 {
        '8'
    } else {
        '9'
    }
}

/// `value` in decimal digits, without a sign or leading zeros.
pub open spec fn decimal(value: nat) -> Seq<char>
    decreases value,
{
    if value < 10 {
        seq![digit(value)]
    } else {
        decimal(value / 10).push(digit(value % 10))
    }
}

/// A number has a spelling of at most `width` bytes exactly if it is less
/// than 256 to the power of `width`.
pub proof fn lemma_be_bytes_len(value: nat, width: nat)
    requires
        width >= 1,
    ensures
        be_bytes(value).len() >= 1,
        be_bytes(value).len() <= width <==> value < pow(256, width),
    decreases width, value,
{
    reveal(pow);
    assert(pow(256, 0) == 1);
    assert(pow(256, width) == 256 * pow(256, (width - 1) as nat));
    if width == 1 {
        if value >= 256 {
            lemma_be_bytes_len(value / 256, 1);
        }
    } else {
        lemma_be_bytes_len(value / 256, (width - 1) as nat);
        if value < 256 {
            vstd::arithmetic::power::lemma_pow_positive(256, (width - 1) as nat);
        }
    }
}

/// The shortest spelling of a number spells that number.
pub proof fn lemma_be_value_of_be_bytes(value: nat)
    ensures
        be_value(be_bytes(value)) == value,
    decreases value,
{
    if value < 256 {
        assert(be_bytes(value).drop_last() =~= Seq::<u8>::empty());
        assert(be_value(be_bytes(value).drop_last()) == 0);
    } else {
        lemma_be_value_of_be_bytes(value / 256);
        assert(be_bytes(value).drop_last() =~= be_bytes(value / 256));
    }
}

/// Zero bytes in front do not change the number that bytes spell.
pub proof fn lemma_be_value_leading_zeros(zeros: nat, bytes: Seq<u8>)
    ensures
        be_value(Seq::new(zeros, |i: int| 0u8) + bytes) == be_value(bytes),
    decreases bytes.len(),
{
    let padded = Seq::new(zeros, |i: int| 0u8) + bytes;
    if bytes.len() == 0 {
        lemma_be_value_all_zero(padded);
    } else {
        lemma_be_value_leading_zeros(zeros, bytes.drop_last());
        assert(padded.drop_last() =~= Seq::new(zeros, |i: int| 0u8) + bytes.drop_last());
    }
}

proof fn lemma_be_value_all_zero(bytes: Seq<u8>)
    requires
        forall|i: int| 0 <= i < bytes.len() ==> bytes[i] == 0,
    ensures
        be_value(bytes) == 0,
    decreases bytes.len(),
{
    if bytes.len() > 0 {
        lemma_be_value_all_zero(bytes.drop_last());
    }
}

/// The 32 bytes of an identifier spell the identifier.
pub proof fn lemma_block_bytes_value(value: nat)
    requires
        value < pow(256, 32),
    ensures
        block_bytes(value).len() == 32,
        be_value(block_bytes(value)) == value,
{
    lemma_be_bytes_len(value, 32);
    lemma_be_value_leading_zeros((32 - be_bytes(value).len()) as nat, be_bytes(value));
    lemma_be_value_of_be_bytes(value);
}

/// `BigUint::to_bytes_be`: the shortest big-endian spelling of the number,
/// one zero byte for zero.
#[verifier::external_body]
fn biguint_to_bytes_be(n: &BigUint) -> (bytes: Vec<u8>)
    ensures
        bytes@ == be_bytes(biguint_value(*n)),
{
    n.to_bytes_be()
}

/// `BigUint::from_bytes_be`: the number that the bytes spell.
#[verifier::external_body]
fn biguint_from_bytes_be(bytes: &[u8]) -> (n: BigUint)
    ensures
        biguint_value(n) == be_value(bytes@),
{
    BigUint::from_bytes_be(bytes)
}

/// `to_string` of a `BigUint`: the number in decimal digits.
#[verifier::external_body]
fn biguint_to_string(n: &BigUint) -> (text: String)
    ensures
        text@ == decimal(biguint_value(*n)),
{
    n.to_string()
}

/// `BigInt::to_biguint`: the same number, unless it is negative.
#[verifier::external_body]
fn bigint_to_biguint(n: &BigInt) -> (unsigned: Option<BigUint>)
    ensures
        unsigned is Some <==> bigint_value(*n) >= 0,
        unsigned matches Some(u) ==> biguint_value(u) == bigint_value(*n),
{
    n.to_biguint()
}

/// `bytes` behind as many zero bytes as make 32 bytes in all, if there are
/// no more than 32 of them.
pub fn block_id_from_bytes(bytes: &Vec<u8>) -> (block_id: Option<BlockId>)
    ensures
        block_id is Some <==> bytes@.len() <= 32,
        block_id matches Some(id) ==> id@ == Seq::new((32 - bytes@.len()) as nat, |i: int| 0u8)
            + bytes@,
{
    if bytes.len() > 32 {
        return None;
    }
    let mut block_id: [u8; 32] = [0;32];
    let diff: usize = 32 - bytes.len();
    let mut i: usize = 0;
    while i < bytes.len()
        invariant
            i <= bytes.len(),
            diff + bytes.len() == 32,
            forall|k: int| 0 <= k < diff ==> block_id@[k] == 0,
            forall|k: int| 0 <= k < i ==> block_id@[diff + k] == bytes@[k],
        decreases bytes.len() - i,
    {
        block_id[i + diff] = bytes[i];
        i += 1;
    }
    assert(block_id@ =~= Seq::new((32 - bytes@.len()) as nat, |i: int| 0u8) + bytes@);
    Some(block_id)
}

/// The 32 bytes of an identifier that is less than 2 to the power of 256.
pub fn block_id_from_big_uint(id: &BigUint) -> (block_id: BlockId)
    requires
        biguint_value(*id) < pow(256, 32),
    ensures
        block_id@ == block_bytes(biguint_value(*id)),
        be_value(block_id@) == biguint_value(*id),
{
    let bytes: Vec<u8> = biguint_to_bytes_be(id);
    proof {
        lemma_be_bytes_len(biguint_value(*id), 32);
        lemma_block_bytes_value(biguint_value(*id));
    }
    block_id_from_bytes(&bytes).unwrap()
}

/// The 32 bytes of an identifier that is not negative and less than 2 to the
/// power of 256.
pub fn block_id_from_big_int(id: &BigInt) -> (block_id: BlockId)
    requires
        0 <= bigint_value(*id) < pow(256, 32),
    ensures
        block_id@ == block_bytes(bigint_value(*id) as nat),
        be_value(block_id@) == bigint_value(*id),
{
    let unsigned: Option<BigUint> = bigint_to_biguint(id);
    block_id_from_big_uint(&unsigned.unwrap())
}

/// The 32 bytes of an identifier, if it has them: a number that does not
/// fit into 256 bits has none.
pub fn checked_block_id_from_big_uint(id: &BigUint) -> (block_id: Option<BlockId>)
    ensures
        block_id is Some <==> biguint_value(*id) < pow(256, 32),
        block_id matches Some(bytes) ==> bytes@ == block_bytes(biguint_value(*id)),
{
    let bytes: Vec<u8> = biguint_to_bytes_be(id);
    proof {
        lemma_be_bytes_len(biguint_value(*id), 32);
    }
    block_id_from_bytes(&bytes)
}

/// The 32 bytes of an identifier, if it has them: a negative number has
/// none, nor has one that does not fit into 256 bits.
pub fn checked_block_id(id: &BigInt) -> (block_id: Option<BlockId>)
    ensures
        block_id is Some <==> 0 <= bigint_value(*id) < pow(256, 32),
        block_id matches Some(bytes) ==> bytes@ == block_bytes(bigint_value(*id) as nat),
{
    match bigint_to_biguint(id) {
        Some(unsigned) => checked_block_id_from_big_uint(&unsigned),
        None => None,
    }
}

/// An identifier in decimal digits, as it appears in names and links.
pub fn block_id_to_string(id: &BlockId) -> (text: String)
    ensures
        text@ == decimal(be_value(id@)),
{
    let number: BigUint = biguint_from_bytes_be(id);
    biguint_to_string(&number)
}

} // verus!
