//! The parts of `ethers_core` that the solver computes with: ABI encoding,
//! 256-bit big-endian numbers, and contract addresses.

use ethers_core::abi::{self, EncodePackedError, ParamType, Token};
use ethers_core::types::{Address, U256};
use ethers_core::utils::get_contract_address;
use vstd::prelude::*;

use crate::bigendian::{be_value, lemma_minimal_be_unique, minimal_be, zeros};
use crate::keccak::keccak256_digest;

verus! {

#[verifier::external_type_specification]
#[verifier::external_body]
pub struct ExEncodePackedError(EncodePackedError);

/// Packed ABI encoding of two unsigned integers with `abi::encode_packed`:
/// `Token::Uint(U256::from(first))` and `Token::Uint` of the big-endian
/// 256-bit number `second`.
///
/// In packed mode an integer outside an array is written as its shortest
/// big-endian bytes (`32 - (bits + 7) / 8` leading bytes of the 32-byte form
/// are left out), and integer tokens never fail the encoder's check.
#[verifier::external_body]
pub(crate) fn encode_packed_uints(first: u64, second: &[u8; 32]) -> (res: Result<
    Vec<u8>,
    EncodePackedError,
>)
    ensures
        res is Ok,
        res matches Ok(v) ==> v@ == minimal_be(first as nat) + minimal_be(be_value(second@)),
{
    abi::encode_packed(&[Token::Uint(U256::from(first)), Token::Uint(U256::from_big_endian(second))])
}

/// Reads big-endian bytes with `U256::from_big_endian` and writes the number
/// back with `to_big_endian`: the bytes, padded on the left with zeros to 32.
///
/// `from_big_endian` asserts that there are at most 32 bytes.
#[verifier::external_body]
pub(crate) fn left_pad_u256(bytes: &[u8]) -> (res: [u8; 32])
    requires
        bytes@.len() <= 32,
    ensures
        res@ == zeros((32 - bytes@.len()) as nat) + bytes@,
{
    let mut out = [0u8; 32];
    U256::from_big_endian(bytes).to_big_endian(&mut out);
    out
}

/// ABI encoding of one address with `abi::encode(&[Token::Address(..)])`:
/// a 32-byte word, the address right-aligned after 12 zero bytes.
#[verifier::external_body]
pub(crate) fn abi_encode_address(address: &[u8; 20]) -> (res: Vec<u8>)
    ensures
        res@ == zeros(12) + address@,
{
    abi::encode(&[Token::Address(Address::from(*address))])
}

/// The RLP encoding of an unsigned integer: `0x80` for zero, the byte itself
/// below `0x80`, and otherwise `0x80` plus the length followed by the
/// shortest big-endian bytes.
pub open spec fn rlp_uint(n: nat) -> Seq<u8> {
    if n == 0 {
        seq![0x80u8]
    } else if n < 0x80 {
        seq![n as u8]
    } else {
        seq![(0x80 + minimal_be(n).len()) as u8] + minimal_be(n)
    }
}

/// The RLP encoding of the list `[sender, nonce]` whose hash gives the
/// address of a contract that `sender` creates with its `nonce`-th
/// transaction.
pub open spec fn rlp_sender_nonce(sender: Seq<u8>, nonce: nat) -> Seq<u8> {
    let payload = seq![0x94u8] + sender + rlp_uint(nonce);
    seq![(0xc0 + payload.len()) as u8] + payload
}

/// The address of the contract that `sender` creates with nonce `nonce`.
pub open spec fn create_address(sender: Seq<u8>, nonce: nat) -> Seq<u8> {
    keccak256_digest(rlp_sender_nonce(sender, nonce)).subrange(12, 32)
}

/// The address of a contract that `sender` creates with nonce `nonce` is the
/// last 20 bytes of the Keccak-256 digest of the RLP list of the sender and
/// the nonce: a list prefix `0xc0` plus the payload length, the string
/// prefix `0x94` and the 20 sender bytes in their given order, then the
/// nonce as an RLP integer (`0x80` for zero, a single byte below `0x80`, and
/// otherwise `0x80` plus the length followed by its big-endian bytes without
/// a leading zero).
pub proof fn lemma_create_address_is_rlp_hash(sender: Seq<u8>, nonce: u64, preimage: Seq<u8>)
    requires
        sender.len() == 20,
        preimage.len() >= 23,
        preimage[0] == 0xc0 + (preimage.len() - 1),
        preimage[1] == 0x94u8,
        forall|j: int| 0 <= j < 20 ==> preimage[2 + j] == #[trigger] sender[j],
        nonce == 0 ==> preimage.len() == 23 && preimage[22] == 0x80u8,
        0 < nonce < 0x80 ==> preimage.len() == 23 && preimage[22] == nonce,
        nonce >= 0x80 ==> ({
            let digits = preimage.subrange(23, preimage.len() as int);
            &&& preimage[22] == 0x80 + digits.len()
            &&& digits.len() > 0
            &&& digits[0] != 0
            &&& be_value(digits) == nonce
        }),
    ensures
        create_address(sender, nonce as nat) == keccak256_digest(preimage).subrange(12, 32),
{
    let tail = preimage.subrange(22, preimage.len() as int);
    if nonce >= 0x80 {
        let digits = preimage.subrange(23, preimage.len() as int);
        lemma_minimal_be_unique(digits);
        assert(tail =~= seq![preimage[22]] + digits);
    }
    assert(tail =~= rlp_uint(nonce as nat));
    let built = rlp_sender_nonce(sender, nonce as nat);
    assert forall|i: int| 0 <= i < preimage.len() implies #[trigger] built[i] == preimage[i] by {
        if 2 <= i < 22 {
            assert(preimage[2 + (i - 2)] == sender[i - 2]);
        } else if i >= 22 {
            assert(tail[i - 22] == preimage[i]);
        }
    }
    assert(built =~= preimage);
}

/// The address of a contract created by `sender` with nonce `nonce`, from
/// `ethers_core::utils::get_contract_address`.
///
/// That function RLP-encodes the list of the 20-byte address and the nonce,
/// hashes it with Keccak-256 (`tiny_keccak`, as `keccak256` does here) and
/// keeps the last 20 bytes of the digest.
#[verifier::external_body]
pub(crate) fn contract_address(sender: &[u8; 20], nonce: u64) -> (res: [u8; 20])
    ensures
        res@ == create_address(sender@, nonce as nat),
{
    get_contract_address(Address::from(*sender), nonce).0
}

/// Decodes the return data of a function that returns one `uint256` with
/// `abi::decode(&[ParamType::Uint(256)], data)`, and writes the number as
/// 32 big-endian bytes.
///
/// The decoder reads the first 32-byte word and fails when there is none;
/// bytes after it are ignored.
#[verifier::external_body]
pub(crate) fn abi_decode_uint256(data: &[u8]) -> (res: Option<[u8; 32]>)
    ensures
        res is Some <==> data@.len() >= 32,
        res matches Some(word) ==> word@ == data@.subrange(0, 32),
{
    match abi::decode(&[ParamType::Uint(256)], data) {
        Ok(tokens) => match tokens.into_iter().next() {
            Some(Token::Uint(n)) => {
                let mut word = [0u8; 32];
                n.to_big_endian(&mut word);
                Some(word)
            },
            _ => None,
        },
        Err(_) => None,
    }
}

} // verus!
