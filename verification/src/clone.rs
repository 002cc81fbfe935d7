//! The addresses of the clones that the puzzle deploys for a block.

use vstd::prelude::*;

use crate::bigendian::{
    be_value, byte_power, lemma_be_value_concat, lemma_be_value_zero_padding,
    lemma_be_value_injective, lemma_minimal_be_value, minimal_be, zeros,
};
use crate::evm::{encode_packed_uints, left_pad_u256};
use crate::keccak::{keccak256, keccak256_digest};

verus! {

/// The init code of the clones: a minimal proxy that delegates every call.
pub open spec fn clone_init_code() -> Seq<u8> {
    seq![0x60u8, 0x2cu8, 0x3du8, 0x81u8, 0x60u8, 0x09u8, 0x3du8, 0x39u8, 0xf3u8, 0x3du8, 0x3du8, 0x3du8, 0x3du8, 0x36u8, 0x3du8, 0x3du8, 0x37u8, 0x36u8, 0x3du8, 0x73u8, 0x94u8, 0x6cu8, 0x61u8, 0x69u8, 0xcbu8, 0x9fu8, 0xe5u8, 0xa4u8, 0x6au8, 0xbeu8, 0x14u8, 0xe8u8, 0x2au8, 0x40u8, 0x09u8, 0x3cu8, 0xbeu8, 0xc5u8, 0x02u8, 0x48u8, 0x5au8, 0xf4u8, 0x3du8, 0x3du8, 0x93u8, 0x80u8, 0x3eu8, 0x60u8, 0x2au8, 0x57u8, 0xfdu8, 0x5bu8, 0xf3u8]
}

fn clone_init_code_bytes() -> (res: Vec<u8>)
    ensures
        res@ == clone_init_code(),
{
    let code: [u8; 53] = [0x60u8, 0x2cu8, 0x3du8, 0x81u8, 0x60u8, 0x09u8, 0x3du8, 0x39u8, 0xf3u8, 0x3du8, 0x3du8, 0x3du8, 0x3du8, 0x36u8, 0x3du8, 0x3du8, 0x37u8, 0x36u8, 0x3du8, 0x73u8, 0x94u8, 0x6cu8, 0x61u8, 0x69u8, 0xcbu8, 0x9fu8, 0xe5u8, 0xa4u8, 0x6au8, 0xbeu8, 0x14u8, 0xe8u8, 0x2au8, 0x40u8, 0x09u8, 0x3cu8, 0xbeu8, 0xc5u8, 0x02u8, 0x48u8, 0x5au8, 0xf4u8, 0x3du8, 0x3du8, 0x93u8, 0x80u8, 0x3eu8, 0x60u8, 0x2au8, 0x57u8, 0xfdu8, 0x5bu8, 0xf3u8];
    let mut res: Vec<u8> = Vec::new();
    let mut i: usize = 0;
    assert(code@ =~= clone_init_code());
    while i < 53
        invariant
            i <= 53,
            code@ == clone_init_code(),
            res@ == code@.subrange(0, i as int),
        decreases 53 - i,
    {
        res.push(code[i]);
        i = i + 1;
        assert(res@ =~= code@.subrange(0, i as int));
    }
    assert(code@.subrange(0, 53) =~= code@);
    res
}

/// The packed encoding of the block number and the sigil: their shortest
/// big-endian bytes, one after the other.
pub open spec fn packed_block_sigil(block_number: u64, sigil: Seq<u8>) -> Seq<u8> {
    minimal_be(block_number as nat) + minimal_be(be_value(sigil))
}

/// The CREATE2 salt of a clone: the packed block number and sigil, read as
/// one number and written back as 32 big-endian bytes.
pub open spec fn clone_salt(block_number: u64, sigil: Seq<u8>) -> Seq<u8> {
    zeros((32 - packed_block_sigil(block_number, sigil).len()) as nat) + packed_block_sigil(
        block_number,
        sigil,
    )
}

/// The salt holds the block number and the sigil side by side: read as a
/// number it is the block number shifted left by the sigil's bytes, plus the
/// sigil.
pub proof fn lemma_clone_salt_value(block_number: u64, sigil: Seq<u8>)
    requires
        packed_block_sigil(block_number, sigil).len() <= 32,
    ensures
        clone_salt(block_number, sigil).len() == 32,
        be_value(clone_salt(block_number, sigil)) == block_number * byte_power(
            minimal_be(be_value(sigil)).len(),
        ) + be_value(sigil),
{
    let packed = packed_block_sigil(block_number, sigil);
    lemma_be_value_zero_padding((32 - packed.len()) as nat, packed);
    lemma_be_value_concat(minimal_be(block_number as nat), minimal_be(be_value(sigil)));
    lemma_minimal_be_value(block_number as nat);
    lemma_minimal_be_value(be_value(sigil));
}

/// The CREATE2 address of the clone that the puzzle at `challenge_address`
/// deploys for `block_number` and `sigil`:
/// `keccak256(0xff ++ deployer ++ salt ++ keccak256(init_code))[12..]`.
pub open spec fn clone_address(block_number: u64, sigil: Seq<u8>, challenge_address: Seq<u8>) -> Seq<u8> {
    keccak256_digest(
        seq![0xffu8] + challenge_address + clone_salt(block_number, sigil) + keccak256_digest(
            clone_init_code(),
        ),
    ).subrange(12, 32)
}

/// The clone address is the CREATE2 address of the clone's init code: the
/// last 20 bytes of the Keccak-256 digest of an 85-byte preimage made of the
/// byte `0xff`, the 20 bytes of the deployer (the puzzle contract) in their
/// given order, the 32-byte salt whose value is the block number followed by
/// the sigil, and the 32-byte hash of the init code.
pub proof fn lemma_clone_address_is_create2(
    block_number: u64,
    sigil: Seq<u8>,
    challenge_address: Seq<u8>,
    preimage: Seq<u8>,
)
    requires
        packed_block_sigil(block_number, sigil).len() <= 32,
        preimage.len() == 85,
        preimage[0] == 0xffu8,
        forall|j: int| 0 <= j < 20 ==> preimage[1 + j] == #[trigger] challenge_address[j],
        challenge_address.len() == 20,
        be_value(preimage.subrange(21, 53)) == block_number * byte_power(
            minimal_be(be_value(sigil)).len(),
        ) + be_value(sigil),
        preimage.subrange(53, 85) == keccak256_digest(clone_init_code()),
    ensures
        clone_address(block_number, sigil, challenge_address) == keccak256_digest(
            preimage,
        ).subrange(12, 32),
{
    lemma_clone_salt_value(block_number, sigil);
    let salt = clone_salt(block_number, sigil);
    lemma_be_value_injective(preimage.subrange(21, 53), salt);
    let built = seq![0xffu8] + challenge_address + salt + keccak256_digest(clone_init_code());
    assert(built.len() == 85);
    assert forall|i: int| 0 <= i < 85 implies #[trigger] built[i] == preimage[i] by {
        if i == 0 {
        } else if i < 21 {
            assert(built[i] == challenge_address[i - 1]);
            assert(preimage[1 + (i - 1)] == challenge_address[i - 1]);
        } else if i < 53 {
            assert(built[i] == salt[i - 21]);
            assert(preimage.subrange(21, 53)[i - 21] == preimage[i]);
        } else {
            assert(preimage.subrange(53, 85)[i - 53] == preimage[i]);
        }
    }
    assert(built =~= preimage);
}

/// The address of the clone that the puzzle contract at `challenge_address`
/// creates in block `block_number` for `sigil`, a big-endian 256-bit number.
///
/// The packed block number and sigil must fit in 32 bytes, as they are read
/// back as one 256-bit number.
pub fn get_clone_address(block_number: u64, sigil: [u8; 32], challenge_address: [u8; 20]) -> (res: [u8; 20])
    requires
        packed_block_sigil(block_number, sigil@).len() <= 32,
    ensures
        res@ == clone_address(block_number, sigil@, challenge_address@),
{
    let salt_val = match encode_packed_uints(block_number, &sigil) {
        Ok(v) => v,
        Err(_) => {
            proof {
                assert(false);
            }
            Vec::new()
        },
    };
    let salt = left_pad_u256(salt_val.as_slice());
    let init_code = clone_init_code_bytes();
    let init_code_hash = keccak256(init_code.as_slice());
    let mut bytes: Vec<u8> = Vec::new();
    bytes.push(0xffu8);
    let mut i: usize = 0;
    while i < 20
        invariant
            i <= 20,
            bytes@ == seq![0xffu8] + challenge_address@.subrange(0, i as int),
        decreases 20 - i,
    {
        bytes.push(challenge_address[i]);
        i = i + 1;
        assert(bytes@ =~= seq![0xffu8] + challenge_address@.subrange(0, i as int));
    }
    assert(challenge_address@.subrange(0, 20) =~= challenge_address@);
    let mut i: usize = 0;
    assert(bytes@ =~= seq![0xffu8] + challenge_address@ + salt@.subrange(0, 0));
    while i < 32
        invariant
            i <= 32,
            bytes@ == seq![0xffu8] + challenge_address@ + salt@.subrange(0, i as int),
        decreases 32 - i,
    {
        bytes.push(salt[i]);
        i = i + 1;
        assert(bytes@ =~= seq![0xffu8] + challenge_address@ + salt@.subrange(0, i as int));
    }
    assert(salt@.subrange(0, 32) =~= salt@);
    let mut i: usize = 0;
    assert(bytes@ =~= seq![0xffu8] + challenge_address@ + salt@ + init_code_hash@.subrange(0, 0));
    while i < 32
        invariant
            i <= 32,
            bytes@ == seq![0xffu8] + challenge_address@ + salt@ + init_code_hash@.subrange(
                0,
                i as int,
            ),
        decreases 32 - i,
    {
        bytes.push(init_code_hash[i]);
        i = i + 1;
        assert(bytes@ =~= seq![0xffu8] + challenge_address@ + salt@ + init_code_hash@.subrange(
            0,
            i as int,
        ));
    }
    assert(init_code_hash@.subrange(0, 32) =~= init_code_hash@);
    let output = keccak256(bytes.as_slice());
    let mut address = [0u8; 20];
    let mut i: usize = 0;
    while i < 20
        invariant
            i <= 20,
            output@.len() == 32,
            address@.len() == 20,
            forall|j: int| 0 <= j < i ==> address@[j] == output@[12 + j],
        decreases 20 - i,
    {
        address[i] = output[12 + i];
        i = i + 1;
    }
    assert(address@ =~= output@.subrange(12, 32));
    address
}

} // verus!
