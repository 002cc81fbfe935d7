//! Submitting the solution: the addresses and sigils that stay fixed, and
//! the bundle for each new block.

use vstd::prelude::*;

use crate::bigendian::{
    be_value, byte_power, lemma_be_value_bound, lemma_be_value_concat,
    lemma_be_value_zero_padding, lemma_minimal_be_len_upper, minimal_be, zeros,
};
use crate::bundle::{bundle_txs, bundle_txs_model, BundleData, BundlePlan, TxRequest};
use crate::clone::{clone_address, get_clone_address, packed_block_sigil};
use crate::evm::{
    abi_decode_uint256, abi_encode_address, contract_address, create_address, left_pad_u256,
};
use crate::hexcodec::is_hex_string;
use crate::keccak::{keccak256, keccak256_digest};
use vstd::string::StringSliceAdditionalSpecFns;

verus! {

/// The arguments of the `submit-bundle` command.
pub struct SubmitBundleArgs {
    /// The deploy code of the lead contract, in hex.
    pub lead_deploy_code: String,
    /// The deploy code of the gold contract, in hex.
    pub gold_deploy_code: String,
}

/// The bytes of the signature `generate(address)`.
pub open spec fn generate_signature() -> Seq<u8> {
    "generate(address)".spec_bytes()
}

/// The call data of `generate(seed)` on the puzzle contract: the first four
/// bytes of the Keccak-256 hash of the signature, then the ABI-encoded seed.
pub fn generate_call_data(seed: &[u8; 20]) -> (res: Vec<u8>)
    ensures
        res@ == keccak256_digest(generate_signature()).subrange(0, 4) + zeros(12) + seed@,
{
    let signature = "generate(address)".as_bytes();
    let hash = keccak256(signature);
    let mut data: Vec<u8> = Vec::new();
    data.push(hash[0]);
    data.push(hash[1]);
    data.push(hash[2]);
    data.push(hash[3]);
    let mut encoded = abi_encode_address(seed);
    data.append(&mut encoded);
    assert(data@ =~= keccak256_digest(generate_signature()).subrange(0, 4) + zeros(12) + seed@);
    data
}

/// Reads the sigils from the return data of `generate`: the first 32 bytes,
/// or `None` when there are fewer.
pub fn decode_sigils(return_data: &[u8]) -> (res: Option<[u8; 32]>)
    ensures
        res is Some <==> return_data@.len() >= 32,
        res matches Some(sigils) ==> sigils@ == return_data@.subrange(0, 32),
{
    abi_decode_uint256(return_data)
}

/// The sigil of `coagula`: the high 16 bytes of the sigils, as a 256-bit
/// number.
pub open spec fn coagula_sigil_of(sigils: Seq<u8>) -> Seq<u8> {
    zeros(16) + sigils.subrange(0, 16)
}

/// The sigil of `solve`: the low 16 bytes of the sigils, as a 256-bit
/// number.
pub open spec fn solve_sigil_of(sigils: Seq<u8>) -> Seq<u8> {
    zeros(16) + sigils.subrange(16, 32)
}

/// Splits the 256-bit sigils that `generate` returns into the sigil of
/// `coagula` (the high half) and the sigil of `solve` (the low half).
pub fn split_sigils(sigils: &[u8; 32]) -> (res: ([u8; 32], [u8; 32]))
    ensures
        res.0@ == coagula_sigil_of(sigils@),
        res.1@ == solve_sigil_of(sigils@),
{
    let mut high: Vec<u8> = Vec::new();
    let mut low: Vec<u8> = Vec::new();
    let mut i: usize = 0;
    while i < 16
        invariant
            i <= 16,
            high@ == sigils@.subrange(0, i as int),
            low@ == sigils@.subrange(16, 16 + i as int),
        decreases 16 - i,
    {
        high.push(sigils[i]);
        low.push(sigils[16 + i]);
        i = i + 1;
        assert(high@ =~= sigils@.subrange(0, i as int));
        assert(low@ =~= sigils@.subrange(16, 16 + i as int));
    }
    let coagula = left_pad_u256(high.as_slice());
    let solve = left_pad_u256(low.as_slice());
    (coagula, solve)
}

/// The two sigils together make up the sigils: the value of the coagula
/// sigil times `2^128` plus the value of the solve sigil is the value of
/// the sigils, and each is below `2^128`.
pub proof fn lemma_sigils_split(sigils: Seq<u8>)
    requires
        sigils.len() == 32,
    ensures
        be_value(coagula_sigil_of(sigils)) * byte_power(16) + be_value(solve_sigil_of(sigils))
            == be_value(sigils),
        be_value(coagula_sigil_of(sigils)) < byte_power(16),
        be_value(solve_sigil_of(sigils)) < byte_power(16),
{
    let high = sigils.subrange(0, 16);
    let low = sigils.subrange(16, 32);
    lemma_be_value_zero_padding(16, high);
    lemma_be_value_zero_padding(16, low);
    lemma_be_value_concat(high, low);
    assert(high + low =~= sigils);
    lemma_be_value_bound(high);
    lemma_be_value_bound(low);
}

/// A block number and a sigil below `2^128` pack into at most 24 bytes.
pub proof fn lemma_packed_fits(block_number: u64, sigil: Seq<u8>)
    requires
        be_value(sigil) < byte_power(16),
    ensures
        packed_block_sigil(block_number, sigil).len() <= 24,
{
    lemma_minimal_be_len_upper(be_value(sigil), 16);
    reveal_with_fuel(byte_power, 9);
    assert(byte_power(8) == 0x1_0000_0000_0000_0000);
    lemma_minimal_be_len_upper(block_number as nat, 8);
}

/// What stays fixed while the solution is submitted block after block.
pub struct Submission {
    /// The address of the solver's account.
    pub solver_address: [u8; 20],
    /// The solver's next nonce.
    pub nonce: u64,
    /// Where the lead contract will be deployed: the solver's next contract.
    pub lead_address: [u8; 20],
    /// Where the gold contract will be deployed: the contract after that.
    pub gold_address: [u8; 20],
    /// The sigil of `coagula`.
    pub coagula_sigil: [u8; 32],
    /// The sigil of `solve`.
    pub solve_sigil: [u8; 32],
    /// The address of the puzzle contract.
    pub challenge_address: [u8; 20],
    /// The deploy code of the lead contract, in hex.
    pub lead_deploy_code: String,
    /// The deploy code of the gold contract, in hex.
    pub gold_deploy_code: String,
}

/// What is done for one new block.
pub struct BlockStep {
    /// The block that the bundle is for: the one after the new block.
    pub target_block: u64,
    /// The clone that `solve` creates in the target block.
    pub solve_clone_address: [u8; 20],
    /// The clone that `coagula` creates in the target block.
    pub coagula_clone_address: [u8; 20],
    /// The bundle to send.
    pub plan: BundlePlan,
}

impl Submission {
    /// Whether the sigils are halves of the sigils that `generate` returns
    /// and the deploy codes are valid hex.
    pub open spec fn well_formed(&self) -> bool {
        &&& be_value(self.coagula_sigil@) < byte_power(16)
        &&& be_value(self.solve_sigil@) < byte_power(16)
        &&& is_hex_string(self.lead_deploy_code@)
        &&& is_hex_string(self.gold_deploy_code@)
    }

    /// Fixes what the submission needs: the addresses that the solver's next
    /// two contract creations get, from its address and next nonce, and the
    /// two sigils, from the sigils that `generate` returned for the solver.
    pub fn prepare(
        solver_address: [u8; 20],
        nonce: u64,
        sigils: [u8; 32],
        challenge_address: [u8; 20],
        args: SubmitBundleArgs,
    ) -> (res: Submission)
        requires
            nonce < u64::MAX,
        ensures
            res.solver_address == solver_address,
            res.nonce == nonce,
            res.lead_address@ == create_address(solver_address@, nonce as nat),
            res.gold_address@ == create_address(solver_address@, (nonce + 1) as nat),
            res.coagula_sigil@ == coagula_sigil_of(sigils@),
            res.solve_sigil@ == solve_sigil_of(sigils@),
            res.challenge_address == challenge_address,
            res.lead_deploy_code@ == args.lead_deploy_code@,
            res.gold_deploy_code@ == args.gold_deploy_code@,
            is_hex_string(args.lead_deploy_code@) && is_hex_string(args.gold_deploy_code@)
                ==> res.well_formed(),
    {
        let lead_address = contract_address(&solver_address, nonce);
        let gold_address = contract_address(&solver_address, nonce + 1);
        let (coagula_sigil, solve_sigil) = split_sigils(&sigils);
        proof {
            lemma_sigils_split(sigils@);
        }
        Submission {
            solver_address,
            nonce,
            lead_address,
            gold_address,
            coagula_sigil,
            solve_sigil,
            challenge_address,
            lead_deploy_code: args.lead_deploy_code,
            gold_deploy_code: args.gold_deploy_code,
        }
    }

    /// What to do when block `block_number` arrives: compute the clone
    /// addresses for the next block and plan the bundle for it.
    pub fn bundle_for_block(&self, block_number: u64) -> (res: BlockStep)
        requires
            self.well_formed(),
            block_number < u64::MAX,
        ensures
            res.target_block == block_number + 1,
            res.solve_clone_address@ == clone_address(
                res.target_block,
                self.solve_sigil@,
                self.challenge_address@,
            ),
            res.coagula_clone_address@ == clone_address(
                res.target_block,
                self.coagula_sigil@,
                self.challenge_address@,
            ),
            res.plan.txs@.map_values(|t: TxRequest| t@) == bundle_txs_model(
                self.lead_address,
                self.lead_deploy_code@,
                self.gold_address,
                self.gold_deploy_code@,
                res.solve_clone_address,
                res.coagula_clone_address,
                self.challenge_address,
            ),
            res.plan.block == res.target_block,
            res.plan.max_block == Some(res.target_block),
    {
        let target_block = block_number + 1;
        proof {
            lemma_packed_fits(target_block, self.solve_sigil@);
            lemma_packed_fits(target_block, self.coagula_sigil@);
        }
        let solve_clone_address = get_clone_address(
            target_block,
            self.solve_sigil,
            self.challenge_address,
        );
        let coagula_clone_address = get_clone_address(
            target_block,
            self.coagula_sigil,
            self.challenge_address,
        );
        let plan = bundle_txs(
            &BundleData {
                block_number: target_block,
                lead_deploy_address: self.lead_address,
                lead_deploy_code: self.lead_deploy_code.as_str(),
                gold_deploy_address: self.gold_address,
                gold_deploy_code: self.gold_deploy_code.as_str(),
                solve_clone_address,
                coagula_clone_address,
                challenge_address: self.challenge_address,
            },
        );
        BlockStep { target_block, solve_clone_address, coagula_clone_address, plan }
    }
}

} // verus!
