//! The bundle of transactions that solves the puzzle in one block.

use vstd::prelude::*;

use crate::bigendian::zeros;
use crate::evm::abi_encode_address;
use crate::hexcodec::{hex_decode, hex_string_bytes, is_hex_string};

verus! {

/// What a bundle is built from.
pub struct BundleData<'a> {
    /// The block that the bundle is for.
    pub block_number: u64,
    /// The address that the lead contract will be deployed at.
    pub lead_deploy_address: [u8; 20],
    /// The deploy code of the lead contract, in hex.
    pub lead_deploy_code: &'a str,
    /// The address that the gold contract will be deployed at.
    pub gold_deploy_address: [u8; 20],
    /// The deploy code of the gold contract, in hex.
    pub gold_deploy_code: &'a str,
    /// The address of the clone that `solve` creates in this block.
    pub solve_clone_address: [u8; 20],
    /// The address of the clone that `coagula` creates in this block.
    pub coagula_clone_address: [u8; 20],
    /// The address of the puzzle contract.
    pub challenge_address: [u8; 20],
}

/// One transaction of the bundle, before it is filled in and signed.
pub struct TxRequest {
    /// The call data, or the deploy code of a contract creation.
    pub data: Vec<u8>,
    /// The recipient; `None` creates a contract.
    pub to: Option<[u8; 20]>,
    /// A gas limit set in advance, if any.
    pub gas: Option<u64>,
    /// Whether the bundle may include the transaction even if it reverts.
    pub can_revert: bool,
}

/// A transaction as a mathematical value.
pub struct TxModel {
    pub data: Seq<u8>,
    pub to: Option<[u8; 20]>,
    pub gas: Option<u64>,
    pub can_revert: bool,
}

impl View for TxRequest {
    type V = TxModel;

    open spec fn view(&self) -> TxModel {
        TxModel { data: self.data@, to: self.to, gas: self.gas, can_revert: self.can_revert }
    }
}

/// The transactions of a bundle and the blocks it may be included in.
pub struct BundlePlan {
    /// The transactions, in the order in which they must run.
    pub txs: Vec<TxRequest>,
    /// The first block that may include the bundle.
    pub block: u64,
    /// The last block that may include the bundle.
    pub max_block: Option<u64>,
}

/// The selector of `transmute(address)`.
pub open spec fn transmute_selector() -> Seq<u8> {
    seq![0x0du8, 0xdeu8, 0xaau8, 0x5cu8]
}

/// The selector of `solve()`.
pub open spec fn solve_selector() -> Seq<u8> {
    seq![0x89u8, 0x0du8, 0x69u8, 0x08u8]
}

/// The selector of the call that each clone takes.
pub open spec fn clone_call_selector() -> Seq<u8> {
    seq![0x84u8, 0x12u8, 0x71u8, 0xedu8]
}

/// The selector of `coagula()`.
pub open spec fn coagula_selector() -> Seq<u8> {
    seq![0x39u8, 0xa6u8, 0x90u8, 0x9fu8]
}

/// The gas limit of the `solve` and `coagula` calls.
pub open spec fn fixed_call_gas() -> u64 {
    200000
}

/// A contract creation with the given deploy code.
pub open spec fn deploy_tx(code: Seq<u8>) -> TxModel {
    TxModel { data: code, to: None, gas: None, can_revert: false }
}

/// A call of `to` with the given call data and gas limit.
pub open spec fn call_tx(to: [u8; 20], data: Seq<u8>, gas: Option<u64>) -> TxModel {
    TxModel { data, to: Some(to), gas, can_revert: false }
}

/// The transactions of the bundle, in order: deploy the lead contract,
/// deploy the gold contract, transmute with the lead contract, solve,
/// transmute with the gold contract, call the solve clone, coagula, call the
/// coagula clone.
pub open spec fn bundle_txs_model(
    lead_deploy_address: [u8; 20],
    lead_deploy_code: Seq<char>,
    gold_deploy_address: [u8; 20],
    gold_deploy_code: Seq<char>,
    solve_clone_address: [u8; 20],
    coagula_clone_address: [u8; 20],
    challenge_address: [u8; 20],
) -> Seq<TxModel> {
    seq![
        deploy_tx(hex_string_bytes(lead_deploy_code)),
        deploy_tx(hex_string_bytes(gold_deploy_code)),
        call_tx(challenge_address, transmute_selector() + zeros(12) + lead_deploy_address@, None),
        call_tx(challenge_address, solve_selector(), Some(fixed_call_gas())),
        call_tx(challenge_address, transmute_selector() + zeros(12) + gold_deploy_address@, None),
        call_tx(solve_clone_address, clone_call_selector(), None),
        call_tx(challenge_address, coagula_selector(), Some(fixed_call_gas())),
        call_tx(coagula_clone_address, clone_call_selector(), None),
    ]
}

/// The transactions of the bundle built from `d`.
pub open spec fn bundle_txs_spec(d: BundleData) -> Seq<TxModel> {
    bundle_txs_model(
        d.lead_deploy_address,
        d.lead_deploy_code@,
        d.gold_deploy_address,
        d.gold_deploy_code@,
        d.solve_clone_address,
        d.coagula_clone_address,
        d.challenge_address,
    )
}

/// Only the calls of `solve()` and `coagula()` carry a preset gas limit,
/// 200000; every other transaction of the bundle, both contract creations
/// included, leaves its gas limit to the provider's estimate.
pub proof fn lemma_bundle_gas(
    lead_deploy_address: [u8; 20],
    lead_deploy_code: Seq<char>,
    gold_deploy_address: [u8; 20],
    gold_deploy_code: Seq<char>,
    solve_clone_address: [u8; 20],
    coagula_clone_address: [u8; 20],
    challenge_address: [u8; 20],
)
    ensures
        ({
            let txs = bundle_txs_model(
                lead_deploy_address,
                lead_deploy_code,
                gold_deploy_address,
                gold_deploy_code,
                solve_clone_address,
                coagula_clone_address,
                challenge_address,
            );
            &&& txs.len() == 8
            &&& forall|i: int|
                0 <= i < txs.len() ==> ((#[trigger] txs[i]).gas is Some <==> txs[i].to
                    is Some && (txs[i].data == seq![0x89u8, 0x0du8, 0x69u8, 0x08u8]
                    || txs[i].data == seq![0x39u8, 0xa6u8, 0x90u8, 0x9fu8]))
            &&& forall|i: int|
                0 <= i < txs.len() ==> ((#[trigger] txs[i]).gas is Some ==> txs[i].gas
                    == Some(200000u64))
            &&& forall|i: int|
                0 <= i < txs.len() ==> ((#[trigger] txs[i]).to is None ==> txs[i].gas is None)
        }),
{
    let txs = bundle_txs_model(
        lead_deploy_address,
        lead_deploy_code,
        gold_deploy_address,
        gold_deploy_code,
        solve_clone_address,
        coagula_clone_address,
        challenge_address,
    );
    let solve = seq![0x89u8, 0x0du8, 0x69u8, 0x08u8];
    let coagula = seq![0x39u8, 0xa6u8, 0x90u8, 0x9fu8];
    assert(solve_selector() =~= solve);
    assert(coagula_selector() =~= coagula);
    assert(clone_call_selector() != solve) by {
        assert(clone_call_selector()[0] != solve[0]);
    }
    assert(clone_call_selector() != coagula) by {
        assert(clone_call_selector()[0] != coagula[0]);
    }
    assert(txs[2].data.len() == 36);
    assert(txs[4].data.len() == 36);
    assert forall|i: int| 0 <= i < txs.len() implies ((#[trigger] txs[i]).gas is Some
        <==> txs[i].to is Some && (txs[i].data == solve || txs[i].data == coagula)) by {
        if i == 2 || i == 4 {
            assert(txs[i].data.len() != solve.len());
        }
    }
}

/// The bundle, transaction by transaction: the two contract creations come
/// first, lead then gold, carrying the decoded deploy codes; then
/// `transmute(lead)`, `solve()`, `transmute(gold)`, the call of the solve
/// clone, `coagula()` and the call of the coagula clone. The puzzle calls go
/// to the puzzle contract, each `transmute` carries its address in order in
/// the last 20 bytes of a 32-byte word that starts with 12 zero bytes, and
/// no transaction may revert.
pub proof fn lemma_bundle_transactions(
    lead_deploy_address: [u8; 20],
    lead_deploy_code: Seq<char>,
    gold_deploy_address: [u8; 20],
    gold_deploy_code: Seq<char>,
    solve_clone_address: [u8; 20],
    coagula_clone_address: [u8; 20],
    challenge_address: [u8; 20],
)
    ensures
        ({
            let txs = bundle_txs_model(
                lead_deploy_address,
                lead_deploy_code,
                gold_deploy_address,
                gold_deploy_code,
                solve_clone_address,
                coagula_clone_address,
                challenge_address,
            );
            &&& txs.len() == 8
            &&& forall|i: int| 0 <= i < txs.len() ==> !(#[trigger] txs[i]).can_revert
            &&& forall|i: int| 0 <= i < txs.len() ==> ((#[trigger] txs[i]).to is None <==> i < 2)
            &&& txs[0].data == hex_string_bytes(lead_deploy_code)
            &&& txs[1].data == hex_string_bytes(gold_deploy_code)
            &&& txs[2].to == Some(challenge_address)
            &&& txs[3].to == Some(challenge_address)
            &&& txs[4].to == Some(challenge_address)
            &&& txs[6].to == Some(challenge_address)
            &&& txs[5].to == Some(solve_clone_address)
            &&& txs[7].to == Some(coagula_clone_address)
            &&& txs[2].data.len() == 36 && txs[4].data.len() == 36
            &&& txs[2].data.subrange(0, 4) == seq![0x0du8, 0xdeu8, 0xaau8, 0x5cu8]
            &&& txs[4].data.subrange(0, 4) == seq![0x0du8, 0xdeu8, 0xaau8, 0x5cu8]
            &&& forall|j: int| 4 <= j < 16 ==> #[trigger] txs[2].data[j] == 0u8 && txs[4].data[j]
                == 0u8
            &&& forall|j: int| 0 <= j < 20 ==> txs[2].data[16 + j] == #[trigger] lead_deploy_address[j]
            &&& forall|j: int| 0 <= j < 20 ==> txs[4].data[16 + j] == #[trigger] gold_deploy_address[j]
            &&& txs[3].data == seq![0x89u8, 0x0du8, 0x69u8, 0x08u8]
            &&& txs[6].data == seq![0x39u8, 0xa6u8, 0x90u8, 0x9fu8]
            &&& txs[5].data == seq![0x84u8, 0x12u8, 0x71u8, 0xedu8]
            &&& txs[7].data == seq![0x84u8, 0x12u8, 0x71u8, 0xedu8]
        }),
{
    let txs = bundle_txs_model(
        lead_deploy_address,
        lead_deploy_code,
        gold_deploy_address,
        gold_deploy_code,
        solve_clone_address,
        coagula_clone_address,
        challenge_address,
    );
    assert(txs[2].data.subrange(0, 4) =~= seq![0x0du8, 0xdeu8, 0xaau8, 0x5cu8]);
    assert(txs[4].data.subrange(0, 4) =~= seq![0x0du8, 0xdeu8, 0xaau8, 0x5cu8]);
    assert(solve_selector() =~= seq![0x89u8, 0x0du8, 0x69u8, 0x08u8]);
    assert(coagula_selector() =~= seq![0x39u8, 0xa6u8, 0x90u8, 0x9fu8]);
    assert(clone_call_selector() =~= seq![0x84u8, 0x12u8, 0x71u8, 0xedu8]);
    assert forall|j: int| 0 <= j < 20 implies txs[2].data[16 + j] == #[trigger] lead_deploy_address[j] by {
        assert(txs[2].data[16 + j] == lead_deploy_address@[j]);
    }
    assert forall|j: int| 0 <= j < 20 implies txs[4].data[16 + j] == #[trigger] gold_deploy_address[j] by {
        assert(txs[4].data[16 + j] == gold_deploy_address@[j]);
    }
}

/// Four bytes.
fn four_bytes(a: u8, b: u8, c: u8, d: u8) -> (res: Vec<u8>)
    ensures
        res@ == seq![a, b, c, d],
{
    let mut res: Vec<u8> = Vec::new();
    res.push(a);
    res.push(b);
    res.push(c);
    res.push(d);
    assert(res@ =~= seq![a, b, c, d]);
    res
}

/// The call data of `transmute(address)`.
fn transmute_call_data(address: &[u8; 20]) -> (res: Vec<u8>)
    ensures
        res@ == transmute_selector() + zeros(12) + address@,
{
    let mut data = four_bytes(0x0d, 0xde, 0xaa, 0x5c);
    let mut encoded = abi_encode_address(address);
    data.append(&mut encoded);
    assert(data@ =~= transmute_selector() + zeros(12) + address@);
    data
}

/// Decodes deploy code that is known to be valid hex.
fn decode_deploy_code(code: &str) -> (res: Vec<u8>)
    requires
        is_hex_string(code@),
    ensures
        res@ == hex_string_bytes(code@),
{
    match hex_decode(code) {
        Some(bytes) => bytes,
        None => {
            proof {
                assert(false);
            }
            Vec::new()
        },
    }
}

/// Plans the bundle for `bundle_data.block_number`: eight transactions that
/// must all succeed, for inclusion in that block only.
pub fn bundle_txs(bundle_data: &BundleData) -> (res: BundlePlan)
    requires
        is_hex_string(bundle_data.lead_deploy_code@),
        is_hex_string(bundle_data.gold_deploy_code@),
    ensures
        res.txs@.map_values(|t: TxRequest| t@) == bundle_txs_spec(*bundle_data),
        res.block == bundle_data.block_number,
        res.max_block == Some(bundle_data.block_number),
{
    let mut bundle_body: Vec<TxRequest> = Vec::new();
    // 1. deploy the lead contract
    bundle_body.push(
        TxRequest {
            data: decode_deploy_code(bundle_data.lead_deploy_code),
            to: None,
            gas: None,
            can_revert: false,
        },
    );
    // 2. deploy the gold contract
    bundle_body.push(
        TxRequest {
            data: decode_deploy_code(bundle_data.gold_deploy_code),
            to: None,
            gas: None,
            can_revert: false,
        },
    );
    // 3. transmute with the lead contract
    bundle_body.push(
        TxRequest {
            data: transmute_call_data(&bundle_data.lead_deploy_address),
            to: Some(bundle_data.challenge_address),
            gas: None,
            can_revert: false,
        },
    );
    // 4. solve
    bundle_body.push(
        TxRequest {
            data: four_bytes(0x89, 0x0d, 0x69, 0x08),
            to: Some(bundle_data.challenge_address),
            gas: Some(200000),
            can_revert: false,
        },
    );
    // 5. transmute with the gold contract
    bundle_body.push(
        TxRequest {
            data: transmute_call_data(&bundle_data.gold_deploy_address),
            to: Some(bundle_data.challenge_address),
            gas: None,
            can_revert: false,
        },
    );
    // 6. call the clone that solve created
    bundle_body.push(
        TxRequest {
            data: four_bytes(0x84, 0x12, 0x71, 0xed),
            to: Some(bundle_data.solve_clone_address),
            gas: None,
            can_revert: false,
        },
    );
    // 7. coagula
    bundle_body.push(
        TxRequest {
            data: four_bytes(0x39, 0xa6, 0x90, 0x9f),
            to: Some(bundle_data.challenge_address),
            gas: Some(200000),
            can_revert: false,
        },
    );
    // 8. call the clone that coagula created
    bundle_body.push(
        TxRequest {
            data: four_bytes(0x84, 0x12, 0x71, 0xed),
            to: Some(bundle_data.coagula_clone_address),
            gas: None,
            can_revert: false,
        },
    );
    assert(bundle_body@.map_values(|t: TxRequest| t@) =~= bundle_txs_spec(*bundle_data));
    BundlePlan {
        txs: bundle_body,
        block: bundle_data.block_number,
        max_block: Some(bundle_data.block_number),
    }
}

} // verus!
