use curta_18_solver::clone::get_clone_address;
use curta_18_solver::submit::{
    decode_sigils, generate_call_data, split_sigils, Submission, SubmitBundleArgs,
};
use ethers_core::types::Address;
use ethers_core::utils::{get_contract_address, id};

fn sigils() -> [u8; 32] {
    let mut s = [0u8; 32];
    for (i, b) in s.iter_mut().enumerate() {
        *b = i as u8 + 1;
    }
    s
}

fn args() -> SubmitBundleArgs {
    SubmitBundleArgs {
        lead_deploy_code: "60118060093d393df3636cbf043d60e01b5f5260205ff37692e4".to_string(),
        gold_deploy_code: "60128060093d393df363081fa55a60e01b5f5260205ff3012fffa5".to_string(),
    }
}

#[test]
fn generate_call_data_is_selector_and_address() {
    let seed = [0xabu8; 20];
    let data = generate_call_data(&seed);
    assert_eq!(data.len(), 36);
    assert_eq!(&data[..4], &id("generate(address)")[..]);
    assert_eq!(&data[4..16], &[0u8; 12][..]);
    assert_eq!(&data[16..], &seed[..]);
}

#[test]
fn decode_sigils_reads_first_word() {
    assert_eq!(decode_sigils(&[1u8; 31]), None);
    assert_eq!(decode_sigils(&[]), None);
    let mut data = sigils().to_vec();
    data.extend_from_slice(&[9u8; 8]);
    assert_eq!(decode_sigils(&data), Some(sigils()));
}

#[test]
fn split_sigils_halves() {
    let (coagula, solve) = split_sigils(&sigils());
    assert_eq!(&coagula[..16], &[0u8; 16][..]);
    assert_eq!(&coagula[16..], &sigils()[..16]);
    assert_eq!(&solve[..16], &[0u8; 16][..]);
    assert_eq!(&solve[16..], &sigils()[16..]);
}

#[test]
fn prepare_computes_next_contract_addresses() {
    let solver = [0x5au8; 20];
    let sub = Submission::prepare(solver, 7, sigils(), [0x55u8; 20], args());
    assert_eq!(
        sub.lead_address,
        get_contract_address(Address::from(solver), 7u64).0
    );
    assert_eq!(
        sub.gold_address,
        get_contract_address(Address::from(solver), 8u64).0
    );
    let (coagula, solve) = split_sigils(&sigils());
    assert_eq!(sub.coagula_sigil, coagula);
    assert_eq!(sub.solve_sigil, solve);
}

#[test]
fn prepare_with_nonce_zero_and_large_nonce() {
    let solver = [0x01u8; 20];
    for nonce in [0u64, 127, 128, 255, 256, 1 << 40] {
        let sub = Submission::prepare(solver, nonce, sigils(), [0x55u8; 20], args());
        assert_eq!(
            sub.lead_address,
            get_contract_address(Address::from(solver), nonce).0
        );
    }
}

#[test]
fn bundle_for_block_targets_next_block() {
    let challenge = [0x55u8; 20];
    let sub = Submission::prepare([0x5au8; 20], 7, sigils(), challenge, args());
    let step = sub.bundle_for_block(18_000_000);
    assert_eq!(step.target_block, 18_000_001);
    assert_eq!(
        step.solve_clone_address,
        get_clone_address(18_000_001, sub.solve_sigil, challenge)
    );
    assert_eq!(
        step.coagula_clone_address,
        get_clone_address(18_000_001, sub.coagula_sigil, challenge)
    );
    assert_eq!(step.plan.block, 18_000_001);
    assert_eq!(step.plan.max_block, Some(18_000_001));
    assert_eq!(step.plan.txs.len(), 8);
    assert_eq!(step.plan.txs[5].to, Some(step.solve_clone_address));
    assert_eq!(step.plan.txs[7].to, Some(step.coagula_clone_address));
    assert_eq!(&step.plan.txs[2].data[16..], &sub.lead_address[..]);
    assert_eq!(&step.plan.txs[4].data[16..], &sub.gold_address[..]);
}
