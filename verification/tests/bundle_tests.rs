use curta_18_solver::bundle::{bundle_txs, BundleData};

fn data() -> BundleData<'static> {
    BundleData {
        block_number: 18_000_001,
        lead_deploy_address: [0x11u8; 20],
        lead_deploy_code: "60118060093d393df3636cbf043d60e01b5f5260205ff37692e4",
        gold_deploy_address: [0x22u8; 20],
        gold_deploy_code: "60128060093D393DF363081FA55A60E01B5F5260205FF3012FFFA5",
        solve_clone_address: [0x33u8; 20],
        coagula_clone_address: [0x44u8; 20],
        challenge_address: [0x55u8; 20],
    }
}

fn transmute(address: [u8; 20]) -> Vec<u8> {
    let mut data = vec![0x0d, 0xde, 0xaa, 0x5c];
    data.extend_from_slice(&[0u8; 12]);
    data.extend_from_slice(&address);
    data
}

#[test]
fn bundle_has_eight_transactions_in_order() {
    let d = data();
    let plan = bundle_txs(&d);
    assert_eq!(plan.txs.len(), 8);
    assert_eq!(plan.block, 18_000_001);
    assert_eq!(plan.max_block, Some(18_000_001));

    assert_eq!(plan.txs[0].data, hex::decode(d.lead_deploy_code).unwrap());
    assert_eq!(plan.txs[0].to, None);
    assert_eq!(plan.txs[1].data, hex::decode(d.gold_deploy_code).unwrap());
    assert_eq!(plan.txs[1].to, None);

    assert_eq!(plan.txs[2].data, transmute([0x11u8; 20]));
    assert_eq!(plan.txs[2].to, Some([0x55u8; 20]));
    assert_eq!(plan.txs[2].gas, None);

    assert_eq!(plan.txs[3].data, vec![0x89, 0x0d, 0x69, 0x08]);
    assert_eq!(plan.txs[3].to, Some([0x55u8; 20]));
    assert_eq!(plan.txs[3].gas, Some(200000));

    assert_eq!(plan.txs[4].data, transmute([0x22u8; 20]));
    assert_eq!(plan.txs[4].to, Some([0x55u8; 20]));

    assert_eq!(plan.txs[5].data, vec![0x84, 0x12, 0x71, 0xed]);
    assert_eq!(plan.txs[5].to, Some([0x33u8; 20]));
    assert_eq!(plan.txs[5].gas, None);

    assert_eq!(plan.txs[6].data, vec![0x39, 0xa6, 0x90, 0x9f]);
    assert_eq!(plan.txs[6].to, Some([0x55u8; 20]));
    assert_eq!(plan.txs[6].gas, Some(200000));

    assert_eq!(plan.txs[7].data, vec![0x84, 0x12, 0x71, 0xed]);
    assert_eq!(plan.txs[7].to, Some([0x44u8; 20]));

    assert!(plan.txs.iter().all(|tx| !tx.can_revert));
}

#[test]
fn bundle_transmute_data_is_abi_encoded() {
    let d = data();
    let plan = bundle_txs(&d);
    let mut expected = vec![0x0d, 0xde, 0xaa, 0x5c];
    expected.extend(ethers_core::abi::encode(&[ethers_core::abi::Token::Address(
        ethers_core::types::Address::from([0x11u8; 20]),
    )]));
    assert_eq!(plan.txs[2].data, expected);
}
