use curta_18_solver::clone::get_clone_address;
use ethers_core::types::Address;
use ethers_core::utils::get_create2_address;

const INIT_CODE: &str = "602c3d8160093d39f33d3d3d3d363d3d37363d73946c6169cb9fe5a46abe14e82a40093cbec502485af43d3d93803e602a57fd5bf3";

fn minimal(bytes: &[u8]) -> Vec<u8> {
    let start = bytes.iter().position(|&b| b != 0).unwrap_or(bytes.len());
    bytes[start..].to_vec()
}

fn expected_clone(block: u64, sigil: [u8; 32], challenge: [u8; 20]) -> [u8; 20] {
    let mut packed = minimal(&block.to_be_bytes());
    packed.extend(minimal(&sigil));
    let mut salt = vec![0u8; 32 - packed.len()];
    salt.extend(packed);
    let init_code = hex::decode(INIT_CODE).unwrap();
    get_create2_address(Address::from(challenge), salt, init_code).0
}

fn sigil_from(value: u128) -> [u8; 32] {
    let mut sigil = [0u8; 32];
    sigil[16..].copy_from_slice(&value.to_be_bytes());
    sigil
}

#[test]
fn clone_address_is_create2_address() {
    let challenge = [0x42u8; 20];
    for (block, value) in [
        (18_000_000u64, 0x1234_5678_9abc_def0u128),
        (1, 1),
        (u64::MAX - 1, u128::MAX),
    ] {
        let sigil = sigil_from(value);
        assert_eq!(
            get_clone_address(block, sigil, challenge),
            expected_clone(block, sigil, challenge)
        );
    }
}

#[test]
fn clone_address_with_zero_sigil() {
    let challenge = [0x01u8; 20];
    let sigil = [0u8; 32];
    assert_eq!(
        get_clone_address(17_000_000, sigil, challenge),
        expected_clone(17_000_000, sigil, challenge)
    );
}

#[test]
fn clone_address_depends_on_block() {
    let challenge = [0x42u8; 20];
    let sigil = sigil_from(99);
    assert_ne!(
        get_clone_address(100, sigil, challenge),
        get_clone_address(101, sigil, challenge)
    );
}
