use curta_18_solver::codehash::{
    bruteforce_code_hash, describe_match, get_bytes_slice_trimmed_zeros, runtime_code,
    runtime_hash_matches, trimmed_value_bytes, u128_be_bytes, Materia, MateriaError,
};
use tiny_keccak::{Hasher, Keccak};

fn keccak(data: &[u8]) -> [u8; 32] {
    let mut out = [0u8; 32];
    let mut hasher = Keccak::v256();
    hasher.update(data);
    hasher.finalize(&mut out);
    out
}

const LEAD_INITIAL: &str = "636cbf043d60e01b5f5260205ff3";
const GOLD_INITIAL: &str = "63081fa55a60e01b5f5260205ff3";

#[test]
fn trimmed_zeros_all_zero_keeps_last_byte() {
    assert_eq!(get_bytes_slice_trimmed_zeros(&[0u8; 16]), vec![0u8]);
}

#[test]
fn trimmed_zeros_drops_leading_zeros() {
    let mut bytes = [0u8; 16];
    bytes[14] = 1;
    bytes[15] = 2;
    assert_eq!(get_bytes_slice_trimmed_zeros(&bytes), vec![1u8, 2]);
}

#[test]
fn trimmed_zeros_keeps_bytes_without_leading_zero() {
    assert_eq!(get_bytes_slice_trimmed_zeros(&[5u8; 16]), vec![5u8; 16]);
}

#[test]
fn trimmed_zeros_short_input_with_non_zero_byte() {
    assert_eq!(get_bytes_slice_trimmed_zeros(&[0u8, 0, 7]), vec![7u8]);
}

#[test]
fn be_bytes_match_std() {
    for v in [0u128, 1, 0x0102, 0xdead_beef, u128::MAX] {
        assert_eq!(u128_be_bytes(v), v.to_be_bytes().to_vec());
    }
}

#[test]
fn trimmed_value_bytes_examples() {
    assert_eq!(trimmed_value_bytes(0), vec![0u8]);
    assert_eq!(trimmed_value_bytes(255), vec![255u8]);
    assert_eq!(trimmed_value_bytes(256), vec![1u8, 0]);
    assert_eq!(trimmed_value_bytes(0x7692e4), vec![0x76u8, 0x92, 0xe4]);
    assert_eq!(trimmed_value_bytes(u128::MAX), vec![0xffu8; 16]);
}

#[test]
fn trimmed_value_bytes_read_back() {
    for v in [1u128, 200, 256, 65535, 65536, 0x0123_4567_89ab, u64::MAX as u128] {
        let bytes = trimmed_value_bytes(v);
        assert_ne!(bytes[0], 0);
        let mut back = 0u128;
        for b in bytes {
            back = back * 256 + b as u128;
        }
        assert_eq!(back, v);
    }
}

#[test]
fn materia_from_str() {
    assert_eq!(Materia::from_str("gold"), Ok(Materia::Gold));
    assert_eq!(Materia::from_str("lead"), Ok(Materia::Lead));
    assert_eq!(Materia::from_str("Gold"), Err(MateriaError::WrongMateria));
    assert_eq!(Materia::from_str(""), Err(MateriaError::WrongMateria));
    assert_eq!(Materia::from_str("leaden"), Err(MateriaError::WrongMateria));
}

#[test]
fn materia_error_message() {
    assert_eq!(MateriaError::WrongMateria.message(), "wrong materia specified");
}

#[test]
fn materia_code_hash_prefixes() {
    assert_eq!(Materia::Gold.code_hash_prefix(), [0x00, 0x90, 0x1d]);
    assert_eq!(Materia::Lead.code_hash_prefix(), [0x00, 0x1e, 0xad]);
}

#[test]
fn runtime_code_appends_trimmed_value() {
    assert_eq!(runtime_code(&[0xaa, 0xbb], 0), vec![0xaa, 0xbb, 0x00]);
    assert_eq!(runtime_code(&[0xaa], 0x0102), vec![0xaa, 0x01, 0x02]);
}

#[test]
fn readme_lead_example_matches() {
    let initial = hex::decode(LEAD_INITIAL).unwrap();
    let prefix = Materia::Lead.code_hash_prefix();
    assert!(runtime_hash_matches(&initial, &prefix, 0x7692e4));
    assert!(!runtime_hash_matches(&initial, &prefix, 0x7692e5));
}

#[test]
fn readme_lead_example_deploy_code() {
    let initial = hex::decode(LEAD_INITIAL).unwrap();
    let prefix = Materia::Lead.code_hash_prefix();
    let found = describe_match(&initial, &prefix, 0x7692e4);
    assert_eq!(
        found.deploy_code,
        "60118060093d393df3636cbf043d60e01b5f5260205ff37692e4"
    );
    assert_eq!(found.runtime_hex, "636cbf043d60e01b5f5260205ff37692e4");
    assert_eq!(found.suffix, vec![0x76, 0x92, 0xe4]);
    assert_eq!(found.code_hash, keccak(&found.runtime_code));
    assert_eq!(found.code_hash_hex, hex::encode(found.code_hash));
    assert_eq!(&found.code_hash[..3], &prefix[..]);
}

#[test]
fn readme_gold_example_deploy_code() {
    let initial = hex::decode(GOLD_INITIAL).unwrap();
    let prefix = Materia::Gold.code_hash_prefix();
    assert!(runtime_hash_matches(&initial, &prefix, 0x012fffa5));
    let found = describe_match(&initial, &prefix, 0x012fffa5);
    assert_eq!(
        found.deploy_code,
        "60128060093d393df363081fa55a60e01b5f5260205ff3012fffa5"
    );
}

#[test]
fn deploy_code_decodes_to_init_code() {
    let initial = hex::decode(LEAD_INITIAL).unwrap();
    let prefix = Materia::Lead.code_hash_prefix();
    let found = describe_match(&initial, &prefix, 0x7692e4);
    let decoded = hex::decode(&found.deploy_code).unwrap();
    let mut expected = vec![0x60, 17, 0x80, 0x60, 0x09, 0x3d, 0x39, 0x3d, 0xf3];
    expected.extend_from_slice(&found.runtime_code);
    assert_eq!(decoded, expected);
}

#[test]
fn bruteforce_empty_prefix_takes_a_one_byte_value() {
    let found = bruteforce_code_hash(&[], LEAD_INITIAL).unwrap();
    assert!(found.value < 256);
    assert_eq!(found.suffix.len(), 1);
    assert_eq!(found.runtime_code.len(), 15);
    // the length is written as two hex digits, the operand of PUSH1
    let expected = format!(
        "600f8060093d393df3{}{}",
        LEAD_INITIAL,
        hex::encode(&found.suffix)
    );
    assert_eq!(found.deploy_code, expected);
}

#[test]
fn readme_template_deploy_code_is_bytecode() {
    let initial = "630011223360e01b5f5260205ff3";
    let found = bruteforce_code_hash(&[], initial).unwrap();
    assert!(found.deploy_code.starts_with("600f8060093d393df3630011223360e01b5f5260205ff3"));
    assert_eq!(found.deploy_code.len(), 2 * 24);
    let decoded = hex::decode(&found.deploy_code).unwrap();
    let mut expected = vec![0x60, 15, 0x80, 0x60, 0x09, 0x3d, 0x39, 0x3d, 0xf3];
    expected.extend_from_slice(&found.runtime_code);
    assert_eq!(decoded, expected);
}

#[test]
fn bruteforce_accepts_upper_case_hex() {
    let found = bruteforce_code_hash(&[], &LEAD_INITIAL.to_uppercase()).unwrap();
    assert_eq!(&found.runtime_code[..14], &hex::decode(LEAD_INITIAL).unwrap()[..]);
}

#[test]
fn bruteforce_finds_shortest_suffix_for_one_byte_prefix() {
    let initial = hex::decode(GOLD_INITIAL).unwrap();
    let prefix = [0x00u8];
    let found = bruteforce_code_hash(&prefix, GOLD_INITIAL).unwrap();
    assert_eq!(found.code_hash[0], 0x00);
    assert_eq!(found.code_hash, keccak(&found.runtime_code));
    let mut runtime = initial.clone();
    runtime.extend_from_slice(&found.suffix);
    assert_eq!(found.runtime_code, runtime);
    // no value with shorter trimmed bytes matches
    if found.suffix.len() == 2 {
        for v in 0u128..256 {
            let mut code = initial.clone();
            code.push(v as u8);
            assert_ne!(keccak(&code)[0], 0x00);
        }
    } else {
        assert_eq!(found.suffix.len(), 1);
    }
}
