use zk_poll::proof_check::{
    basic_proof_validation, is_field_element_string, validate_public_inputs, verify_noir_proof,
    verify_proof,
};
use zk_poll::public_inputs::{bytes_to_field_string, construct_public_inputs};
use zk_poll::{Address, Error, NoirProof, Poll, ProofData};

fn sample_poll(id: u32, options: &[&str], merkle_root: [u8; 32]) -> Poll {
    Poll {
        id,
        title: "Lunch".to_string(),
        description: "Where to eat".to_string(),
        options: options.iter().map(|s| s.to_string()).collect(),
        merkle_root,
        creator: Address { bytes: [7u8; 32] },
        is_active: true,
        total_votes: 0,
        end_block: 100,
    }
}

fn encode(proof: &[u8], inputs: &[String]) -> Vec<u8> {
    let mut out = Vec::new();
    out.extend_from_slice(&(proof.len() as u32).to_le_bytes());
    out.extend_from_slice(proof);
    out.extend_from_slice(&(inputs.len() as u32).to_le_bytes());
    for input in inputs {
        out.extend_from_slice(&(input.len() as u32).to_le_bytes());
        out.extend_from_slice(input.as_bytes());
    }
    out
}

fn strings(items: &[&str]) -> Vec<String> {
    items.iter().map(|s| s.to_string()).collect()
}

#[test]
fn field_string_of_zero() {
    assert_eq!(bytes_to_field_string(&[0u8; 32]), "0");
}

#[test]
fn field_string_is_little_endian() {
    let mut bytes = [0u8; 32];
    bytes[0] = 1;
    assert_eq!(bytes_to_field_string(&bytes), "1");
    bytes[1] = 1;
    assert_eq!(bytes_to_field_string(&bytes), "257");
    let mut high = [0u8; 32];
    high[15] = 0x80;
    assert_eq!(bytes_to_field_string(&high), "170141183460469231731687303715884105728");
}

#[test]
fn field_string_of_sixteen_full_bytes() {
    let mut bytes = [0u8; 32];
    for b in bytes.iter_mut().take(16) {
        *b = 0xff;
    }
    assert_eq!(bytes_to_field_string(&bytes), "340282366920938463463374607431768211455");
}

#[test]
fn field_string_ignores_the_upper_sixteen_bytes() {
    let mut bytes = [0u8; 32];
    bytes[0] = 42;
    for b in bytes.iter_mut().skip(16) {
        *b = 0xab;
    }
    assert_eq!(bytes_to_field_string(&bytes), "42");
    assert_eq!(bytes_to_field_string(&[0xffu8; 32]), "340282366920938463463374607431768211455");
}

#[test]
fn public_inputs_come_in_their_fixed_order() {
    let mut root = [0u8; 32];
    root[0] = 0x10;
    root[1] = 0x27;
    let mut nullifier = [0u8; 32];
    nullifier[0] = 5;
    let poll = sample_poll(3, &["yes", "no"], root);
    let data = ProofData { proof: vec![], nullifier, vote_choice: 1 };
    assert_eq!(construct_public_inputs(&poll, &data), strings(&["10000", "5", "3", "2"]));
}

#[test]
fn public_inputs_of_a_poll_without_options() {
    let poll = sample_poll(u32::MAX, &[], [0u8; 32]);
    let data = ProofData { proof: vec![], nullifier: [0u8; 32], vote_choice: 0 };
    assert_eq!(construct_public_inputs(&poll, &data), strings(&["0", "0", "4294967295", "0"]));
}

#[test]
fn field_elements_are_unsigned_decimals() {
    assert!(is_field_element_string("0"));
    assert!(is_field_element_string("007"));
    assert!(is_field_element_string("+5"));
    assert!(is_field_element_string("18446744073709551615"));
    assert!(is_field_element_string("18446744073709551616"));
    assert!(is_field_element_string("340282366920938463463374607431768211455"));
    assert!(!is_field_element_string("340282366920938463463374607431768211456"));
    assert!(!is_field_element_string(""));
    assert!(!is_field_element_string("+"));
    assert!(!is_field_element_string("-1"));
    assert!(!is_field_element_string("12a"));
    assert!(!is_field_element_string(" 12"));
    assert!(!is_field_element_string("1_000"));
    assert!(!is_field_element_string("0x10"));
    assert!(!is_field_element_string("++1"));
}

#[test]
fn public_inputs_must_match_by_count_and_element() {
    let a = strings(&["1", "2", "3", "4"]);
    assert!(validate_public_inputs(&a, &strings(&["1", "2", "3", "4"])));
    assert!(!validate_public_inputs(&a, &strings(&["1", "2", "3"])));
    assert!(!validate_public_inputs(&a, &strings(&["1", "2", "3", "5"])));
    assert!(!validate_public_inputs(&a, &strings(&["2", "1", "3", "4"])));
    assert!(!validate_public_inputs(&a, &strings(&["1", "2", "3", "04"])));
    assert!(validate_public_inputs(&[], &[]));
}

#[test]
fn structure_check_bounds_the_proof_length() {
    let inputs = strings(&["1", "2", "3", "4"]);
    let empty = NoirProof { proof_bytes: vec![], public_inputs: inputs.clone() };
    assert!(!basic_proof_validation(&empty));
    let one = NoirProof { proof_bytes: vec![1], public_inputs: inputs.clone() };
    assert!(basic_proof_validation(&one));
    let largest = NoirProof { proof_bytes: vec![1; 10000], public_inputs: inputs.clone() };
    assert!(basic_proof_validation(&largest));
    let too_large = NoirProof { proof_bytes: vec![1; 10001], public_inputs: inputs };
    assert!(!basic_proof_validation(&too_large));
}

#[test]
fn structure_check_wants_four_field_elements() {
    let three = NoirProof { proof_bytes: vec![1], public_inputs: strings(&["1", "2", "3"]) };
    assert!(!basic_proof_validation(&three));
    let five =
        NoirProof { proof_bytes: vec![1], public_inputs: strings(&["1", "2", "3", "4", "5"]) };
    assert!(!basic_proof_validation(&five));
    let blank = NoirProof { proof_bytes: vec![1], public_inputs: strings(&["1", "", "3", "4"]) };
    assert!(!basic_proof_validation(&blank));
    let word = NoirProof { proof_bytes: vec![1], public_inputs: strings(&["1", "2", "x", "4"]) };
    assert!(!basic_proof_validation(&word));
    let wide = NoirProof {
        proof_bytes: vec![1],
        public_inputs: strings(&["1", "2", "3", "340282366920938463463374607431768211456"]),
    };
    assert!(!basic_proof_validation(&wide));
}

#[test]
fn nothing_verifies_without_a_key() {
    let proof = NoirProof { proof_bytes: vec![1], public_inputs: strings(&["1", "2", "3", "4"]) };
    assert!(!verify_noir_proof(&proof, &None));
    assert!(verify_noir_proof(&proof, &Some(vec![1, 2, 3])));
    assert!(verify_noir_proof(&proof, &Some(vec![])));
    let bad = NoirProof { proof_bytes: vec![], public_inputs: strings(&["1", "2", "3", "4"]) };
    assert!(!verify_noir_proof(&bad, &Some(vec![1, 2, 3])));
}

#[test]
fn verify_accepts_the_expected_inputs() {
    let mut nullifier = [0u8; 32];
    nullifier[0] = 9;
    let poll = sample_poll(1, &["yes", "no"], [1u8; 32]);
    let mut data = ProofData { proof: vec![], nullifier, vote_choice: 0 };
    let expected = construct_public_inputs(&poll, &data);
    data.proof = encode(&[0xaa, 0xbb], &expected);
    assert_eq!(verify_proof(&poll, &data, &Some(vec![1])), Ok(true));
    assert_eq!(verify_proof(&poll, &data, &None), Ok(false));
    // Verifying twice gives the same answer.
    assert_eq!(verify_proof(&poll, &data, &Some(vec![1])), Ok(true));
}

#[test]
fn verify_refuses_other_inputs() {
    let mut nullifier = [0u8; 32];
    nullifier[0] = 9;
    let poll = sample_poll(1, &["yes", "no"], [1u8; 32]);
    let mut data = ProofData { proof: vec![], nullifier, vote_choice: 0 };
    let expected = construct_public_inputs(&poll, &data);
    let mut swapped = expected.clone();
    swapped.swap(0, 1);
    data.proof = encode(&[0xaa], &swapped);
    assert_eq!(verify_proof(&poll, &data, &Some(vec![1])), Ok(false));
    data.proof = encode(&[0xaa], &expected[..3]);
    assert_eq!(verify_proof(&poll, &data, &Some(vec![1])), Ok(false));
    // The expected inputs with an empty proof fail the structure check.
    data.proof = encode(&[], &expected);
    assert_eq!(verify_proof(&poll, &data, &Some(vec![1])), Ok(false));
    // A proof made for another poll id.
    let other = sample_poll(2, &["yes", "no"], [1u8; 32]);
    data.proof = encode(&[0xaa], &expected);
    assert_eq!(verify_proof(&other, &data, &Some(vec![1])), Ok(false));
}

#[test]
fn verify_reports_a_malformed_buffer() {
    let poll = sample_poll(1, &["yes", "no"], [1u8; 32]);
    let data = ProofData { proof: vec![1, 2, 3], nullifier: [1u8; 32], vote_choice: 0 };
    assert_eq!(verify_proof(&poll, &data, &Some(vec![1])), Err(Error::ProofDeserializationError));
    assert_eq!(verify_proof(&poll, &data, &None), Err(Error::ProofDeserializationError));
}
