use zk_poll::codec::{deserialize_proof, le_u32};

fn wire(proof: &[u8], inputs: &[&str]) -> Vec<u8> {
    let mut out = Vec::new();
    out.extend_from_slice(&(proof.len() as u32).to_le_bytes());
    out.extend_from_slice(proof);
    out.extend_from_slice(&(inputs.len() as u32).to_le_bytes());
    for input in inputs {
        out.extend_from_slice(&(input.len() as u32).to_le_bytes());
        out.extend_from_slice(input.as_bytes());
    }
    out
}

#[test]
fn le_u32_reads_little_endian() {
    assert_eq!(le_u32(1, 0, 0, 0), 1);
    assert_eq!(le_u32(0, 1, 0, 0), 256);
    assert_eq!(le_u32(0x78, 0x56, 0x34, 0x12), 0x1234_5678);
    assert_eq!(le_u32(255, 255, 255, 255), u32::MAX);
}

#[test]
fn round_trip_recovers_proof_and_inputs() {
    let buffer = wire(&[1, 2, 3, 4, 5], &["12", "0", "340282366920938463463374607431768211455", "7"]);
    let decoded = deserialize_proof(&buffer).unwrap();
    assert_eq!(decoded.proof_bytes, vec![1, 2, 3, 4, 5]);
    assert_eq!(
        decoded.public_inputs,
        vec![
            "12".to_string(),
            "0".to_string(),
            "340282366920938463463374607431768211455".to_string(),
            "7".to_string()
        ]
    );
}

#[test]
fn round_trip_keeps_non_ascii_text() {
    let buffer = wire(&[9], &["h\u{e9}llo", "\u{4e16}\u{754c}", ""]);
    let decoded = deserialize_proof(&buffer).unwrap();
    assert_eq!(decoded.proof_bytes, vec![9]);
    assert_eq!(
        decoded.public_inputs,
        vec!["h\u{e9}llo".to_string(), "\u{4e16}\u{754c}".to_string(), String::new()]
    );
}

#[test]
fn empty_buffer_is_rejected() {
    assert_eq!(deserialize_proof(&[]), Err(()));
}

#[test]
fn buffers_shorter_than_eight_bytes_are_rejected() {
    for len in 0..8usize {
        let buffer = vec![0u8; len];
        assert_eq!(deserialize_proof(&buffer), Err(()));
    }
}

#[test]
fn eight_zero_bytes_decode_to_an_empty_proof() {
    let decoded = deserialize_proof(&[0u8; 8]).unwrap();
    assert!(decoded.proof_bytes.is_empty());
    assert!(decoded.public_inputs.is_empty());
}

#[test]
fn zero_length_input_is_accepted() {
    let buffer = wire(&[], &[""]);
    let decoded = deserialize_proof(&buffer).unwrap();
    assert!(decoded.proof_bytes.is_empty());
    assert_eq!(decoded.public_inputs, vec![String::new()]);
}

#[test]
fn proof_length_past_the_end_is_rejected() {
    let mut buffer = Vec::new();
    buffer.extend_from_slice(&5u32.to_le_bytes());
    buffer.extend_from_slice(&[1, 2, 3, 4]);
    buffer.extend_from_slice(&0u32.to_le_bytes());
    assert_eq!(deserialize_proof(&buffer), Err(()));
}

#[test]
fn huge_proof_length_is_rejected() {
    let mut buffer = Vec::new();
    buffer.extend_from_slice(&u32::MAX.to_le_bytes());
    buffer.extend_from_slice(&[0u8; 16]);
    assert_eq!(deserialize_proof(&buffer), Err(()));
}

#[test]
fn missing_input_header_is_rejected() {
    let mut buffer = wire(&[1], &["5"]);
    // Claims two inputs but carries one.
    buffer[5] = 2;
    assert_eq!(deserialize_proof(&buffer), Err(()));
}

#[test]
fn truncated_input_header_is_rejected() {
    let mut buffer = wire(&[1], &[]);
    buffer[5] = 1;
    buffer.extend_from_slice(&[1, 0, 0]);
    assert_eq!(deserialize_proof(&buffer), Err(()));
}

#[test]
fn input_length_past_the_end_is_rejected() {
    let mut buffer = Vec::new();
    buffer.extend_from_slice(&1u32.to_le_bytes());
    buffer.push(7);
    buffer.extend_from_slice(&1u32.to_le_bytes());
    buffer.extend_from_slice(&4u32.to_le_bytes());
    buffer.extend_from_slice(b"123");
    assert_eq!(deserialize_proof(&buffer), Err(()));
}

#[test]
fn huge_input_length_is_rejected() {
    let mut buffer = Vec::new();
    buffer.extend_from_slice(&0u32.to_le_bytes());
    buffer.extend_from_slice(&1u32.to_le_bytes());
    buffer.extend_from_slice(&u32::MAX.to_le_bytes());
    buffer.extend_from_slice(b"1");
    assert_eq!(deserialize_proof(&buffer), Err(()));
}

#[test]
fn huge_input_count_is_rejected() {
    let mut buffer = Vec::new();
    buffer.extend_from_slice(&0u32.to_le_bytes());
    buffer.extend_from_slice(&u32::MAX.to_le_bytes());
    buffer.extend_from_slice(&1u32.to_le_bytes());
    buffer.extend_from_slice(b"1");
    assert_eq!(deserialize_proof(&buffer), Err(()));
}

#[test]
fn invalid_utf8_is_rejected() {
    let mut buffer = Vec::new();
    buffer.extend_from_slice(&1u32.to_le_bytes());
    buffer.push(7);
    buffer.extend_from_slice(&1u32.to_le_bytes());
    buffer.extend_from_slice(&2u32.to_le_bytes());
    buffer.extend_from_slice(&[0xff, 0xfe]);
    assert_eq!(deserialize_proof(&buffer), Err(()));
}

#[test]
fn truncated_utf8_sequence_is_rejected() {
    let mut buffer = Vec::new();
    buffer.extend_from_slice(&0u32.to_le_bytes());
    buffer.extend_from_slice(&1u32.to_le_bytes());
    buffer.extend_from_slice(&1u32.to_le_bytes());
    buffer.push(0xc3);
    assert_eq!(deserialize_proof(&buffer), Err(()));
}

#[test]
fn bytes_behind_the_last_input_are_ignored() {
    let mut buffer = wire(&[1, 2], &["42"]);
    buffer.extend_from_slice(&[0xff, 0xff, 0xff]);
    let decoded = deserialize_proof(&buffer).unwrap();
    assert_eq!(decoded.proof_bytes, vec![1, 2]);
    assert_eq!(decoded.public_inputs, vec!["42".to_string()]);
}
