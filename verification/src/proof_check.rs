//! The proof verifier: decodes a submitted proof, compares its public inputs
//! with the expected ones, checks its structure, and asks for a verification
//! key. It keeps no state and changes none.

use vstd::prelude::*;
use crate::codec::{
    decode_proof, deserialize_proof, encodable, encode_proof, lemma_decode_encode_round_trip,
};
use crate::error::Error;
use crate::public_inputs::{
    construct_public_inputs, decimal_string, expected_public_inputs, field_value,
    lemma_le_value_bound, lemma_pow256_below_16,
};
use crate::types::{
    strings_view, NoirProof, NoirProofView, Poll, PollView, ProofData, ProofDataView,
};

verus! {

/// Largest accepted length of the raw proof bytes.
pub const MAX_PROOF_BYTES: usize = 10000;

/// Number of public inputs of the voting circuit.
pub const PUBLIC_INPUT_COUNT: usize = 4;

/// `c` is one of `0` to `9`.
pub open spec fn is_digit(c: char) -> bool {
    '0' <= c && c <= '9'
}

/// The number that a string of decimal digits writes.
pub open spec fn decimal_value(digits: Seq<char>) -> nat
    decreases digits.len(),
{
    if digits.len() == 0 {
        0
    } else {
        10 * decimal_value(digits.drop_last()) + ((digits.last() as u32 - '0' as u32) as nat)
    }
}

/// Every character of `s` is a decimal digit.
pub open spec fn all_digits(s: Seq<char>) -> bool {
    forall|i: int| 0 <= i < s.len() ==> is_digit(#[trigger] s[i])
}

/// `s` without its leading `+`, if it has one.
pub open spec fn without_plus(s: Seq<char>) -> Seq<char> {
    if s.len() > 0 && s[0] == '+' {
        s.drop_first()
    } else {
        s
    }
}

/// `s` writes an unsigned number that is at most `max`: an optional `+`, then
/// one or more decimal digits and nothing else.
pub open spec fn is_unsigned_decimal(s: Seq<char>, max: nat) -> bool {
    let digits = without_plus(s);
    &&& digits.len() > 0
    &&& all_digits(digits)
    &&& decimal_value(digits) <= max
}

/// `s` is a decimal field element: it reads as an unsigned 128-bit number.
pub open spec fn is_field_element(s: Seq<char>) -> bool {
    is_unsigned_decimal(s, u128::MAX as nat)
}

/// The structural demands on a decoded proof: between 1 and 10000 proof
/// bytes, and exactly four public inputs, each a decimal field element.
pub open spec fn structurally_valid(p: NoirProofView) -> bool {
    &&& 0 < p.proof_bytes.len() <= MAX_PROOF_BYTES
    &&& p.public_inputs.len() == PUBLIC_INPUT_COUNT
    &&& forall|i: int|
        0 <= i < p.public_inputs.len() ==> is_field_element(#[trigger] p.public_inputs[i])
}

/// The outcome of verifying `data` as a vote on `poll`: a decode failure where
/// the buffer is malformed; else whether the public inputs are the expected
/// ones, the proof is structurally valid and a verification key is present.
pub open spec fn proof_verdict(poll: PollView, data: ProofDataView, has_key: bool) -> Result<
    bool,
    Error,
> {
    match decode_proof(data.proof) {
        None => Err(Error::ProofDeserializationError),
        Some(p) => Ok(
            p.public_inputs == expected_public_inputs(poll, data.nullifier) && structurally_valid(
                p,
            ) && has_key,
        ),
    }
}

/// The decimal rendering of a number is made of digits only and writes that
/// number.
pub proof fn lemma_decimal_string_reads_back(n: nat)
    ensures
        decimal_string(n).len() > 0,
        all_digits(decimal_string(n)),
        decimal_value(decimal_string(n)) == n,
    decreases n,
{
    let s = decimal_string(n);
    if n < 10 {
        assert(s.drop_last() =~= Seq::<char>::empty());
        assert(decimal_value(s.drop_last()) == 0);
    } else {
        lemma_decimal_string_reads_back(n / 10);
        assert(s.drop_last() =~= decimal_string(n / 10));
    }
}

/// The decimal rendering of a number that fits 128 bits is a field element.
pub proof fn lemma_decimal_string_is_field_element(n: nat)
    requires
        n <= u128::MAX,
    ensures
        is_field_element(decimal_string(n)),
{
    lemma_decimal_string_reads_back(n);
    assert(is_digit(decimal_string(n)[0]));
}

/// The expected public inputs of a poll are four field elements.
pub proof fn lemma_expected_inputs_are_field_elements(poll: PollView, nullifier: Seq<u8>)
    requires
        poll.merkle_root.len() >= 16,
        nullifier.len() >= 16,
        poll.options.len() <= u128::MAX,
    ensures
        expected_public_inputs(poll, nullifier).len() == PUBLIC_INPUT_COUNT,
        forall|i: int|
            0 <= i < 4 ==> is_field_element(#[trigger] expected_public_inputs(poll, nullifier)[i]),
{
    lemma_le_value_bound(poll.merkle_root, 0, 16);
    lemma_le_value_bound(nullifier, 0, 16);
    lemma_pow256_below_16(16);
    lemma_decimal_string_is_field_element(field_value(poll.merkle_root));
    lemma_decimal_string_is_field_element(field_value(nullifier));
    lemma_decimal_string_is_field_element(poll.id as nat);
    lemma_decimal_string_is_field_element(poll.options.len());
}

/// A proof built for the poll verifies: between 1 and 10000 raw proof bytes
/// and the expected public inputs, written on the wire, are accepted whenever
/// a verification key is present.
pub proof fn lemma_expected_proof_verifies(poll: PollView, data: ProofDataView, raw: Seq<u8>)
    requires
        poll.merkle_root.len() >= 16,
        data.nullifier.len() >= 16,
        poll.options.len() <= u128::MAX,
        0 < raw.len() <= MAX_PROOF_BYTES,
        encodable(
            NoirProofView {
                proof_bytes: raw,
                public_inputs: expected_public_inputs(poll, data.nullifier),
            },
        ),
        data.proof == encode_proof(
            NoirProofView {
                proof_bytes: raw,
                public_inputs: expected_public_inputs(poll, data.nullifier),
            },
        ),
    ensures
        proof_verdict(poll, data, true) == Ok::<bool, Error>(true),
        proof_verdict(poll, data, false) == Ok::<bool, Error>(false),
{
    let p = NoirProofView {
        proof_bytes: raw,
        public_inputs: expected_public_inputs(poll, data.nullifier),
    };
    lemma_decode_encode_round_trip(p);
    lemma_expected_inputs_are_field_elements(poll, data.nullifier);
}

/// Asks `str::parse::<u64>` whether a string reads as a number. It accepts an
/// optional `+` followed by decimal digits only, at least one, whose value
/// fits 64 bits; anything else, the empty string included, is an error.
#[verifier::external_body]
fn parses_as_u64(s: &str) -> (ok: bool)
    ensures
        ok == is_unsigned_decimal(s@, u64::MAX as nat),
{
    s.parse::<u64>().is_ok()
}

/// Asks `str::parse::<u128>` whether a string reads as a number. It accepts an
/// optional `+` followed by decimal digits only, at least one, whose value
/// fits 128 bits; anything else, the empty string included, is an error.
#[verifier::external_body]
fn parses_as_u128(s: &str) -> (ok: bool)
    ensures
        ok == is_unsigned_decimal(s@, u128::MAX as nat),
{
    s.parse::<u128>().is_ok()
}

/// Whether a public input is a decimal field element.
pub fn is_field_element_string(input: &str) -> (r: bool)
    ensures
        r == is_field_element(input@),
{
    if input.is_empty() {
        return false;
    }
    parses_as_u64(input) || parses_as_u128(input)
}

/// Compares the public inputs a proof carries with the expected ones, by
/// count and element by element.
pub fn validate_public_inputs(proof_inputs: &[String], expected_inputs: &[String]) -> (r: bool)
    ensures
        r == (strings_view(proof_inputs@) == strings_view(expected_inputs@)),
{
    if proof_inputs.len() != expected_inputs.len() {
        assert(strings_view(proof_inputs@).len() != strings_view(expected_inputs@).len());
        return false;
    }
    let mut i: usize = 0;
    while i < proof_inputs.len()
        invariant
            i <= proof_inputs.len(),
            proof_inputs.len() == expected_inputs.len(),
            forall|j: int| 0 <= j < i ==> proof_inputs@[j]@ == expected_inputs@[j]@,
        decreases proof_inputs.len() - i,
    {
        if !(proof_inputs[i] == expected_inputs[i]) {
            assert(strings_view(proof_inputs@)[i as int] != strings_view(expected_inputs@)[i as int]);
            return false;
        }
        i += 1;
    }
    assert(strings_view(proof_inputs@) =~= strings_view(expected_inputs@));
    true
}

/// Checks the structure of a decoded proof.
pub fn basic_proof_validation(proof: &NoirProof) -> (r: bool)
    ensures
        r == structurally_valid(proof@),
{
    if proof.proof_bytes.len() == 0 || proof.proof_bytes.len() > MAX_PROOF_BYTES {
        return false;
    }
    if proof.public_inputs.len() != PUBLIC_INPUT_COUNT {
        return false;
    }
    let mut i: usize = 0;
    while i < proof.public_inputs.len()
        invariant
            i <= proof.public_inputs.len(),
            forall|j: int| 0 <= j < i ==> is_field_element(#[trigger] proof@.public_inputs[j]),
        decreases proof.public_inputs.len() - i,
    {
        if !is_field_element_string(proof.public_inputs[i].as_str()) {
            assert(!is_field_element(proof@.public_inputs[i as int]));
            return false;
        }
        i += 1;
    }
    true
}

/// Checks a decoded proof against the verification key: the proof must be
/// structurally valid and a key must be present. Without a key nothing
/// verifies.
pub fn verify_noir_proof(proof: &NoirProof, verification_key: &Option<Vec<u8>>) -> (r: bool)
    ensures
        r == (structurally_valid(proof@) && verification_key is Some),
{
    if !basic_proof_validation(proof) {
        return false;
    }
    if verification_key.is_none() {
        return false;
    }
    true
}

/// Verifies the proof submitted with a vote on `poll`.
pub fn verify_proof(poll: &Poll, proof_data: &ProofData, verification_key: &Option<Vec<u8>>) -> (r:
    Result<bool, Error>)
    ensures
        r == proof_verdict(poll@, proof_data@, verification_key is Some),
{
    let noir_proof = match deserialize_proof(proof_data.proof.as_slice()) {
        Ok(p) => p,
        Err(_) => {
            return Err(Error::ProofDeserializationError);
        },
    };
    let expected_public_inputs = construct_public_inputs(poll, proof_data);
    if !validate_public_inputs(
        noir_proof.public_inputs.as_slice(),
        expected_public_inputs.as_slice(),
    ) {
        return Ok(false);
    }
    Ok(verify_noir_proof(&noir_proof, verification_key))
}

} // verus!
