//! The public input builder: the four decimal field elements that a valid
//! proof for a given poll and nullifier must carry, in their fixed order.

use vstd::prelude::*;
use crate::types::{strings_view, Poll, PollView, ProofData};

verus! {

/// 256 to the power `k`.
pub open spec fn pow256(k: nat) -> nat
    decreases k,
{
    if k == 0 {
        1
    } else {
        256 * pow256((k - 1) as nat)
    }
}

/// Little-endian value of the bytes of `bytes` from index `from` up to, not
/// including, index `to`.
pub open spec fn le_value(bytes: Seq<u8>, from: int, to: int) -> nat
    decreases to - from,
{
    if from >= to {
        0
    } else {
        (bytes[from] as nat) + 256 * le_value(bytes, from + 1, to)
    }
}

/// The field element that stands for a 32-byte value: the little-endian
/// number held in its first 16 bytes. The upper 16 bytes do not enter it.
pub open spec fn field_value(bytes: Seq<u8>) -> nat {
    le_value(bytes, 0, 16)
}

/// The character of a decimal digit.
pub open spec fn digit_char(d: nat) -> char {
    if d == 0 {
        '0'
    } else if d == 1 {
        '1'
    } else if d == 2 {
        '2'
    } else if d == 3 {
        '3'
    } else if d == 4 {
        '4'
    } else if d == 5 {
        '5'
    } else if d == 6 {
        '6'
    } else if d == 7 {
        '7'
    } else if d == 8 {
        '8'
    } else {
        '9'
    }
}

/// The base-10 rendering of `n`: digits only, most significant first, no
/// leading zero but for `0` itself.
pub open spec fn decimal_string(n: nat) -> Seq<char>
    decreases n,
{
    if n < 10 {
        seq![digit_char(n)]
    } else {
        decimal_string(n / 10).push(digit_char(n % 10))
    }
}

/// The public inputs that a proof for `poll` with `nullifier` must carry:
/// merkle root, nullifier, poll id, option count.
pub open spec fn expected_public_inputs(poll: PollView, nullifier: Seq<u8>) -> Seq<Seq<char>> {
    seq![
        decimal_string(field_value(poll.merkle_root)),
        decimal_string(field_value(nullifier)),
        decimal_string(poll.id as nat),
        decimal_string(poll.options.len()),
    ]
}

/// A little-endian value of `k` bytes is below 256 to the `k`.
pub proof fn lemma_le_value_bound(bytes: Seq<u8>, from: int, to: int)
    requires
        0 <= from <= to <= bytes.len(),
    ensures
        le_value(bytes, from, to) < pow256((to - from) as nat),
    decreases to - from,
{
    if from < to {
        lemma_le_value_bound(bytes, from + 1, to);
    }
}

/// 256 to a power of at most 16 is at most 2 to the 128th.
pub proof fn lemma_pow256_below_16(k: nat)
    requires
        k <= 16,
    ensures
        pow256(k) <= 0x1_0000_0000_0000_0000_0000_0000_0000_0000,
{
    reveal_with_fuel(pow256, 17);
}

/// Renders a number in base 10 with `u128`'s `ToString::to_string`, which
/// writes the decimal digits of the value, most significant first, without
/// sign, padding or leading zeros.
#[verifier::external_body]
fn decimal_of(n: u128) -> (s: String)
    ensures
        s@ == decimal_string(n as nat),
{
    n.to_string()
}

/// Renders a 32-byte value as the decimal field element of its first 16 bytes.
pub fn bytes_to_field_string(bytes: &[u8; 32]) -> (s: String)
    ensures
        s@ == decimal_string(field_value(bytes@)),
{
    let mut result: u128 = 0;
    let mut i: usize = 16;
    while i > 0
        invariant
            i <= 16,
            result as nat == le_value(bytes@, i as int, 16),
        decreases i,
    {
        proof {
            lemma_le_value_bound(bytes@, i as int - 1, 16);
            lemma_pow256_below_16((16 - i + 1) as nat);
        }
        i -= 1;
        result = result * 256 + bytes[i] as u128;
    }
    decimal_of(result)
}

/// Builds the four public inputs expected for a vote on `poll`.
pub fn construct_public_inputs(poll: &Poll, proof_data: &ProofData) -> (inputs: Vec<String>)
    ensures
        strings_view(inputs@) == expected_public_inputs(poll@, proof_data@.nullifier),
{
    let mut public_inputs: Vec<String> = Vec::new();
    public_inputs.push(bytes_to_field_string(&poll.merkle_root));
    public_inputs.push(bytes_to_field_string(&proof_data.nullifier));
    public_inputs.push(decimal_of(poll.id as u128));
    public_inputs.push(decimal_of(poll.options.len() as u128));
    assert(strings_view(public_inputs@) =~= expected_public_inputs(
        poll@,
        proof_data@.nullifier,
    ));
    public_inputs
}

} // verus!
