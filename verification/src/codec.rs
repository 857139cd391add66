//! The proof codec: a flat, length-prefixed little-endian buffer
//! `[u32 proof_len][proof bytes][u32 input_count]([u32 input_len][UTF-8 bytes])*`
//! decoded into raw proof bytes and an ordered list of public-input strings.

use vstd::prelude::*;
use vstd::slice::{slice_subrange, slice_to_vec};
use vstd::utf8::{decode_utf8, encode_utf8, valid_utf8};
use crate::types::{strings_view, NoirProof, NoirProofView};

verus! {

/// Little-endian value of four bytes.
pub open spec fn le_u32_value(b0: u8, b1: u8, b2: u8, b3: u8) -> nat {
    (b0 as nat) + 256 * (b1 as nat) + 65536 * (b2 as nat) + 16777216 * (b3 as nat)
}

/// Little-endian value of the four bytes of `b` that start at `i`.
pub open spec fn le_u32_at(b: Seq<u8>, i: int) -> int {
    le_u32_value(b[i], b[i + 1], b[i + 2], b[i + 3]) as int
}

/// The four bytes that hold `n` in little-endian order.
pub open spec fn le_u32_bytes(n: nat) -> Seq<u8> {
    seq![
        (n % 256) as u8,
        ((n / 256) % 256) as u8,
        ((n / 65536) % 256) as u8,
        ((n / 16777216) % 256) as u8,
    ]
}

/// The public inputs read from `b`, `count` of them starting at `offset`;
/// `None` where a length prefix or a body runs past the end of `b`, or a body
/// is not valid UTF-8.
pub open spec fn decode_inputs(b: Seq<u8>, offset: int, count: nat) -> Option<Seq<Seq<char>>>
    decreases count,
{
    if count == 0 {
        Some(Seq::empty())
    } else if offset + 4 > b.len() {
        None
    } else {
        let start = offset + 4;
        let end = start + le_u32_at(b, offset);
        if end > b.len() {
            None
        } else if !valid_utf8(b.subrange(start, end)) {
            None
        } else {
            match decode_inputs(b, end, (count - 1) as nat) {
                Some(rest) => Some(seq![decode_utf8(b.subrange(start, end))] + rest),
                None => None,
            }
        }
    }
}

/// The proof that the buffer `b` holds, or `None` where `b` is malformed:
/// shorter than 8 bytes, a declared length past its end, or an input that is
/// not UTF-8. Bytes behind the last input are not looked at.
pub open spec fn decode_proof(b: Seq<u8>) -> Option<NoirProofView> {
    if b.len() < 8 {
        None
    } else {
        let proof_end = 4 + le_u32_at(b, 0);
        if b.len() < proof_end + 4 {
            None
        } else {
            match decode_inputs(b, proof_end + 4, le_u32_at(b, proof_end) as nat) {
                Some(inputs) => Some(
                    NoirProofView { proof_bytes: b.subrange(4, proof_end), public_inputs: inputs },
                ),
                None => None,
            }
        }
    }
}

/// One public input on the wire: its byte length, then its UTF-8 bytes.
pub open spec fn encode_input(s: Seq<char>) -> Seq<u8> {
    le_u32_bytes(encode_utf8(s).len()) + encode_utf8(s)
}

/// The public inputs on the wire, one after the other.
pub open spec fn encode_inputs(inputs: Seq<Seq<char>>) -> Seq<u8>
    decreases inputs.len(),
{
    if inputs.len() == 0 {
        Seq::empty()
    } else {
        encode_input(inputs[0]) + encode_inputs(inputs.drop_first())
    }
}

/// A proof on the wire.
pub open spec fn encode_proof(p: NoirProofView) -> Seq<u8> {
    le_u32_bytes(p.proof_bytes.len()) + p.proof_bytes + le_u32_bytes(p.public_inputs.len())
        + encode_inputs(p.public_inputs)
}

/// Every length of `p` fits the 32-bit prefix that carries it.
pub open spec fn encodable(p: NoirProofView) -> bool {
    &&& p.proof_bytes.len() <= u32::MAX
    &&& p.public_inputs.len() <= u32::MAX
    &&& forall|i: int|
        0 <= i < p.public_inputs.len() ==> (#[trigger] encode_utf8(p.public_inputs[i])).len()
            <= u32::MAX
}

/// The offset behind the first `k` inputs that are framed from `offset` on.
pub open spec fn input_offset(b: Seq<u8>, offset: int, k: nat) -> int
    decreases k,
{
    if k == 0 {
        offset
    } else {
        input_offset(b, offset + 4 + le_u32_at(b, offset), (k - 1) as nat)
    }
}

/// The input framed at offset `at` is malformed: its length prefix or its
/// body runs past the end of `b`, or its body is not valid UTF-8.
pub open spec fn malformed_input_at(b: Seq<u8>, at: int) -> bool {
    ||| at + 4 > b.len()
    ||| at + 4 + le_u32_at(b, at) > b.len()
    ||| !valid_utf8(b.subrange(at + 4, at + 4 + le_u32_at(b, at)))
}

/// A buffer shorter than 8 bytes holds no proof.
pub proof fn lemma_short_buffer_rejected(b: Seq<u8>)
    requires
        b.len() < 8,
    ensures
        decode_proof(b) is None,
{
}

/// A buffer whose declared proof length leaves no room for the proof bytes
/// and the input count holds no proof.
pub proof fn lemma_proof_length_past_end_rejected(b: Seq<u8>)
    requires
        b.len() >= 8,
        4 + le_u32_at(b, 0) + 4 > b.len(),
    ensures
        decode_proof(b) is None,
{
}

/// Inputs of which one is malformed are not decoded, whichever it is.
pub proof fn lemma_malformed_input_rejected(b: Seq<u8>, offset: int, count: nat, k: nat)
    requires
        k < count,
        malformed_input_at(b, input_offset(b, offset, k)),
    ensures
        decode_inputs(b, offset, count) is None,
    decreases k,
{
    if k > 0 && !malformed_input_at(b, offset) {
        lemma_malformed_input_rejected(
            b,
            offset + 4 + le_u32_at(b, offset),
            (count - 1) as nat,
            (k - 1) as nat,
        );
    }
}

/// A buffer in which one of the declared inputs is malformed holds no proof.
pub proof fn lemma_malformed_input_buffer_rejected(b: Seq<u8>, k: nat)
    requires
        b.len() >= 8,
        4 + le_u32_at(b, 0) + 4 <= b.len(),
        k < le_u32_at(b, 4 + le_u32_at(b, 0)),
        malformed_input_at(b, input_offset(b, 4 + le_u32_at(b, 0) + 4, k)),
    ensures
        decode_proof(b) is None,
{
    let proof_end = 4 + le_u32_at(b, 0);
    lemma_malformed_input_rejected(b, proof_end + 4, le_u32_at(b, proof_end) as nat, k);
}

/// Four little-endian bytes read back as the number they were made from.
pub proof fn lemma_le_u32_round_trip(n: nat)
    requires
        n <= u32::MAX,
    ensures
        le_u32_bytes(n).len() == 4,
        le_u32_at(le_u32_bytes(n), 0) == n,
{
}

/// Where `b` holds the encoding of `inputs` from `offset` on, decoding
/// `inputs.len()` inputs there gives `inputs` back.
pub proof fn lemma_decode_encoded_inputs(b: Seq<u8>, offset: int, inputs: Seq<Seq<char>>)
    requires
        0 <= offset,
        offset + encode_inputs(inputs).len() <= b.len(),
        b.subrange(offset, offset + encode_inputs(inputs).len()) == encode_inputs(inputs),
        forall|i: int|
            0 <= i < inputs.len() ==> (#[trigger] encode_utf8(inputs[i])).len() <= u32::MAX,
    ensures
        decode_inputs(b, offset, inputs.len()) == Some(inputs),
    decreases inputs.len(),
{
    if inputs.len() == 0 {
        assert(inputs =~= Seq::empty());
    } else {
        let body = encode_utf8(inputs[0]);
        let tail = inputs.drop_first();
        let wire = encode_inputs(inputs);
        let window = b.subrange(offset, offset + wire.len());
        let start = offset + 4;
        let end = start + body.len() as int;
        lemma_le_u32_round_trip(body.len());
        assert(wire == le_u32_bytes(body.len()) + body + encode_inputs(tail));
        assert forall|k: int| 0 <= k < 4 implies b[offset + k] == le_u32_bytes(body.len())[k] by {
            assert(window[k] == b[offset + k]);
        }
        assert(le_u32_at(b, offset) == body.len());
        assert(b.subrange(start, end) =~= body) by {
            assert forall|k: int| 0 <= k < body.len() implies b[start + k] == body[k] by {
                assert(window[4 + k] == b[offset + 4 + k]);
            }
        }
        vstd::utf8::encode_utf8_valid_utf8(inputs[0]);
        vstd::utf8::encode_utf8_decode_utf8(inputs[0]);
        assert(b.subrange(end, end + encode_inputs(tail).len()) =~= encode_inputs(tail)) by {
            assert forall|k: int| 0 <= k < encode_inputs(tail).len() implies b[end + k]
                == encode_inputs(tail)[k] by {
                assert(window[4 + body.len() + k] == b[offset + 4 + body.len() + k]);
            }
        }
        assert forall|i: int| 0 <= i < tail.len() implies (#[trigger] encode_utf8(tail[i])).len()
            <= u32::MAX by {
            assert(tail[i] == inputs[i + 1]);
        }
        lemma_decode_encoded_inputs(b, end, tail);
        assert(seq![inputs[0]] + tail =~= inputs);
    }
}

/// Round trip: a proof whose lengths fit their prefixes, written on the wire
/// and decoded, comes back with the same proof bytes and the same public
/// inputs in the same order.
pub proof fn lemma_decode_encode_round_trip(p: NoirProofView)
    requires
        encodable(p),
    ensures
        decode_proof(encode_proof(p)) == Some(p),
{
    let b = encode_proof(p);
    let n = p.proof_bytes.len() as int;
    lemma_le_u32_round_trip(p.proof_bytes.len());
    lemma_le_u32_round_trip(p.public_inputs.len());
    let head = le_u32_bytes(p.proof_bytes.len());
    let count = le_u32_bytes(p.public_inputs.len());
    let wire = encode_inputs(p.public_inputs);
    assert(b.len() == 8 + n + wire.len());
    assert forall|k: int| 0 <= k < 4 implies b[k] == head[k] && b[4 + n + k] == count[k] by {}
    assert(le_u32_at(b, 0) == n);
    assert(le_u32_at(b, 4 + n) == p.public_inputs.len());
    assert(b.subrange(4, 4 + n) =~= p.proof_bytes);
    assert(b.subrange(8 + n, 8 + n + wire.len()) =~= wire);
    lemma_decode_encoded_inputs(b, 8 + n, p.public_inputs);
}

/// Reads four bytes as a little-endian 32-bit number.
pub fn le_u32(b0: u8, b1: u8, b2: u8, b3: u8) -> (r: u32)
    ensures
        r as nat == le_u32_value(b0, b1, b2, b3),
{
    let lo: u32 = b0 as u32 + 256 * (b1 as u32);
    let hi: u32 = b2 as u32 + 256 * (b3 as u32);
    lo + 65536 * hi
}

/// Checks a byte slice for UTF-8 with `core::str::from_utf8`: the slice is
/// accepted exactly when it is valid UTF-8, and the string returned is the
/// text that those bytes encode.
#[verifier::external_body]
fn utf8_text(bytes: &[u8]) -> (r: Option<&str>)
    ensures
        r is Some <==> valid_utf8(bytes@),
        r matches Some(s) ==> s@ == decode_utf8(bytes@),
{
    core::str::from_utf8(bytes).ok()
}

/// Decodes a proof buffer. Fails on every malformed buffer and reads nothing
/// outside it.
pub fn deserialize_proof(proof_bytes: &[u8]) -> (r: Result<NoirProof, ()>)
    ensures
        match decode_proof(proof_bytes@) {
            Some(p) => r is Ok && r->Ok_0@ == p,
            None => r is Err,
        },
{
    let total: usize = proof_bytes.len();
    if total < 8 {
        return Err(());
    }
    let proof_len: u32 = le_u32(proof_bytes[0], proof_bytes[1], proof_bytes[2], proof_bytes[3]);
    if ((total - 8) as u64) < (proof_len as u64) {
        return Err(());
    }
    let proof_end: usize = 4 + proof_len as usize;
    let proof_data: Vec<u8> = slice_to_vec(slice_subrange(proof_bytes, 4, proof_end));
    let num_inputs: u32 = le_u32(
        proof_bytes[proof_end],
        proof_bytes[proof_end + 1],
        proof_bytes[proof_end + 2],
        proof_bytes[proof_end + 3],
    );
    let mut offset: usize = proof_end + 4;
    let ghost first: int = offset as int;
    let mut public_inputs: Vec<String> = Vec::new();
    let mut done: u32 = 0;
    while done < num_inputs
        invariant
            total == proof_bytes@.len(),
            done <= num_inputs,
            decode_proof(proof_bytes@) == (match decode_inputs(
                proof_bytes@,
                first,
                num_inputs as nat,
            ) {
                Some(inputs) => Some(
                    NoirProofView { proof_bytes: proof_data@, public_inputs: inputs },
                ),
                None => None,
            }),
            offset <= total,
            decode_inputs(proof_bytes@, first, num_inputs as nat) == (match decode_inputs(
                proof_bytes@,
                offset as int,
                (num_inputs - done) as nat,
            ) {
                Some(rest) => Some(strings_view(public_inputs@) + rest),
                None => None,
            }),
        decreases num_inputs - done,
    {
        if total - offset < 4 {
            return Err(());
        }
        let input_len: u32 = le_u32(
            proof_bytes[offset],
            proof_bytes[offset + 1],
            proof_bytes[offset + 2],
            proof_bytes[offset + 3],
        );
        let start: usize = offset + 4;
        if ((total - start) as u64) < (input_len as u64) {
            return Err(());
        }
        let end: usize = start + input_len as usize;
        let text: String = match utf8_text(slice_subrange(proof_bytes, start, end)) {
            Some(s) => s.to_owned(),
            None => {
                return Err(());
            },
        };
        proof {
            let rest = decode_inputs(proof_bytes@, end as int, (num_inputs - done - 1) as nat);
            if rest is Some {
                assert(strings_view(public_inputs@.push(text)) + rest->Some_0 =~= strings_view(
                    public_inputs@,
                ) + (seq![text@] + rest->Some_0));
            }
        }
        public_inputs.push(text);
        offset = end;
        done += 1;
    }
    assert(strings_view(public_inputs@) + Seq::<Seq<char>>::empty() =~= strings_view(
        public_inputs@,
    ));
    Ok(NoirProof { proof_bytes: proof_data, public_inputs })
}

} // verus!
