//! The 11-byte configuration-write frame and its encoder.
//!
//! A frame is `[function_code, node_id, param_index, payload_length,
//! payload...]`, padded with zero bytes to exactly 11 bytes. The payload is
//! the minimal big-endian encoding of the parameter value: its significant
//! bytes with every leading zero byte dropped. At most 7 payload bytes fit,
//! so values of `2^56` and above are rejected.

use crate::errors::EncodeError;
use vstd::prelude::*;

verus! {

/// Function code of a configuration-write (CFGW) frame.
pub const FUNCTION_CODE_CFGW: u8 = 0x07;

/// Total length of every frame, in bytes.
pub const FRAME_LEN: usize = 11;

/// Greatest number of payload bytes a frame can carry.
pub const MAX_PAYLOAD_LEN: usize = 7;

/// Least value whose minimal big-endian encoding needs 8 bytes: `2^56`.
pub const MIN_OVERLONG_VALUE: u64 = 0x100_0000_0000_0000;

/// How many significant bytes the big-endian encoding of `v` has.
pub open spec fn sig_len(v: nat) -> nat
    decreases v,
{
    if v == 0 {
        0
    } else {
        1 + sig_len(v / 256)
    }
}

/// The minimal big-endian encoding of `v`: its significant bytes, most
/// significant first, with no leading zero byte. Empty exactly for `v == 0`.
pub open spec fn be_sig_bytes(v: nat) -> Seq<u8>
    decreases v,
{
    if v == 0 {
        seq![]
    } else {
        be_sig_bytes(v / 256).push((v % 256) as u8)
    }
}

/// The value of a big-endian byte sequence.
pub open spec fn be_decode(b: Seq<u8>) -> nat
    decreases b.len(),
{
    if b.len() == 0 {
        0
    } else {
        be_decode(b.drop_last()) * 256 + b.last() as nat
    }
}

/// The frame a successful encode of these fields produces.
pub open spec fn frame_spec(node_id: u8, param_index: u8, param_value: u64) -> Seq<u8> {
    let sig = be_sig_bytes(param_value as nat);
    seq![FUNCTION_CODE_CFGW, node_id, param_index, sig.len() as u8] + sig + Seq::new(
        (7 - sig.len() as int) as nat,
        |i: int| 0u8,
    )
}

/// The minimal encoding has exactly `sig_len(v)` bytes.
pub proof fn lemma_be_sig_bytes_len(v: nat)
    ensures
        be_sig_bytes(v).len() == sig_len(v),
    decreases v,
{
    if v != 0 {
        lemma_be_sig_bytes_len(v / 256);
    }
}

/// Law: decoding the minimal big-endian encoding gives the value back.
pub proof fn lemma_be_decode_sig(v: nat)
    ensures
        be_decode(be_sig_bytes(v)) == v,
    decreases v,
{
    if v != 0 {
        lemma_be_decode_sig(v / 256);
        assert(be_sig_bytes(v).drop_last() =~= be_sig_bytes(v / 256));
    }
}

/// `256^k`.
pub open spec fn pow256(k: nat) -> nat
    decreases k,
{
    if k == 0 {
        1
    } else {
        256 * pow256((k - 1) as nat)
    }
}

/// A value has at most `k` significant bytes exactly when it is below `256^k`.
pub proof fn lemma_sig_len_bound(v: nat, k: nat)
    ensures
        sig_len(v) <= k <==> v < pow256(k),
    decreases k,
{
    assert(v == 256 * (v / 256) + v % 256);
    if k != 0 {
        lemma_sig_len_bound(v / 256, (k - 1) as nat);
    }
}

/// `256^7 == 2^56`, the least value that no frame payload can carry.
pub proof fn lemma_pow256_7()
    ensures
        pow256(7) == MIN_OVERLONG_VALUE,
{
    assert(pow256(0) == 1);
    assert(pow256(1) == 256);
    assert(pow256(2) == 0x1_0000);
    assert(pow256(3) == 0x100_0000);
    assert(pow256(4) == 0x1_0000_0000);
    assert(pow256(5) == 0x100_0000_0000);
    assert(pow256(6) == 0x1_0000_0000_0000);
    assert(pow256(7) == 0x100_0000_0000_0000);
}

/// Law: a successfully encoded frame is exactly 11 bytes long.
pub proof fn lemma_frame_length(node_id: u8, param_index: u8, param_value: u64)
    requires
        param_value < MIN_OVERLONG_VALUE,
    ensures
        frame_spec(node_id, param_index, param_value).len() == FRAME_LEN,
{
    lemma_be_sig_bytes_len(param_value as nat);
    lemma_pow256_7();
    lemma_sig_len_bound(param_value as nat, 7);
}

/// Law: a frame starts with the function code, the node id, the parameter
/// index, and the payload length, in that order.
pub proof fn lemma_frame_header(node_id: u8, param_index: u8, param_value: u64)
    requires
        param_value < MIN_OVERLONG_VALUE,
    ensures
        frame_spec(node_id, param_index, param_value)[0] == FUNCTION_CODE_CFGW,
        frame_spec(node_id, param_index, param_value)[1] == node_id,
        frame_spec(node_id, param_index, param_value)[2] == param_index,
        frame_spec(node_id, param_index, param_value)[3] == sig_len(param_value as nat),
{
    lemma_be_sig_bytes_len(param_value as nat);
    lemma_pow256_7();
    lemma_sig_len_bound(param_value as nat, 7);
}

/// Law: decoding the payload bytes the frame declares gives the parameter
/// value back.
pub proof fn lemma_frame_round_trip(node_id: u8, param_index: u8, param_value: u64)
    requires
        param_value < MIN_OVERLONG_VALUE,
    ensures
        ({
            let f = frame_spec(node_id, param_index, param_value);
            be_decode(f.subrange(4, 4 + f[3])) == param_value
        }),
{
    let f = frame_spec(node_id, param_index, param_value);
    let sig = be_sig_bytes(param_value as nat);
    lemma_frame_header(node_id, param_index, param_value);
    lemma_frame_length(node_id, param_index, param_value);
    assert(f.subrange(4, 4 + sig.len() as int) =~= sig);
    lemma_be_decode_sig(param_value as nat);
}

/// Law: a zero value has an empty payload, and every byte after the header
/// is zero.
pub proof fn lemma_frame_zero_value(node_id: u8, param_index: u8)
    ensures
        frame_spec(node_id, param_index, 0)[3] == 0,
        forall|i: int|
            4 <= i < FRAME_LEN ==> frame_spec(node_id, param_index, 0)[i] == 0,
{
    assert(be_sig_bytes(0) =~= Seq::<u8>::empty());
}

/// Encodes the three fields of a configuration write as an 11-byte frame.
///
/// Fails with `PayloadTooLarge` exactly when the value's minimal big-endian
/// encoding needs more than 7 bytes, that is for values of `2^56` and above.
#[verifier::loop_isolation(false)]
pub fn encode_frame(node_id: u8, param_index: u8, param_value: u64) -> (r: Result<
    Vec<u8>,
    EncodeError,
>)
    ensures
        param_value < MIN_OVERLONG_VALUE ==> r is Ok && r->Ok_0@ == frame_spec(
            node_id,
            param_index,
            param_value,
        ) && r->Ok_0@.len() == FRAME_LEN,
        param_value >= MIN_OVERLONG_VALUE ==> r == Err::<Vec<u8>, EncodeError>(
            EncodeError::PayloadTooLarge,
        ),
{
    let mut sig: Vec<u8> = Vec::new();
    let mut x: u64 = param_value;
    while x != 0
        invariant
            be_sig_bytes(param_value as nat) == be_sig_bytes(x as nat) + sig@,
        decreases x,
    {
        let b: u8 = (x % 256) as u8;
        let ghost old_sig = sig@;
        sig.insert(0, b);
        proof {
            assert(sig@ =~= seq![b] + old_sig);
            assert(be_sig_bytes(x as nat) + old_sig =~= be_sig_bytes((x / 256) as nat) + sig@);
        }
        x = x / 256;
    }
    proof {
        assert(be_sig_bytes(param_value as nat) =~= sig@);
        lemma_be_sig_bytes_len(param_value as nat);
        lemma_pow256_7();
        lemma_sig_len_bound(param_value as nat, 7);
    }
    if sig.len() > MAX_PAYLOAD_LEN {
        return Err(EncodeError::PayloadTooLarge);
    }
    let payload_len: u8 = sig.len() as u8;
    let mut data: Vec<u8> = Vec::new();
    data.push(FUNCTION_CODE_CFGW);
    data.push(node_id);
    data.push(param_index);
    data.push(payload_len);
    let mut j: usize = 0;
    while j < sig.len()
        invariant
            j <= sig.len(),
            data@ == seq![FUNCTION_CODE_CFGW, node_id, param_index, payload_len] + sig@.subrange(
                0,
                j as int,
            ),
        decreases sig.len() - j,
    {
        let b = sig[j];
        data.push(b);
        proof {
            assert(sig@.subrange(0, j + 1) =~= sig@.subrange(0, j as int).push(b));
        }
        j += 1;
    }
    proof {
        assert(sig@.subrange(0, sig@.len() as int) =~= sig@);
    }
    while data.len() < FRAME_LEN
        invariant
            4 + sig@.len() <= data@.len() <= FRAME_LEN,
            data@ == seq![FUNCTION_CODE_CFGW, node_id, param_index, payload_len] + sig@ + Seq::new(
                (data@.len() - 4 - sig@.len()) as nat,
                |i: int| 0u8,
            ),
        decreases FRAME_LEN - data.len(),
    {
        data.push(0x00);
        proof {
            assert(Seq::new((data@.len() - 4 - sig@.len()) as nat, |i: int| 0u8) =~= Seq::new(
                (data@.len() - 5 - sig@.len()) as nat,
                |i: int| 0u8,
            ).push(0u8));
        }
    }
    proof {
        assert(data@ =~= frame_spec(node_id, param_index, param_value));
    }
    Ok(data)
}

} // verus!
