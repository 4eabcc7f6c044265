//! The payload that an anchoring transaction carries in its last output.

use vstd::prelude::*;
use vstd::bytes::{
    lemma_auto_spec_u64_to_from_le_bytes, spec_u64_from_le_bytes, spec_u64_to_le_bytes,
    u64_from_le_bytes, u64_to_le_bytes,
};
use crate::bytes::append_bytes;
use crate::config::Height;

verus! {

/// The first byte of a payload: `E`.
pub const PAYLOAD_MARKER: u8 = 0x45;

/// The version of the payload format.
pub const PAYLOAD_VERSION: u8 = 1;

/// The opcode that makes an output unspendable and lets data follow.
pub const OP_RETURN: u8 = 0x6a;

/// The length of a payload: marker, version, height and hash.
pub const PAYLOAD_LEN: usize = 42;

/// What an anchoring transaction anchors: a height of the host blockchain
/// and the hash of the block at that height.
#[derive(Clone, Copy, Debug)]
pub struct Payload {
    pub block_height: Height,
    pub block_hash: crate::crypto::Hash,
}

/// The value of a [`Payload`].
pub struct PayloadView {
    pub block_height: u64,
    pub block_hash: Seq<u8>,
}

impl View for Payload {
    type V = PayloadView;

    open spec fn view(&self) -> PayloadView {
        PayloadView { block_height: self.block_height.0, block_hash: self.block_hash@ }
    }
}

/// The bytes of a payload: the marker, the version, the height in eight
/// bytes with the lowest first, and the 32 bytes of the hash.
pub open spec fn payload_bytes(payload: PayloadView) -> Seq<u8> {
    seq![PAYLOAD_MARKER, PAYLOAD_VERSION] + spec_u64_to_le_bytes(payload.block_height)
        + payload.block_hash
}

/// The output script that carries a payload: `OP_RETURN` and one push of
/// the payload's bytes.
pub open spec fn payload_script(payload: PayloadView) -> Seq<u8> {
    seq![OP_RETURN, PAYLOAD_LEN as u8] + payload_bytes(payload)
}

/// Reads the payload that an output script carries, if it carries one.
pub open spec fn parse_payload_script(script: Seq<u8>) -> Option<PayloadView> {
    if script.len() == PAYLOAD_LEN + 2 && script[0] == OP_RETURN && script[1] == PAYLOAD_LEN as u8
        && script[2] == PAYLOAD_MARKER && script[3] == PAYLOAD_VERSION {
        Some(
            PayloadView {
                block_height: spec_u64_from_le_bytes(script.subrange(4, 12)),
                block_hash: script.subrange(12, 44),
            },
        )
    } else {
        None
    }
}

/// Reading the script of a payload gives the payload back.
pub proof fn lemma_payload_round_trip(payload: PayloadView)
    requires
        payload.block_hash.len() == 32,
    ensures
        payload_script(payload).len() == PAYLOAD_LEN + 2,
        parse_payload_script(payload_script(payload)) == Some(payload),
{
    let script = payload_script(payload);
    lemma_auto_spec_u64_to_from_le_bytes();
    assert(script.subrange(4, 12) =~= spec_u64_to_le_bytes(payload.block_height));
    assert(script.subrange(12, 44) =~= payload.block_hash);
}

impl Payload {
    /// The output script that carries this payload.
    pub fn to_script(&self) -> (script: Vec<u8>)
        ensures
            script@ == payload_script(self@),
            script@.len() == PAYLOAD_LEN + 2,
            parse_payload_script(script@) == Some(self@),
    {
        let mut script: Vec<u8> = Vec::new();
        script.push(OP_RETURN);
        script.push(PAYLOAD_LEN as u8);
        script.push(PAYLOAD_MARKER);
        script.push(PAYLOAD_VERSION);
        let height = u64_to_le_bytes(self.block_height.0);
        append_bytes(&mut script, &height);
        let ghost with_height = script@;
        let mut k: usize = 0;
        while k < 32
            invariant
                k <= 32,
                script@ == with_height + self.block_hash.0@.subrange(0, k as int),
            decreases 32 - k,
        {
            script.push(self.block_hash.0[k]);
            assert(script@ =~= with_height + self.block_hash.0@.subrange(0, k + 1));
            k = k + 1;
        }
        proof {
            assert(self.block_hash.0@.subrange(0, 32) =~= self.block_hash.0@);
            assert(script@ =~= payload_script(self@));
            lemma_payload_round_trip(self@);
        }
        script
    }

    /// Reads the payload that an output script carries.
    pub fn from_script(script: &Vec<u8>) -> (payload: Option<Payload>)
        ensures
            payload is Some <==> parse_payload_script(script@) is Some,
            payload matches Some(p) ==> parse_payload_script(script@) == Some(p@),
    {
        if script.len() != PAYLOAD_LEN + 2 || script[0] != OP_RETURN || script[1]
            != PAYLOAD_LEN as u8 || script[2] != PAYLOAD_MARKER || script[3] != PAYLOAD_VERSION {
            return None;
        }
        let mut digits: Vec<u8> = Vec::new();
        let mut i: usize = 0;
        while i < 8
            invariant
                i <= 8,
                script@.len() == PAYLOAD_LEN + 2,
                digits@ == script@.subrange(4, 4 + i),
            decreases 8 - i,
        {
            digits.push(script[4 + i]);
            assert(digits@ =~= script@.subrange(4, 4 + i + 1));
            i = i + 1;
        }
        let height = u64_from_le_bytes(digits.as_slice());
        let mut hash: [u8; 32] = [0u8; 32];
        let mut k: usize = 0;
        while k < 32
            invariant
                k <= 32,
                script@.len() == PAYLOAD_LEN + 2,
                forall|j: int| 0 <= j < k ==> hash@[j] == script@[12 + j],
            decreases 32 - k,
        {
            hash[k] = script[12 + k];
            k = k + 1;
        }
        assert(hash@ =~= script@.subrange(12, 44));
        Some(Payload { block_height: Height(height), block_hash: crate::crypto::Hash(hash) })
    }
}

} // verus!
