//! The mathematical description of the derivation.

use crate::mac::hmac_sha256;
use vstd::prelude::*;

verus! {

/// The salt that stands in when the caller supplies none: 32 zero bytes.
pub open spec fn zero_salt() -> Seq<u8> {
    Seq::new(32, |i: int| 0u8)
}

/// Number of 32-byte blocks needed to cover `len` output bytes.
pub open spec fn blocks_for(len: nat) -> nat {
    (len + 31) / 32
}

/// The counter byte of block `index` for an engine that starts counting at
/// `offset`.
pub open spec fn counter_byte(offset: u8, index: nat) -> u8 {
    (index + offset) as u8
}

/// The byte string that is authenticated to produce one block: the previous
/// block (empty for the first block), the label, and the counter byte.
pub open spec fn block_message(previous: Seq<u8>, info: Seq<u8>, counter: u8) -> Seq<u8> {
    previous + info + seq![counter]
}

/// Extract: the pseudorandom key is the code of the input key material under
/// the salt.
pub open spec fn extract(salt: Seq<u8>, input_key_material: Seq<u8>) -> [u8; 32] {
    hmac_sha256(salt, input_key_material)
}

/// Block `index` of the expansion of `prk` under `info`: the code, under
/// `prk`, of the previous block (nothing for block 0), the label and the
/// counter byte.
pub open spec fn expand_block(prk: Seq<u8>, info: Seq<u8>, offset: u8, index: nat) -> [u8; 32]
    decreases index,
{
    let previous = if index == 0 {
        Seq::<u8>::empty()
    } else {
        expand_block(prk, info, offset, (index - 1) as nat)@
    };
    hmac_sha256(prk, block_message(previous, info, counter_byte(offset, index)))
}

/// Byte `position` of the unbounded output stream: the blocks laid end to
/// end.
pub open spec fn stream_byte(prk: Seq<u8>, info: Seq<u8>, offset: u8, position: int) -> u8 {
    expand_block(prk, info, offset, (position / 32) as nat)@[position % 32]
}

/// Expand: the first `len` bytes of the output stream.
pub open spec fn expand(prk: Seq<u8>, info: Seq<u8>, offset: u8, len: nat) -> Seq<u8> {
    Seq::new(len, |position: int| stream_byte(prk, info, offset, position))
}

/// The first `count` blocks laid end to end.
pub open spec fn concat_blocks(prk: Seq<u8>, info: Seq<u8>, offset: u8, count: nat) -> Seq<u8>
    decreases count,
{
    if count == 0 {
        Seq::<u8>::empty()
    } else {
        concat_blocks(prk, info, offset, (count - 1) as nat) + expand_block(
            prk,
            info,
            offset,
            (count - 1) as nat,
        )@
    }
}

/// The whole derivation: extract, then expand.
pub open spec fn derive(
    offset: u8,
    input_key_material: Seq<u8>,
    salt: Seq<u8>,
    info: Seq<u8>,
    len: nat,
) -> Seq<u8> {
    expand(extract(salt, input_key_material)@, info, offset, len)
}

} // verus!
