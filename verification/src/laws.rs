//! Properties of the derivation that hold for every input.

use crate::kdf::HKDF;
use crate::model;
use vstd::prelude::*;

verus! {

/// The first `count` blocks laid end to end are the first `32 * count` bytes
/// of the output stream.
pub proof fn lemma_concat_blocks_is_expand(prk: Seq<u8>, info: Seq<u8>, offset: u8, count: nat)
    ensures
        model::concat_blocks(prk, info, offset, count) == model::expand(
            prk,
            info,
            offset,
            32 * count,
        ),
    decreases count,
{
    if count > 0 {
        lemma_concat_blocks_is_expand(prk, info, offset, (count - 1) as nat);
    }
    assert(model::concat_blocks(prk, info, offset, count) =~= model::expand(
        prk,
        info,
        offset,
        32 * count,
    ));
}

/// Expansion produces `ceil(len / 32)` blocks, joins them in order and keeps
/// the first `len` bytes.
pub proof fn lemma_expand_truncates_blocks(prk: Seq<u8>, info: Seq<u8>, offset: u8, len: nat)
    ensures
        model::expand(prk, info, offset, len) == model::concat_blocks(
            prk,
            info,
            offset,
            model::blocks_for(len),
        ).take(len as int),
{
    lemma_concat_blocks_is_expand(prk, info, offset, model::blocks_for(len));
    assert(model::expand(prk, info, offset, len) =~= model::expand(
        prk,
        info,
        offset,
        32 * model::blocks_for(len),
    ).take(len as int));
}

/// Determinism: engines with the same counter start, given the same key
/// material, salt, label and length, derive the same bytes.
pub proof fn lemma_derivation_is_deterministic(
    first: HKDF,
    second: HKDF,
    input_key_material: Seq<u8>,
    salt: Seq<u8>,
    info: Seq<u8>,
    output_length: nat,
)
    requires
        first.spec_offset() == second.spec_offset(),
    ensures
        first.spec_derive_salted(input_key_material, salt, info, output_length)
            == second.spec_derive_salted(input_key_material, salt, info, output_length),
{
}

/// Length correctness: the derived output has exactly the requested length,
/// zero included.
pub proof fn lemma_output_has_requested_length(
    engine: HKDF,
    input_key_material: Seq<u8>,
    salt: Seq<u8>,
    info: Seq<u8>,
    output_length: nat,
)
    ensures
        engine.spec_derive_salted(input_key_material, salt, info, output_length).len()
            == output_length,
        output_length == 0 ==> engine.spec_derive_salted(
            input_key_material,
            salt,
            info,
            output_length,
        ) == Seq::<u8>::empty(),
{
    assert(engine.spec_derive_salted(input_key_material, salt, info, 0) =~= Seq::<u8>::empty());
}

/// Prefix property: the output of length `shorter` is the first `shorter`
/// bytes of the output of length `shorter + extra`, all else being equal.
pub proof fn lemma_shorter_output_is_prefix(
    engine: HKDF,
    input_key_material: Seq<u8>,
    salt: Seq<u8>,
    info: Seq<u8>,
    shorter: nat,
    extra: nat,
)
    ensures
        engine.spec_derive_salted(input_key_material, salt, info, shorter)
            == engine.spec_derive_salted(input_key_material, salt, info, shorter + extra).take(
            shorter as int,
        ),
        engine.spec_derive_salted(input_key_material, salt, info, shorter).is_prefix_of(
            engine.spec_derive_salted(input_key_material, salt, info, shorter + extra),
        ),
{
    let short = engine.spec_derive_salted(input_key_material, salt, info, shorter);
    let long = engine.spec_derive_salted(input_key_material, salt, info, shorter + extra);
    assert(short =~= long.take(shorter as int));
}

/// The default salt is 32 zero bytes.
pub proof fn lemma_zero_salt()
    ensures
        model::zero_salt().len() == 32,
        forall|i: int| 0 <= i < 32 ==> model::zero_salt()[i] == 0u8,
{
}

/// Engines that start counting from different values never authenticate the
/// same message for a block: whatever the previous blocks were, the messages
/// for block `index` end in different counter bytes.
pub proof fn lemma_versions_authenticate_distinct_messages(
    first: HKDF,
    second: HKDF,
    previous_first: Seq<u8>,
    previous_second: Seq<u8>,
    info: Seq<u8>,
    index: nat,
)
    requires
        first.spec_offset() != second.spec_offset(),
        index + first.spec_offset() <= 255,
        index + second.spec_offset() <= 255,
    ensures
        model::block_message(
            previous_first,
            info,
            model::counter_byte(first.spec_offset(), index),
        ) != model::block_message(
            previous_second,
            info,
            model::counter_byte(second.spec_offset(), index),
        ),
{
    let one = model::block_message(
        previous_first,
        info,
        model::counter_byte(first.spec_offset(), index),
    );
    let two = model::block_message(
        previous_second,
        info,
        model::counter_byte(second.spec_offset(), index),
    );
    assert(one.last() == model::counter_byte(first.spec_offset(), index));
    assert(two.last() == model::counter_byte(second.spec_offset(), index));
}

/// Version isolation, as far as it holds of a keyed hash: two engines derive
/// different outputs of length `output_length` whenever their output streams
/// differ at some position below that length. Engines with different counter
/// starts authenticate different messages for every block, so their streams
/// agree at a position only where the hash collides.
pub proof fn lemma_versions_differ_where_streams_differ(
    first: HKDF,
    second: HKDF,
    input_key_material: Seq<u8>,
    salt: Seq<u8>,
    info: Seq<u8>,
    output_length: nat,
    position: int,
)
    requires
        0 <= position < output_length,
        model::stream_byte(
            model::extract(salt, input_key_material)@,
            info,
            first.spec_offset(),
            position,
        ) != model::stream_byte(
            model::extract(salt, input_key_material)@,
            info,
            second.spec_offset(),
            position,
        ),
    ensures
        first.spec_derive_salted(input_key_material, salt, info, output_length)
            != second.spec_derive_salted(input_key_material, salt, info, output_length),
{
    let one = first.spec_derive_salted(input_key_material, salt, info, output_length);
    let two = second.spec_derive_salted(input_key_material, salt, info, output_length);
    let prk = model::extract(salt, input_key_material)@;
    assert(one[position] == model::stream_byte(prk, info, first.spec_offset(), position));
    assert(two[position] == model::stream_byte(prk, info, second.spec_offset(), position));
}

/// The first 32 bytes of the output stream are the code of the label and
/// the engine's counter start under the pseudorandom key; nothing precedes
/// the label in the first block.
pub proof fn lemma_first_block(prk: Seq<u8>, info: Seq<u8>, offset: u8, position: int)
    requires
        0 <= position < 32,
    ensures
        model::stream_byte(prk, info, offset, position) == crate::mac::hmac_sha256(
            prk,
            info + seq![offset],
        )@[position],
{
    assert(model::block_message(Seq::<u8>::empty(), info, model::counter_byte(offset, 0))
        =~= info + seq![offset]);
}

} // verus!
