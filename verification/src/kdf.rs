//! The derivation engine.

use crate::error::HKDFError;
use crate::mac::{hmac_sha256_code, into_boxed_bytes, HASH_OUTPUT_SIZE};
use crate::model;
use vstd::slice::slice_subrange;
use vstd::prelude::*;

verus! {

/// A derivation engine for one protocol message version.
///
/// The engine holds nothing but the value its block counter starts from.
#[derive(Clone, Copy, Debug)]
pub struct HKDF {
    iteration_start_offset: u8,
}

/// The counter start of each supported message version: version 2 counts
/// from 0, version 3 from 1, and no other version is supported.
pub open spec fn version_offset(message_version: u32) -> Option<u8> {
    if message_version == 2 {
        Some(0u8)
    } else if message_version == 3 {
        Some(1u8)
    } else {
        None
    }
}

/// Builds the byte string that is authenticated to produce one block of
/// output: `previous` (the block before it, empty for the first block), then
/// `info`, then the counter byte.
pub fn block_message(previous: &[u8], info: &[u8], counter: u8) -> (message: Vec<u8>)
    ensures
        message@ == model::block_message(previous@, info@, counter),
{
    let mut message: Vec<u8> = Vec::new();
    message.extend_from_slice(previous);
    message.extend_from_slice(info);
    message.push(counter);
    assert(message@ =~= model::block_message(previous@, info@, counter));
    message
}

/// The number of 32-byte blocks that cover `output_length` bytes: the
/// length divided by 32, rounded up.
pub fn block_count(output_length: usize) -> (count: usize)
    ensures
        count == model::blocks_for(output_length as nat),
        count * 32 >= output_length,
        output_length > 0 ==> (count - 1) * 32 < output_length,
{
    let whole: usize = output_length / HASH_OUTPUT_SIZE;
    if output_length % HASH_OUTPUT_SIZE == 0 {
        whole
    } else {
        whole + 1
    }
}

impl HKDF {
    #[verifier::type_invariant]
    spec fn well_formed(self) -> bool {
        self.iteration_start_offset <= 1
    }

    /// The value the block counter starts from.
    pub closed spec fn spec_offset(self) -> u8 {
        self.iteration_start_offset
    }

    /// The longest output the engine can produce: every block's counter must
    /// fit in one byte.
    pub open spec fn spec_max_output_length(self) -> nat {
        (32 * (256 - self.spec_offset())) as nat
    }

    /// What `derive_salted_secrets` returns: the first `output_length` bytes
    /// of the expansion, under `info`, of the key extracted from
    /// `input_key_material` with `salt`.
    pub open spec fn spec_derive_salted(
        self,
        input_key_material: Seq<u8>,
        salt: Seq<u8>,
        info: Seq<u8>,
        output_length: nat,
    ) -> Seq<u8> {
        model::derive(self.spec_offset(), input_key_material, salt, info, output_length)
    }

    /// Builds the engine for a message version, or reports the version as
    /// unrecognized.
    pub fn new(message_version: u32) -> (made: Result<Self, HKDFError>)
        ensures
            match made {
                Ok(engine) => version_offset(message_version) == Some(engine.spec_offset()),
                Err(error) => version_offset(message_version).is_none()
                    && error == HKDFError::UnrecognizedMessageVersion(message_version),
            },
    {
        match message_version {
            2 => Ok(HKDF { iteration_start_offset: 0 }),
            3 => Ok(HKDF { iteration_start_offset: 1 }),
            _ => Err(HKDFError::UnrecognizedMessageVersion(message_version)),
        }
    }

    /// The longest output this engine can be asked for.
    pub fn max_output_length(self) -> (max: usize)
        ensures
            max == self.spec_max_output_length(),
            max == 8192 || max == 8160,
    {
        proof {
            use_type_invariant(self);
        }
        let counters: usize = 256 - (self.iteration_start_offset as usize);
        HASH_OUTPUT_SIZE * counters
    }

    /// The counter byte of block `index`.
    pub fn counter_byte(self, index: usize) -> (counter: u8)
        requires
            index + self.spec_offset() <= 255,
        ensures
            counter == model::counter_byte(self.spec_offset(), index as nat),
            counter == index + self.spec_offset(),
    {
        (index + (self.iteration_start_offset as usize)) as u8
    }

    /// Derives `output_length` bytes from `input_key_material` and `info`
    /// with the default salt of 32 zero bytes.
    pub fn derive_secrets(self, input_key_material: &[u8], info: &[u8], output_length: usize) -> (okm:
        Box<[u8]>)
        requires
            output_length <= self.spec_max_output_length(),
        ensures
            okm@ == self.spec_derive_salted(
                input_key_material@,
                model::zero_salt(),
                info@,
                output_length as nat,
            ),
            okm@.len() == output_length,
    {
        let salt: [u8; 32] = [0u8; 32];
        assert(salt@ =~= model::zero_salt());
        self.derive_salted_secrets(input_key_material, salt.as_slice(), info, output_length)
    }

    /// Derives `output_length` bytes from `input_key_material`, `salt` and
    /// `info`: extract, then expand.
    pub fn derive_salted_secrets(
        self,
        input_key_material: &[u8],
        salt: &[u8],
        info: &[u8],
        output_length: usize,
    ) -> (okm: Box<[u8]>)
        requires
            output_length <= self.spec_max_output_length(),
        ensures
            okm@ == self.spec_derive_salted(
                input_key_material@,
                salt@,
                info@,
                output_length as nat,
            ),
            okm@.len() == output_length,
    {
        let prk = self.extract(salt, input_key_material);
        self.expand(&prk, info, output_length)
    }

    /// Compresses the input key material into the pseudorandom key.
    fn extract(self, salt: &[u8], input_key_material: &[u8]) -> (prk: [u8; 32])
        ensures
            prk == model::extract(salt@, input_key_material@),
    {
        hmac_sha256_code(salt, input_key_material)
    }

    /// Stretches the pseudorandom key into `output_length` bytes bound to
    /// `info`.
    fn expand(self, prk: &[u8; 32], info: &[u8], output_length: usize) -> (okm: Box<[u8]>)
        requires
            output_length <= self.spec_max_output_length(),
        ensures
            okm@ == model::expand(prk@, info@, self.spec_offset(), output_length as nat),
            okm@.len() == output_length,
    {
        proof {
            use_type_invariant(self);
        }
        let iterations: usize = block_count(output_length);
        let mut result: Vec<u8> = Vec::with_capacity(iterations * HASH_OUTPUT_SIZE);
        let mut i: usize = 0;
        while i < iterations
            invariant
                i <= iterations,
                iterations + self.spec_offset() <= 256,
                result@ == model::expand(prk@, info@, self.spec_offset(), (32 * i) as nat),
            decreases iterations - i,
        {
            let filled: usize = result.len();
            let previous: &[u8] = if filled >= HASH_OUTPUT_SIZE {
                slice_subrange(result.as_slice(), filled - HASH_OUTPUT_SIZE, filled)
            } else {
                slice_subrange(result.as_slice(), 0, 0)
            };
            proof {
                if i > 0 {
                    assert(previous@ =~= model::expand_block(
                        prk@,
                        info@,
                        self.spec_offset(),
                        (i - 1) as nat,
                    )@);
                } else {
                    assert(previous@ =~= Seq::<u8>::empty());
                }
            }
            let message = block_message(previous, info, self.counter_byte(i));
            let block = hmac_sha256_code(prk.as_slice(), message.as_slice());
            assert(block == model::expand_block(prk@, info@, self.spec_offset(), i as nat));
            result.extend_from_slice(block.as_slice());
            i += 1;
            assert(result@ =~= model::expand(prk@, info@, self.spec_offset(), (32 * i) as nat));
        }
        result.truncate(output_length);
        assert(result@ =~= model::expand(prk@, info@, self.spec_offset(), output_length as nat));
        into_boxed_bytes(result)
    }
}

} // verus!
