//! Engine configuration and its validation.

use vstd::prelude::*;

use crate::errors::EngineError;

verus! {

/// The sizes that shape one run of the engine.
///
/// The model dimension is partitioned into three equal chunks for the
/// query, key and value tensors, so it must be divisible by three; every
/// size must be positive.
#[derive(Clone, Copy, Debug, PartialEq, Eq, Structural)]
pub struct EngineConfig {
    /// Number of tokens in a full segment.
    pub segment_size: usize,
    /// Width of one embedded token (the model dimension).
    pub d_model: usize,
    /// Number of rows in the embedding table.
    pub vocab_size: usize,
    /// Number of independent attention heads.
    pub num_heads: usize,
}

impl EngineConfig {
    /// Every size positive, and the model dimension divisible by three so
    /// that the query/key/value partition is exact.
    pub open spec fn valid(self) -> bool {
        &&& self.segment_size >= 1
        &&& self.d_model >= 1
        &&& self.d_model % 3 == 0
        &&& self.vocab_size >= 1
        &&& self.num_heads >= 1
    }

    /// Builds a configuration, rejecting exactly the size combinations that
    /// the engine cannot run: a zero size anywhere, or a model dimension
    /// that three does not divide.
    pub fn new(segment_size: usize, d_model: usize, vocab_size: usize, num_heads: usize) -> (r:
        Result<EngineConfig, EngineError>)
        ensures
            r is Ok <==> (segment_size >= 1 && d_model >= 1 && d_model % 3 == 0 && vocab_size >= 1
                && num_heads >= 1),
            r matches Ok(c) ==> c == (EngineConfig { segment_size, d_model, vocab_size, num_heads })
                && c.valid(),
            r matches Err(e) ==> e is InvalidConfiguration,
    {
        if segment_size >= 1 && d_model >= 1 && d_model % 3 == 0 && vocab_size >= 1 && num_heads
            >= 1 {
            Ok(EngineConfig { segment_size, d_model, vocab_size, num_heads })
        } else {
            Err(EngineError::InvalidConfiguration)
        }
    }

    /// Width of the key subspace of each head: one third of the model
    /// dimension, exactly.
    pub fn d_key(&self) -> (r: usize)
        requires
            self.valid(),
        ensures
            r == self.d_model / 3,
            3 * r == self.d_model,
    {
        self.d_model / 3
    }

    /// Width of the value subspace; the partition is equal, so it matches
    /// the key width.
    pub fn d_value(&self) -> (r: usize)
        requires
            self.valid(),
        ensures
            r == self.d_model / 3,
            3 * r == self.d_model,
    {
        self.d_model / 3
    }
}

} // verus!
