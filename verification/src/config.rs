//! Configuration values read by the encoder stack.

use vstd::prelude::*;

verus! {

/// Bit pattern (IEEE-754 binary64) of `1e-12`, the normalization epsilon used
/// when the configuration gives none.
pub const DEFAULT_LAYER_NORM_EPS_BITS: u64 = 0x3d71_9799_812d_ea11;

/// Element-wise function applied between the two feed-forward projections of
/// a block.
#[derive(Clone, Copy, Debug, PartialEq, Eq, Structural)]
pub enum Activation {
    GeluNew,
    Gelu,
    Relu,
    Mish,
}

/// The configuration fields that the encoder stack consumes.
///
/// The normalization epsilon is carried as the bit pattern of a binary64
/// number, so that the value passes through unchanged.
#[derive(Clone, Copy, Debug, PartialEq, Eq)]
pub struct AlbertConfig {
    pub hidden_size: i64,
    pub embedding_size: i64,
    pub intermediate_size: i64,
    pub inner_group_num: i64,
    pub num_hidden_layers: i64,
    pub num_hidden_groups: i64,
    pub layer_norm_eps: Option<u64>,
    pub hidden_act: Activation,
    pub output_hidden_states: Option<bool>,
    pub output_attentions: Option<bool>,
}

/// A count read from a configuration: a negative value counts nothing.
pub open spec fn count_of(n: i64) -> nat {
    if n > 0 {
        n as nat
    } else {
        0
    }
}

impl AlbertConfig {
    /// Epsilon of the layer normalizations, `1e-12` unless configured.
    pub open spec fn eps_bits(&self) -> u64 {
        match self.layer_norm_eps {
            Some(bits) => bits,
            None => DEFAULT_LAYER_NORM_EPS_BITS,
        }
    }

    /// Whether hidden states are collected; off unless configured.
    pub open spec fn collects_hidden_states(&self) -> bool {
        self.output_hidden_states == Some(true)
    }

    /// Whether attention weights are collected; off unless configured.
    pub open spec fn collects_attentions(&self) -> bool {
        self.output_attentions == Some(true)
    }

    /// Epsilon of the layer normalizations as a bit pattern.
    pub fn layer_norm_eps_bits(&self) -> (bits: u64)
        ensures
            bits == self.eps_bits(),
    {
        match self.layer_norm_eps {
            Some(value) => value,
            None => DEFAULT_LAYER_NORM_EPS_BITS,
        }
    }

    /// Resolves the hidden-state collection flag.
    pub fn hidden_states_requested(&self) -> (on: bool)
        ensures
            on == self.collects_hidden_states(),
    {
        match self.output_hidden_states {
            Some(value) => value,
            None => false,
        }
    }

    /// Resolves the attention collection flag.
    pub fn attentions_requested(&self) -> (on: bool)
        ensures
            on == self.collects_attentions(),
    {
        match self.output_attentions {
            Some(value) => value,
            None => false,
        }
    }
}

} // verus!
