//! The numeric tensor runtime that the encoder computes with.
//!
//! The encoder never looks inside a tensor. It decides which operation is
//! applied to which value and in which order; the operations themselves are
//! those of a runtime. What a runtime hands back is described by relations
//! between the arguments of a call and its result, so that every statement
//! made about the encoder holds for every runtime.

use crate::config::{Activation, AlbertConfig};
use crate::path::{ParamPath, Segment};
use vstd::prelude::*;

verus! {

/// A tensor runtime together with a self-attention component.
///
/// No operation promises anything about its result, and each accepts every
/// argument: an implementation is free in what it computes.
pub trait TensorRuntime {
    type Tensor;

    type Linear;

    type LayerNorm;

    type Attention;

    /// Registers an affine map from `in_dim` to `out_dim` features under `path`.
    fn linear(&self, path: &ParamPath, in_dim: i64, out_dim: i64) -> Self::Linear;

    /// Registers a layer normalization over the last `size` features under
    /// `path`, with the epsilon given as a binary64 bit pattern.
    fn layer_norm(&self, path: &ParamPath, size: i64, eps_bits: u64) -> Self::LayerNorm;

    /// Registers a self-attention component under `path`.
    fn attention(&self, path: &ParamPath, config: &AlbertConfig) -> Self::Attention;

    /// Applies an affine map.
    fn project(&self, layer: &Self::Linear, input: &Self::Tensor) -> Self::Tensor;

    /// Applies a layer normalization.
    fn normalize(&self, layer: &Self::LayerNorm, input: &Self::Tensor) -> Self::Tensor;

    /// Runs self-attention; returns the updated hidden states and, where the
    /// component produces them, the attention weights.
    fn attend(
        &self,
        attention: &Self::Attention,
        hidden_states: &Self::Tensor,
        mask: &Option<Self::Tensor>,
        train: bool,
    ) -> (Self::Tensor, Option<Self::Tensor>);

    /// Applies an activation element by element.
    fn activate(&self, kind: Activation, input: &Self::Tensor) -> Self::Tensor;

    /// Adds two tensors element by element.
    fn add(&self, left: &Self::Tensor, right: &Self::Tensor) -> Self::Tensor;

    /// Copies a tensor.
    fn copy(&self, input: &Self::Tensor) -> Self::Tensor;
}

/// `layer` may come back from registering an affine map under `path`.
pub open spec fn linear_made<R: TensorRuntime>(
    rt: &R,
    path: Seq<Segment>,
    in_dim: i64,
    out_dim: i64,
    layer: R::Linear,
) -> bool {
    exists|p: ParamPath|
        p@ == path && #[trigger] call_ensures(R::linear, (rt, &p, in_dim, out_dim), layer)
}

/// `layer` may come back from registering a layer normalization under `path`.
pub open spec fn layer_norm_made<R: TensorRuntime>(
    rt: &R,
    path: Seq<Segment>,
    size: i64,
    eps_bits: u64,
    layer: R::LayerNorm,
) -> bool {
    exists|p: ParamPath|
        p@ == path && #[trigger] call_ensures(R::layer_norm, (rt, &p, size, eps_bits), layer)
}

/// `attention` may come back from registering self-attention under `path`.
pub open spec fn attention_made<R: TensorRuntime>(
    rt: &R,
    path: Seq<Segment>,
    config: AlbertConfig,
    attention: R::Attention,
) -> bool {
    exists|p: ParamPath|
        p@ == path && #[trigger] call_ensures(R::attention, (rt, &p, &config), attention)
}

/// `output` may come back from applying `layer` to `input`.
pub open spec fn projected<R: TensorRuntime>(
    rt: &R,
    layer: R::Linear,
    input: R::Tensor,
    output: R::Tensor,
) -> bool {
    call_ensures(R::project, (rt, &layer, &input), output)
}

/// `output` may come back from normalizing `input` with `layer`.
pub open spec fn normalized<R: TensorRuntime>(
    rt: &R,
    layer: R::LayerNorm,
    input: R::Tensor,
    output: R::Tensor,
) -> bool {
    call_ensures(R::normalize, (rt, &layer, &input), output)
}

/// `output` may come back from self-attention over `hidden_states`.
pub open spec fn attended<R: TensorRuntime>(
    rt: &R,
    attention: R::Attention,
    hidden_states: R::Tensor,
    mask: Option<R::Tensor>,
    train: bool,
    output: (R::Tensor, Option<R::Tensor>),
) -> bool {
    call_ensures(R::attend, (rt, &attention, &hidden_states, &mask, train), output)
}

/// `output` may come back from applying the activation `kind` to `input`.
pub open spec fn activated<R: TensorRuntime>(
    rt: &R,
    kind: Activation,
    input: R::Tensor,
    output: R::Tensor,
) -> bool {
    call_ensures(R::activate, (rt, kind, &input), output)
}

/// `output` may come back from adding `left` and `right`.
pub open spec fn added<R: TensorRuntime>(
    rt: &R,
    left: R::Tensor,
    right: R::Tensor,
    output: R::Tensor,
) -> bool {
    call_ensures(R::add, (rt, &left, &right), output)
}

/// `output` may come back from copying `input`.
pub open spec fn copied<R: TensorRuntime>(rt: &R, input: R::Tensor, output: R::Tensor) -> bool {
    call_ensures(R::copy, (rt, &input), output)
}

} // verus!
