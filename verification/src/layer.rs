//! One transformer block: self-attention, then a feed-forward sub-layer with
//! a residual connection and a layer normalization.

use crate::config::{Activation, AlbertConfig};
use crate::path::{ParamPath, Segment};
use crate::runtime::{activated, added, attended, attention_made, layer_norm_made, linear_made};
use crate::runtime::{normalized, projected, TensorRuntime};
use vstd::prelude::*;

verus! {

/// A transformer block and the parameters it owns.
pub struct AlbertLayer<R: TensorRuntime> {
    attention: R::Attention,
    full_layer_layer_norm: R::LayerNorm,
    ffn: R::Linear,
    ffn_output: R::Linear,
    activation: Activation,
}

/// The values that one pass through a block goes through, in order.
pub struct BlockTrace<T> {
    /// Hidden states after self-attention.
    pub attention_output: T,
    /// Attention weights, as self-attention returned them.
    pub attention_weights: Option<T>,
    /// After the projection to the intermediate size.
    pub expanded: T,
    /// After the activation.
    pub activated: T,
    /// After the projection back to the hidden size.
    pub contracted: T,
    /// After the residual connection.
    pub summed: T,
    /// After the layer normalization.
    pub output: T,
}

impl<R: TensorRuntime> AlbertLayer<R> {
    /// The self-attention component of the block.
    pub closed spec fn attention(&self) -> R::Attention {
        self.attention
    }

    /// The normalization applied to the sum of the residual connection.
    pub closed spec fn full_layer_layer_norm(&self) -> R::LayerNorm {
        self.full_layer_layer_norm
    }

    /// The projection from the hidden size to the intermediate size.
    pub closed spec fn ffn(&self) -> R::Linear {
        self.ffn
    }

    /// The projection from the intermediate size back to the hidden size.
    pub closed spec fn ffn_output(&self) -> R::Linear {
        self.ffn_output
    }

    /// The activation applied between the two projections.
    pub closed spec fn activation(&self) -> Activation {
        self.activation
    }

    /// The block was registered under `path` for `config`: each component
    /// under its own name, with the sizes and the activation that the
    /// configuration gives.
    pub open spec fn built(&self, rt: &R, path: Seq<Segment>, config: AlbertConfig) -> bool {
        &&& attention_made(rt, path.push(Segment::Name("attention")), config, self.attention())
        &&& layer_norm_made(
            rt,
            path.push(Segment::Name("full_layer_layer_norm")),
            config.hidden_size,
            config.eps_bits(),
            self.full_layer_layer_norm(),
        )
        &&& linear_made(
            rt,
            path.push(Segment::Name("ffn")),
            config.hidden_size,
            config.intermediate_size,
            self.ffn(),
        )
        &&& linear_made(
            rt,
            path.push(Segment::Name("ffn_output")),
            config.intermediate_size,
            config.hidden_size,
            self.ffn_output(),
        )
        &&& self.activation() == config.hidden_act
    }

    /// `trace` is a pass through this block from `input`: self-attention, the
    /// two projections with the activation between them, the sum with the
    /// attention output, and the normalization of that sum.
    pub open spec fn steps(
        &self,
        rt: &R,
        input: R::Tensor,
        mask: Option<R::Tensor>,
        train: bool,
        trace: BlockTrace<R::Tensor>,
    ) -> bool {
        &&& attended(
            rt,
            self.attention(),
            input,
            mask,
            train,
            (trace.attention_output, trace.attention_weights),
        )
        &&& projected(rt, self.ffn(), trace.attention_output, trace.expanded)
        &&& activated(rt, self.activation(), trace.expanded, trace.activated)
        &&& projected(rt, self.ffn_output(), trace.activated, trace.contracted)
        &&& added(rt, trace.contracted, trace.attention_output, trace.summed)
        &&& normalized(rt, self.full_layer_layer_norm(), trace.summed, trace.output)
    }

    /// `output` may come back from a pass through this block from `input`.
    pub open spec fn forward(
        &self,
        rt: &R,
        input: R::Tensor,
        mask: Option<R::Tensor>,
        train: bool,
        output: (R::Tensor, Option<R::Tensor>),
    ) -> bool {
        exists|trace: BlockTrace<R::Tensor>| #[trigger]
            self.steps(rt, input, mask, train, trace) && output == (
                trace.output,
                trace.attention_weights,
            )
    }

    /// The attention weights that a pass returns are those that its
    /// self-attention produced from the input of the pass.
    pub proof fn lemma_weights_pass_through(
        &self,
        rt: &R,
        input: R::Tensor,
        mask: Option<R::Tensor>,
        train: bool,
        output: (R::Tensor, Option<R::Tensor>),
    )
        requires
            self.forward(rt, input, mask, train, output),
        ensures
            exists|attention_output: R::Tensor| #[trigger]
                attended(rt, self.attention(), input, mask, train, (attention_output, output.1)),
    {
        let trace = choose|trace: BlockTrace<R::Tensor>| #[trigger]
            self.steps(rt, input, mask, train, trace) && output == (
                trace.output,
                trace.attention_weights,
            );
        assert(attended(
            rt,
            self.attention(),
            input,
            mask,
            train,
            (trace.attention_output, output.1),
        ));
    }

    /// Where whatever the output projection returns adds nothing to a sum,
    /// the block returns the normalized output of its self-attention: the
    /// residual connection carries the attention output, not the input of the
    /// block.
    pub proof fn lemma_neutral_branch(
        &self,
        rt: &R,
        input: R::Tensor,
        mask: Option<R::Tensor>,
        train: bool,
        output: (R::Tensor, Option<R::Tensor>),
    )
        requires
            self.forward(rt, input, mask, train, output),
            forall|x: R::Tensor, branch: R::Tensor, kept: R::Tensor, sum: R::Tensor|
                #![trigger projected(rt, self.ffn_output(), x, branch), added(rt, branch, kept, sum)]
                projected(rt, self.ffn_output(), x, branch) && added(rt, branch, kept, sum)
                    ==> sum == kept,
        ensures
            exists|attention_output: R::Tensor|
                {
                    &&& #[trigger] attended(
                        rt,
                        self.attention(),
                        input,
                        mask,
                        train,
                        (attention_output, output.1),
                    )
                    &&& normalized(
                        rt,
                        self.full_layer_layer_norm(),
                        attention_output,
                        output.0,
                    )
                },
    {
        let trace = choose|trace: BlockTrace<R::Tensor>| #[trigger]
            self.steps(rt, input, mask, train, trace) && output == (
                trace.output,
                trace.attention_weights,
            );
        assert(attended(
            rt,
            self.attention(),
            input,
            mask,
            train,
            (trace.attention_output, output.1),
        ));
    }

    /// Registers a block under `p`.
    pub fn new(rt: &R, p: &ParamPath, config: &AlbertConfig) -> (layer: AlbertLayer<R>)
        ensures
            layer.built(rt, p@, *config),
    {
        let attention_path = p.child("attention");
        let attention = rt.attention(&attention_path, config);

        let layer_norm_eps: u64 = config.layer_norm_eps_bits();
        let norm_path = p.child("full_layer_layer_norm");
        let full_layer_layer_norm = rt.layer_norm(&norm_path, config.hidden_size, layer_norm_eps);

        let ffn_path = p.child("ffn");
        let ffn = rt.linear(&ffn_path, config.hidden_size, config.intermediate_size);
        let ffn_output_path = p.child("ffn_output");
        let ffn_output = rt.linear(
            &ffn_output_path,
            config.intermediate_size,
            config.hidden_size,
        );

        let activation = config.hidden_act;

        AlbertLayer { attention, full_layer_layer_norm, ffn, ffn_output, activation }
    }

    /// Runs the block on `hidden_states`; returns the new hidden states and
    /// the attention weights of its self-attention.
    pub fn forward_t(
        &self,
        rt: &R,
        hidden_states: &R::Tensor,
        mask: &Option<R::Tensor>,
        train: bool,
    ) -> (output: (R::Tensor, Option<R::Tensor>))
        ensures
            self.forward(rt, *hidden_states, *mask, train, output),
    {
        let (attention_output, attention_weights) = rt.attend(
            &self.attention,
            hidden_states,
            mask,
            train,
        );
        let expanded = rt.project(&self.ffn, &attention_output);
        let activated = rt.activate(self.activation, &expanded);
        let contracted = rt.project(&self.ffn_output, &activated);
        let summed = rt.add(&contracted, &attention_output);
        let output = rt.normalize(&self.full_layer_layer_norm, &summed);
        proof {
            let trace = BlockTrace {
                attention_output,
                attention_weights,
                expanded,
                activated,
                contracted,
                summed,
                output,
            };
            assert(self.steps(rt, *hidden_states, *mask, train, trace));
        }
        (output, attention_weights)
    }
}

} // verus!
