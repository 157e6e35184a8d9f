//! The shape of what a pass returns.
//!
//! A runtime gives each tensor a shape, a sequence of sizes. Where its
//! operations treat shapes as linear algebra wants them to, the stack turns
//! an input whose last size is the embedding size into hidden states of the
//! same shape but for the last size, which is the hidden size.

use crate::config::{Activation, AlbertConfig};
use crate::group::{copies_kept, weights_kept, AlbertLayerGroup, GroupRun};
use crate::layer::{AlbertLayer, BlockTrace};
use crate::path::Segment;
use crate::runtime::{activated, added, attended, attention_made, copied, linear_made};
use crate::runtime::{normalized, projected, TensorRuntime};
use crate::schedule::group_of;
use crate::transformer::{attentions_kept, AlbertTransformer, StackRun};
use vstd::prelude::*;

verus! {

/// `shape` with its last size replaced by `features`.
pub open spec fn with_features(shape: Seq<int>, features: int) -> Seq<int> {
    shape.drop_last().push(features)
}

/// The last size of `shape` is `features`.
pub open spec fn ends_in(shape: Seq<int>, features: int) -> bool {
    shape.len() > 0 && shape.last() == features
}

/// The operations of the runtime treat shapes in the usual way: an affine
/// map replaces the last size, self-attention over hidden states keeps their
/// shape, and so do normalizing, activating, copying and adding tensors of
/// one shape.
pub open spec fn keeps_shapes<R: TensorRuntime>(
    rt: &R,
    shape: spec_fn(R::Tensor) -> Seq<int>,
) -> bool {
    &&& forall|
        path: Seq<Segment>,
        in_dim: i64,
        out_dim: i64,
        layer: R::Linear,
        x: R::Tensor,
        y: R::Tensor,
    |
        #![trigger linear_made(rt, path, in_dim, out_dim, layer), projected(rt, layer, x, y)]
        linear_made(rt, path, in_dim, out_dim, layer) && projected(rt, layer, x, y) && ends_in(
            shape(x),
            in_dim as int,
        ) ==> shape(y) == with_features(shape(x), out_dim as int)
    &&& forall|
        path: Seq<Segment>,
        config: AlbertConfig,
        attention: R::Attention,
        x: R::Tensor,
        mask: Option<R::Tensor>,
        train: bool,
        y: (R::Tensor, Option<R::Tensor>),
    |
        #![trigger attention_made(rt, path, config, attention), attended(rt, attention, x, mask, train, y)]
        attention_made(rt, path, config, attention) && attended(rt, attention, x, mask, train, y)
            && ends_in(shape(x), config.hidden_size as int) ==> shape(y.0) == shape(x)
    &&& forall|layer: R::LayerNorm, x: R::Tensor, y: R::Tensor| #[trigger]
        normalized(rt, layer, x, y) ==> shape(y) == shape(x)
    &&& forall|kind: Activation, x: R::Tensor, y: R::Tensor| #[trigger]
        activated(rt, kind, x, y) ==> shape(y) == shape(x)
    &&& forall|x: R::Tensor, y: R::Tensor| #[trigger] copied(rt, x, y) ==> shape(y) == shape(x)
    &&& forall|a: R::Tensor, b: R::Tensor, y: R::Tensor| #[trigger]
        added(rt, a, b, y) && shape(a) == shape(b) ==> shape(y) == shape(a)
}

/// A block registered for `config` returns hidden states of the shape of its
/// input.
pub proof fn lemma_block_keeps_shape<R: TensorRuntime>(
    rt: &R,
    shape: spec_fn(R::Tensor) -> Seq<int>,
    block: AlbertLayer<R>,
    path: Seq<Segment>,
    config: AlbertConfig,
    input: R::Tensor,
    mask: Option<R::Tensor>,
    train: bool,
    output: (R::Tensor, Option<R::Tensor>),
)
    requires
        keeps_shapes(rt, shape),
        block.built(rt, path, config),
        ends_in(shape(input), config.hidden_size as int),
        block.forward(rt, input, mask, train, output),
    ensures
        shape(output.0) == shape(input),
{
    let t = choose|t: BlockTrace<R::Tensor>| #[trigger]
        block.steps(rt, input, mask, train, t) && output == (t.output, t.attention_weights);
    assert(shape(t.contracted) =~= shape(input));
}

/// Every hidden state of a pass through a group registered for `config` has
/// the shape of the input.
proof fn lemma_group_states_keep_shape<R: TensorRuntime>(
    rt: &R,
    shape: spec_fn(R::Tensor) -> Seq<int>,
    group: AlbertLayerGroup<R>,
    path: Seq<Segment>,
    config: AlbertConfig,
    input: R::Tensor,
    mask: Option<R::Tensor>,
    train: bool,
    run: GroupRun<R::Tensor>,
    upto: int,
)
    requires
        keeps_shapes(rt, shape),
        group.built(rt, path, config),
        ends_in(shape(input), config.hidden_size as int),
        group.steps(rt, input, mask, train, run),
        0 <= upto <= group.layers().len(),
    ensures
        shape(run.states[upto]) == shape(input),
    decreases upto,
{
    if upto > 0 {
        let j = upto - 1;
        lemma_group_states_keep_shape(rt, shape, group, path, config, input, mask, train, run, j);
        let block = group.layers()[j];
        lemma_block_keeps_shape(
            rt,
            shape,
            block,
            path.push(Segment::Name("albert_layers")).push(Segment::Index(j as i64)),
            config,
            run.states[j],
            mask,
            train,
            (run.states[j + 1], run.weights[j]),
        );
    }
}

/// A group registered for `config` returns hidden states of the shape of
/// its input, and so is every hidden state that it collects.
pub proof fn lemma_group_keeps_shape<R: TensorRuntime>(
    rt: &R,
    shape: spec_fn(R::Tensor) -> Seq<int>,
    group: AlbertLayerGroup<R>,
    path: Seq<Segment>,
    config: AlbertConfig,
    input: R::Tensor,
    mask: Option<R::Tensor>,
    train: bool,
    output: (R::Tensor, Option<Seq<R::Tensor>>, Option<Seq<R::Tensor>>),
)
    requires
        keeps_shapes(rt, shape),
        group.built(rt, path, config),
        ends_in(shape(input), config.hidden_size as int),
        group.forward(rt, input, mask, train, output),
    ensures
        shape(output.0) == shape(input),
        output.1 is Some ==> forall|j: int|
            0 <= j < output.1->0.len() ==> shape(#[trigger] output.1->0[j]) == shape(input),
{
    let run = choose|run: GroupRun<R::Tensor>|
        {
            &&& #[trigger] group.steps(rt, input, mask, train, run)
            &&& output.0 == run.states.last()
            &&& copies_kept(rt, group.output_hidden_states(), run.states.drop_last(), output.1)
            &&& weights_kept(rt, group.output_attentions(), run.weights, output.2)
        };
    lemma_group_states_keep_shape(
        rt,
        shape,
        group,
        path,
        config,
        input,
        mask,
        train,
        run,
        group.layers().len() as int,
    );
    if output.1 is Some {
        assert forall|j: int| 0 <= j < output.1->0.len() implies shape(#[trigger] output.1->0[j])
            == shape(input) by {
            lemma_group_states_keep_shape(
                rt,
                shape,
                group,
                path,
                config,
                input,
                mask,
                train,
                run,
                j,
            );
        }
    }
}

/// Every hidden state of a pass through a stack registered for `config` has
/// the shape of the input but for its last size, the hidden size.
proof fn lemma_stack_states_have_shape<R: TensorRuntime>(
    rt: &R,
    shape: spec_fn(R::Tensor) -> Seq<int>,
    stack: AlbertTransformer<R>,
    path: Seq<Segment>,
    config: AlbertConfig,
    input: R::Tensor,
    mask: Option<R::Tensor>,
    train: bool,
    run: StackRun<R::Tensor>,
    upto: int,
)
    requires
        keeps_shapes(rt, shape),
        stack.built(rt, path, config),
        stack.runnable(),
        ends_in(shape(input), config.embedding_size as int),
        stack.steps(rt, input, mask, train, run),
        0 <= upto <= stack.depth(),
    ensures
        shape(run.states[upto]) == with_features(shape(input), config.hidden_size as int),
    decreases upto,
{
    if upto > 0 {
        let i = upto - 1;
        lemma_stack_states_have_shape(
            rt,
            shape,
            stack,
            path,
            config,
            input,
            mask,
            train,
            run,
            i,
        );
        let g = group_of(i, stack.num_hidden_layers() as int, stack.num_hidden_groups() as int);
        lemma_group_keeps_shape(
            rt,
            shape,
            stack.layers()[g],
            path.push(Segment::Name("albert_layer_groups")).push(Segment::Index(g as i64)),
            config,
            run.states[i],
            mask,
            train,
            (run.states[i + 1], run.hidden_states[i], run.attentions[i]),
        );
    }
}

/// From an input whose last size is the embedding size, a stack registered
/// for `config` returns hidden states of the same shape but for the last
/// size, which is the hidden size; and every hidden state that it collects
/// has that shape too.
pub proof fn lemma_stack_output_shape<R: TensorRuntime>(
    rt: &R,
    shape: spec_fn(R::Tensor) -> Seq<int>,
    stack: AlbertTransformer<R>,
    path: Seq<Segment>,
    config: AlbertConfig,
    input: R::Tensor,
    mask: Option<R::Tensor>,
    train: bool,
    output: (R::Tensor, Option<Seq<R::Tensor>>, Option<Seq<Seq<R::Tensor>>>),
)
    requires
        keeps_shapes(rt, shape),
        stack.built(rt, path, config),
        stack.runnable(),
        ends_in(shape(input), config.embedding_size as int),
        stack.forward(rt, input, mask, train, output),
    ensures
        shape(output.0) == with_features(shape(input), config.hidden_size as int),
        output.1 is Some ==> forall|i: int|
            0 <= i < output.1->0.len() ==> shape(#[trigger] output.1->0[i]) == with_features(
                shape(input),
                config.hidden_size as int,
            ),
{
    let run = choose|run: StackRun<R::Tensor>|
        {
            &&& #[trigger] stack.steps(rt, input, mask, train, run)
            &&& output.0 == run.states.last()
            &&& copies_kept(rt, stack.output_hidden_states(), run.states.drop_last(), output.1)
            &&& attentions_kept(stack.output_attentions(), run.attentions, output.2)
        };
    lemma_stack_states_have_shape(
        rt,
        shape,
        stack,
        path,
        config,
        input,
        mask,
        train,
        run,
        stack.depth() as int,
    );
    if output.1 is Some {
        assert forall|i: int| 0 <= i < output.1->0.len() implies shape(#[trigger] output.1->0[i])
            == with_features(shape(input), config.hidden_size as int) by {
            lemma_stack_states_have_shape(
                rt,
                shape,
                stack,
                path,
                config,
                input,
                mask,
                train,
                run,
                i,
            );
        }
    }
}

} // verus!
