//! A pass is a function of its input wherever the runtime is one.
//!
//! The relations of the runtime allow an operation to answer differently
//! from call to call, as a dropout does during training. Where every
//! operation answers in one way only, so does a block, a group and the stack.

use crate::config::Activation;
use crate::group::{copies_kept, weights_kept, AlbertLayerGroup, GroupRun};
use crate::layer::{AlbertLayer, BlockTrace};
use crate::runtime::{activated, added, attended, copied, normalized, projected, TensorRuntime};
use crate::transformer::{attentions_kept, AlbertTransformer, StackRun};
use vstd::prelude::*;

verus! {

/// With this `train`, every operation of the runtime has one result only for
/// given arguments.
pub open spec fn deterministic<R: TensorRuntime>(rt: &R, train: bool) -> bool {
    &&& forall|layer: R::Linear, x: R::Tensor, y1: R::Tensor, y2: R::Tensor|
        #![trigger projected(rt, layer, x, y1), projected(rt, layer, x, y2)]
        projected(rt, layer, x, y1) && projected(rt, layer, x, y2) ==> y1 == y2
    &&& forall|layer: R::LayerNorm, x: R::Tensor, y1: R::Tensor, y2: R::Tensor|
        #![trigger normalized(rt, layer, x, y1), normalized(rt, layer, x, y2)]
        normalized(rt, layer, x, y1) && normalized(rt, layer, x, y2) ==> y1 == y2
    &&& forall|kind: Activation, x: R::Tensor, y1: R::Tensor, y2: R::Tensor|
        #![trigger activated(rt, kind, x, y1), activated(rt, kind, x, y2)]
        activated(rt, kind, x, y1) && activated(rt, kind, x, y2) ==> y1 == y2
    &&& forall|a: R::Tensor, b: R::Tensor, y1: R::Tensor, y2: R::Tensor|
        #![trigger added(rt, a, b, y1), added(rt, a, b, y2)]
        added(rt, a, b, y1) && added(rt, a, b, y2) ==> y1 == y2
    &&& forall|x: R::Tensor, y1: R::Tensor, y2: R::Tensor|
        #![trigger copied(rt, x, y1), copied(rt, x, y2)]
        copied(rt, x, y1) && copied(rt, x, y2) ==> y1 == y2
    &&& forall|
        attention: R::Attention,
        x: R::Tensor,
        mask: Option<R::Tensor>,
        y1: (R::Tensor, Option<R::Tensor>),
        y2: (R::Tensor, Option<R::Tensor>),
    |
        #![trigger attended(rt, attention, x, mask, train, y1), attended(rt, attention, x, mask, train, y2)]
        attended(rt, attention, x, mask, train, y1) && attended(rt, attention, x, mask, train, y2)
            ==> y1 == y2
}

/// Two passes through a block from the same input go through the same
/// values.
pub proof fn lemma_block_traces_agree<R: TensorRuntime>(
    rt: &R,
    block: AlbertLayer<R>,
    input: R::Tensor,
    mask: Option<R::Tensor>,
    train: bool,
    first: BlockTrace<R::Tensor>,
    second: BlockTrace<R::Tensor>,
)
    requires
        deterministic(rt, train),
        block.steps(rt, input, mask, train, first),
        block.steps(rt, input, mask, train, second),
    ensures
        first == second,
{
}

/// A block has one output only for a given input.
pub proof fn lemma_block_deterministic<R: TensorRuntime>(
    rt: &R,
    block: AlbertLayer<R>,
    input: R::Tensor,
    mask: Option<R::Tensor>,
    train: bool,
    first: (R::Tensor, Option<R::Tensor>),
    second: (R::Tensor, Option<R::Tensor>),
)
    requires
        deterministic(rt, train),
        block.forward(rt, input, mask, train, first),
        block.forward(rt, input, mask, train, second),
    ensures
        first == second,
{
    let t1 = choose|t: BlockTrace<R::Tensor>| #[trigger]
        block.steps(rt, input, mask, train, t) && first == (t.output, t.attention_weights);
    let t2 = choose|t: BlockTrace<R::Tensor>| #[trigger]
        block.steps(rt, input, mask, train, t) && second == (t.output, t.attention_weights);
    lemma_block_traces_agree(rt, block, input, mask, train, t1, t2);
}

/// Two passes through a group from the same input agree up to block `upto`.
proof fn lemma_group_runs_agree_upto<R: TensorRuntime>(
    rt: &R,
    group: AlbertLayerGroup<R>,
    input: R::Tensor,
    mask: Option<R::Tensor>,
    train: bool,
    first: GroupRun<R::Tensor>,
    second: GroupRun<R::Tensor>,
    upto: int,
)
    requires
        deterministic(rt, train),
        group.steps(rt, input, mask, train, first),
        group.steps(rt, input, mask, train, second),
        0 <= upto <= group.layers().len(),
    ensures
        first.states[upto] == second.states[upto],
        upto > 0 ==> first.weights[upto - 1] == second.weights[upto - 1],
    decreases upto,
{
    if upto > 0 {
        let j = upto - 1;
        lemma_group_runs_agree_upto(rt, group, input, mask, train, first, second, j);
        let block = group.layers()[j];
        lemma_block_deterministic(
            rt,
            block,
            first.states[j],
            mask,
            train,
            (first.states[j + 1], first.weights[j]),
            (second.states[j + 1], second.weights[j]),
        );
    }
}

/// Two passes through a group from the same input go through the same
/// values.
pub proof fn lemma_group_runs_agree<R: TensorRuntime>(
    rt: &R,
    group: AlbertLayerGroup<R>,
    input: R::Tensor,
    mask: Option<R::Tensor>,
    train: bool,
    first: GroupRun<R::Tensor>,
    second: GroupRun<R::Tensor>,
)
    requires
        deterministic(rt, train),
        group.steps(rt, input, mask, train, first),
        group.steps(rt, input, mask, train, second),
    ensures
        first == second,
{
    assert forall|j: int| 0 <= j < first.states.len() implies first.states[j]
        == second.states[j] by {
        lemma_group_runs_agree_upto(rt, group, input, mask, train, first, second, j);
    }
    assert forall|j: int| 0 <= j < first.weights.len() implies first.weights[j]
        == second.weights[j] by {
        lemma_group_runs_agree_upto(rt, group, input, mask, train, first, second, j + 1);
    }
    assert(first.states =~= second.states);
    assert(first.weights =~= second.weights);
}

/// Copies of the same values, kept under the same flag, are the same
/// history.
pub proof fn lemma_copies_agree<R: TensorRuntime>(
    rt: &R,
    train: bool,
    enabled: bool,
    values: Seq<R::Tensor>,
    first: Option<Seq<R::Tensor>>,
    second: Option<Seq<R::Tensor>>,
)
    requires
        deterministic(rt, train),
        copies_kept(rt, enabled, values, first),
        copies_kept(rt, enabled, values, second),
    ensures
        first == second,
{
}

/// A group has one output only for a given input.
pub proof fn lemma_group_deterministic<R: TensorRuntime>(
    rt: &R,
    group: AlbertLayerGroup<R>,
    input: R::Tensor,
    mask: Option<R::Tensor>,
    train: bool,
    first: (R::Tensor, Option<Seq<R::Tensor>>, Option<Seq<R::Tensor>>),
    second: (R::Tensor, Option<Seq<R::Tensor>>, Option<Seq<R::Tensor>>),
)
    requires
        deterministic(rt, train),
        group.forward(rt, input, mask, train, first),
        group.forward(rt, input, mask, train, second),
    ensures
        first == second,
{
    let r1 = choose|run: GroupRun<R::Tensor>|
        {
            &&& #[trigger] group.steps(rt, input, mask, train, run)
            &&& first.0 == run.states.last()
            &&& copies_kept(rt, group.output_hidden_states(), run.states.drop_last(), first.1)
            &&& weights_kept(rt, group.output_attentions(), run.weights, first.2)
        };
    let r2 = choose|run: GroupRun<R::Tensor>|
        {
            &&& #[trigger] group.steps(rt, input, mask, train, run)
            &&& second.0 == run.states.last()
            &&& copies_kept(rt, group.output_hidden_states(), run.states.drop_last(), second.1)
            &&& weights_kept(rt, group.output_attentions(), run.weights, second.2)
        };
    lemma_group_runs_agree(rt, group, input, mask, train, r1, r2);
    lemma_copies_agree(
        rt,
        train,
        group.output_hidden_states(),
        r1.states.drop_last(),
        first.1,
        second.1,
    );
}

/// Two passes through a stack from the same input agree up to depth step
/// `upto`.
proof fn lemma_stack_runs_agree_upto<R: TensorRuntime>(
    rt: &R,
    stack: AlbertTransformer<R>,
    input: R::Tensor,
    mask: Option<R::Tensor>,
    train: bool,
    first: StackRun<R::Tensor>,
    second: StackRun<R::Tensor>,
    upto: int,
)
    requires
        deterministic(rt, train),
        stack.steps(rt, input, mask, train, first),
        stack.steps(rt, input, mask, train, second),
        0 <= upto <= stack.depth(),
    ensures
        first.states[upto] == second.states[upto],
        upto > 0 ==> first.hidden_states[upto - 1] == second.hidden_states[upto - 1],
        upto > 0 ==> first.attentions[upto - 1] == second.attentions[upto - 1],
    decreases upto,
{
    if upto > 0 {
        let i = upto - 1;
        lemma_stack_runs_agree_upto(rt, stack, input, mask, train, first, second, i);
        lemma_group_deterministic(
            rt,
            stack.group_at(i),
            first.states[i],
            mask,
            train,
            (first.states[i + 1], first.hidden_states[i], first.attentions[i]),
            (second.states[i + 1], second.hidden_states[i], second.attentions[i]),
        );
    }
}

/// Two passes through the stack with the same parameters and the same input
/// return the same output: the same final hidden states and the same
/// histories, value for value.
pub proof fn lemma_stack_deterministic<R: TensorRuntime>(
    rt: &R,
    stack: AlbertTransformer<R>,
    input: R::Tensor,
    mask: Option<R::Tensor>,
    train: bool,
    first: (R::Tensor, Option<Seq<R::Tensor>>, Option<Seq<Seq<R::Tensor>>>),
    second: (R::Tensor, Option<Seq<R::Tensor>>, Option<Seq<Seq<R::Tensor>>>),
)
    requires
        deterministic(rt, train),
        stack.forward(rt, input, mask, train, first),
        stack.forward(rt, input, mask, train, second),
    ensures
        first == second,
{
    let r1 = choose|run: StackRun<R::Tensor>|
        {
            &&& #[trigger] stack.steps(rt, input, mask, train, run)
            &&& first.0 == run.states.last()
            &&& copies_kept(rt, stack.output_hidden_states(), run.states.drop_last(), first.1)
            &&& attentions_kept(stack.output_attentions(), run.attentions, first.2)
        };
    let r2 = choose|run: StackRun<R::Tensor>|
        {
            &&& #[trigger] stack.steps(rt, input, mask, train, run)
            &&& second.0 == run.states.last()
            &&& copies_kept(rt, stack.output_hidden_states(), run.states.drop_last(), second.1)
            &&& attentions_kept(stack.output_attentions(), run.attentions, second.2)
        };
    assert forall|i: int| 0 <= i < r1.states.len() implies r1.states[i] == r2.states[i] by {
        lemma_stack_runs_agree_upto(rt, stack, input, mask, train, r1, r2, i);
    }
    lemma_copies_agree(
        rt,
        train,
        stack.output_hidden_states(),
        r1.states.drop_last(),
        first.1,
        second.1,
    );
    if stack.output_attentions() {
        assert forall|i: int| 0 <= i < r1.attentions.len() implies first.2->0[i]
            == second.2->0[i] by {
            lemma_stack_runs_agree_upto(rt, stack, input, mask, train, r1, r2, i + 1);
        }
    }
}

} // verus!
