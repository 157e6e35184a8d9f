//! A group of transformer blocks, applied one after the other.

use crate::config::{count_of, AlbertConfig};
use crate::layer::AlbertLayer;
use crate::path::{ParamPath, Segment};
use crate::runtime::{attended, copied, TensorRuntime};
use vstd::prelude::*;

verus! {

/// An ordered sequence of blocks, with the collection flags of the stack that
/// the group belongs to.
pub struct AlbertLayerGroup<R: TensorRuntime> {
    output_hidden_states: bool,
    output_attentions: bool,
    layers: Vec<AlbertLayer<R>>,
}

/// One pass through a group: `states[0]` enters the first block,
/// `states[j + 1]` and `weights[j]` are what block `j` returned.
pub struct GroupRun<T> {
    pub states: Seq<T>,
    pub weights: Seq<Option<T>>,
}

/// What a history of tensors holds, if there is one.
pub open spec fn history_view<T>(history: Option<Vec<T>>) -> Option<Seq<T>> {
    match history {
        Some(tensors) => Some(tensors@),
        None => None,
    }
}

/// What a pass through a group returns: the final hidden states, the hidden
/// states that entered each block, and the attention weights of each block.
pub open spec fn group_output_view<T>(output: (T, Option<Vec<T>>, Option<Vec<T>>)) -> (
    T,
    Option<Seq<T>>,
    Option<Seq<T>>,
) {
    (output.0, history_view(output.1), history_view(output.2))
}

/// If `enabled`, `history` holds one copy of each of `values`, in their
/// order; otherwise there is no history.
pub open spec fn copies_kept<R: TensorRuntime>(
    rt: &R,
    enabled: bool,
    values: Seq<R::Tensor>,
    history: Option<Seq<R::Tensor>>,
) -> bool {
    if enabled {
        &&& history is Some
        &&& history->0.len() == values.len()
        &&& forall|j: int|
            0 <= j < values.len() ==> copied(rt, values[j], #[trigger] history->0[j])
    } else {
        history is None
    }
}

/// If `enabled`, every block returned attention weights and `history` holds
/// one copy of each, in their order; otherwise there is no history.
pub open spec fn weights_kept<R: TensorRuntime>(
    rt: &R,
    enabled: bool,
    weights: Seq<Option<R::Tensor>>,
    history: Option<Seq<R::Tensor>>,
) -> bool {
    if enabled {
        &&& history is Some
        &&& history->0.len() == weights.len()
        &&& forall|j: int| 0 <= j < weights.len() ==> #[trigger] weights[j] is Some
        &&& forall|j: int|
            0 <= j < weights.len() ==> copied(rt, weights[j]->0, #[trigger] history->0[j])
    } else {
        history is None
    }
}

impl<R: TensorRuntime> AlbertLayerGroup<R> {
    /// Whether a pass collects the hidden states that enter each block.
    pub closed spec fn output_hidden_states(&self) -> bool {
        self.output_hidden_states
    }

    /// Whether a pass collects the attention weights of each block.
    pub closed spec fn output_attentions(&self) -> bool {
        self.output_attentions
    }

    /// The blocks of the group, in the order in which they are applied.
    pub closed spec fn layers(&self) -> Seq<AlbertLayer<R>> {
        self.layers@
    }

    /// The group was registered under `path` for `config`: it has
    /// `inner_group_num` blocks, block `j` registered under
    /// `albert_layers`, `j`, and it collects what the configuration asks for.
    pub open spec fn built(&self, rt: &R, path: Seq<Segment>, config: AlbertConfig) -> bool {
        &&& self.output_hidden_states() == config.collects_hidden_states()
        &&& self.output_attentions() == config.collects_attentions()
        &&& self.layers().len() == count_of(config.inner_group_num)
        &&& forall|j: int|
            0 <= j < self.layers().len() ==> (#[trigger] self.layers()[j]).built(
                rt,
                path.push(Segment::Name("albert_layers")).push(Segment::Index(j as i64)),
                config,
            )
    }

    /// The self-attention of every block returns attention weights, whatever
    /// hidden states it is given.
    pub open spec fn yields_weights(&self, rt: &R, mask: Option<R::Tensor>, train: bool) -> bool {
        forall|j: int, input: R::Tensor, output: (R::Tensor, Option<R::Tensor>)|
            0 <= j < self.layers().len() && #[trigger] attended(
                rt,
                self.layers()[j].attention(),
                input,
                mask,
                train,
                output,
            ) ==> output.1 is Some
    }

    /// `run` is a pass through this group from `input`: the first block gets a
    /// copy of `input`, each later block what the block before it returned.
    pub open spec fn steps(
        &self,
        rt: &R,
        input: R::Tensor,
        mask: Option<R::Tensor>,
        train: bool,
        run: GroupRun<R::Tensor>,
    ) -> bool {
        &&& run.states.len() == self.layers().len() + 1
        &&& run.weights.len() == self.layers().len()
        &&& copied(rt, input, run.states[0])
        &&& forall|j: int|
            0 <= j < self.layers().len() ==> (#[trigger] self.layers()[j]).forward(
                rt,
                run.states[j],
                mask,
                train,
                (run.states[j + 1], run.weights[j]),
            )
    }

    /// `output` may come back from a pass through this group from `input`:
    /// the hidden states after the last block, a copy of the hidden states
    /// that entered each block if those are collected, and a copy of each
    /// block's attention weights if those are collected.
    pub open spec fn forward(
        &self,
        rt: &R,
        input: R::Tensor,
        mask: Option<R::Tensor>,
        train: bool,
        output: (R::Tensor, Option<Seq<R::Tensor>>, Option<Seq<R::Tensor>>),
    ) -> bool {
        exists|run: GroupRun<R::Tensor>|
            {
                &&& #[trigger] self.steps(rt, input, mask, train, run)
                &&& output.0 == run.states.last()
                &&& copies_kept(
                    rt,
                    self.output_hidden_states(),
                    run.states.drop_last(),
                    output.1,
                )
                &&& weights_kept(rt, self.output_attentions(), run.weights, output.2)
            }
    }

    /// A pass returns each history exactly when the group collects it, and
    /// then with one entry for each block.
    pub proof fn lemma_histories_follow_flags(
        &self,
        rt: &R,
        input: R::Tensor,
        mask: Option<R::Tensor>,
        train: bool,
        output: (R::Tensor, Option<Seq<R::Tensor>>, Option<Seq<R::Tensor>>),
    )
        requires
            self.forward(rt, input, mask, train, output),
        ensures
            output.1 is Some <==> self.output_hidden_states(),
            output.2 is Some <==> self.output_attentions(),
            output.1 is Some ==> output.1->0.len() == self.layers().len(),
            output.2 is Some ==> output.2->0.len() == self.layers().len(),
    {
        let run = choose|run: GroupRun<R::Tensor>|
            {
                &&& #[trigger] self.steps(rt, input, mask, train, run)
                &&& output.0 == run.states.last()
                &&& copies_kept(
                    rt,
                    self.output_hidden_states(),
                    run.states.drop_last(),
                    output.1,
                )
                &&& weights_kept(rt, self.output_attentions(), run.weights, output.2)
            };
        assert(run.states.drop_last().len() == self.layers().len());
    }

    /// Registers a group of `inner_group_num` blocks under `p`.
    pub fn new(rt: &R, p: &ParamPath, config: &AlbertConfig) -> (group: AlbertLayerGroup<R>)
        ensures
            group.built(rt, p@, *config),
    {
        let layers_path = p.child("albert_layers");

        let output_attentions = config.attentions_requested();
        let output_hidden_states = config.hidden_states_requested();

        let mut layers: Vec<AlbertLayer<R>> = Vec::new();
        let mut layer_index: i64 = 0;
        while layer_index < config.inner_group_num
            invariant
                layer_index == 0 || 0 < layer_index <= config.inner_group_num,
                layers@.len() == layer_index,
                layers_path@ == p@.push(Segment::Name("albert_layers")),
                forall|j: int|
                    0 <= j < layers@.len() ==> (#[trigger] layers@[j]).built(
                        rt,
                        layers_path@.push(Segment::Index(j as i64)),
                        *config,
                    ),
            decreases config.inner_group_num - layer_index,
        {
            let layer_path = layers_path.child_index(layer_index);
            layers.push(AlbertLayer::new(rt, &layer_path, config));
            layer_index = layer_index + 1;
        }

        AlbertLayerGroup { output_hidden_states, output_attentions, layers }
    }

    /// Runs the blocks of the group in order, starting from a copy of
    /// `hidden_states`.
    pub fn forward_t(
        &self,
        rt: &R,
        hidden_states: &R::Tensor,
        mask: &Option<R::Tensor>,
        train: bool,
    ) -> (output: (R::Tensor, Option<Vec<R::Tensor>>, Option<Vec<R::Tensor>>))
        requires
            self.output_attentions() ==> self.yields_weights(rt, *mask, train),
        ensures
            self.forward(rt, *hidden_states, *mask, train, group_output_view(output)),
    {
        let mut all_hidden_states: Vec<R::Tensor> = Vec::new();
        let mut all_attentions: Vec<R::Tensor> = Vec::new();

        let mut hidden_state = rt.copy(hidden_states);
        let ghost mut states: Seq<R::Tensor> = seq![hidden_state];
        let ghost mut weights: Seq<Option<R::Tensor>> = Seq::empty();
        let mut j: usize = 0;
        while j < self.layers.len()
            invariant
                j <= self.layers.len(),
                states.len() == j + 1,
                weights.len() == j,
                states[j as int] == hidden_state,
                copied(rt, *hidden_states, states[0]),
                forall|i: int|
                    0 <= i < j ==> (#[trigger] self.layers()[i]).forward(
                        rt,
                        states[i],
                        *mask,
                        train,
                        (states[i + 1], weights[i]),
                    ),
                self.output_attentions() ==> self.yields_weights(rt, *mask, train),
                self.output_hidden_states() ==> all_hidden_states@.len() == j,
                self.output_attentions() ==> all_attentions@.len() == j,
                forall|i: int|
                    self.output_hidden_states() && 0 <= i < j ==> copied(
                        rt,
                        states[i],
                        #[trigger] all_hidden_states@[i],
                    ),
                forall|i: int|
                    self.output_attentions() && 0 <= i < j ==> #[trigger] weights[i] is Some,
                forall|i: int|
                    self.output_attentions() && 0 <= i < j ==> copied(
                        rt,
                        weights[i]->0,
                        #[trigger] all_attentions@[i],
                    ),
            decreases self.layers.len() - j,
        {
            let layer = &self.layers[j];
            if self.output_hidden_states {
                all_hidden_states.push(rt.copy(&hidden_state));
            }
            let (next_state, attention_weights) = layer.forward_t(rt, &hidden_state, mask, train);
            proof {
                layer.lemma_weights_pass_through(
                    rt,
                    hidden_state,
                    *mask,
                    train,
                    (next_state, attention_weights),
                );
                assert(*layer == self.layers()[j as int]);
            }
            if self.output_attentions {
                all_attentions.push(rt.copy(attention_weights.as_ref().unwrap()));
            }
            proof {
                states = states.push(next_state);
                weights = weights.push(attention_weights);
            }
            hidden_state = next_state;
            j = j + 1;
        }
        proof {
            let run = GroupRun { states, weights };
            assert(self.steps(rt, *hidden_states, *mask, train, run));
        }
        (
            hidden_state,
            if self.output_hidden_states {
                Some(all_hidden_states)
            } else {
                None
            },
            if self.output_attentions {
                Some(all_attentions)
            } else {
                None
            },
        )
    }
}

} // verus!
