//! The encoder stack: an input projection, then the groups applied over the
//! whole depth, each group for its run of depth steps.

use crate::config::{count_of, AlbertConfig};
use crate::group::{copies_kept, group_output_view, history_view, AlbertLayerGroup};
use crate::path::{ParamPath, Segment};
use crate::runtime::{copied, linear_made, projected, TensorRuntime};
use crate::schedule::{group_index, group_of, schedule_fits, schedule_is_valid};
use vstd::prelude::*;

verus! {

/// The groups of a stack, its input projection, its depth and what it
/// collects on the way.
pub struct AlbertTransformer<R: TensorRuntime> {
    output_hidden_states: bool,
    output_attentions: bool,
    num_hidden_layers: i64,
    num_hidden_groups: i64,
    embedding_hidden_mapping_in: R::Linear,
    layers: Vec<AlbertLayerGroup<R>>,
}

/// One pass through a stack: `states[0]` is the projected input,
/// `states[i + 1]`, `hidden_states[i]` and `attentions[i]` are what the group
/// of depth step `i` returned.
pub struct StackRun<T> {
    pub states: Seq<T>,
    pub hidden_states: Seq<Option<Seq<T>>>,
    pub attentions: Seq<Option<Seq<T>>>,
}

/// What a two-level history of tensors holds, if there is one.
pub open spec fn nested_history_view<T>(history: Option<Vec<Vec<T>>>) -> Option<Seq<Seq<T>>> {
    match history {
        Some(steps) => Some(Seq::new(steps@.len(), |i: int| steps@[i]@)),
        None => None,
    }
}

/// What a pass through a stack returns: the final hidden states, the hidden
/// states that entered each depth step, and for each depth step the attention
/// weights of each block of its group.
pub open spec fn stack_output_view<T>(output: (T, Option<Vec<T>>, Option<Vec<Vec<T>>>)) -> (
    T,
    Option<Seq<T>>,
    Option<Seq<Seq<T>>>,
) {
    (output.0, history_view(output.1), nested_history_view(output.2))
}

/// If `enabled`, every depth step returned the attention weights of its
/// group and `history` holds them, step by step; otherwise there is no
/// history.
pub open spec fn attentions_kept<T>(
    enabled: bool,
    per_step: Seq<Option<Seq<T>>>,
    history: Option<Seq<Seq<T>>>,
) -> bool {
    if enabled {
        &&& history is Some
        &&& history->0.len() == per_step.len()
        &&& forall|i: int| 0 <= i < per_step.len() ==> #[trigger] per_step[i] is Some
        &&& forall|i: int| 0 <= i < per_step.len() ==> per_step[i]->0 == #[trigger] history->0[i]
    } else {
        history is None
    }
}

impl<R: TensorRuntime> AlbertTransformer<R> {
    /// Whether a pass collects the hidden states that enter each depth step.
    pub closed spec fn output_hidden_states(&self) -> bool {
        self.output_hidden_states
    }

    /// Whether a pass collects the attention weights of each depth step.
    pub closed spec fn output_attentions(&self) -> bool {
        self.output_attentions
    }

    /// The configured depth.
    pub closed spec fn num_hidden_layers(&self) -> i64 {
        self.num_hidden_layers
    }

    /// The configured number of groups.
    pub closed spec fn num_hidden_groups(&self) -> i64 {
        self.num_hidden_groups
    }

    /// The projection from the embedding size to the hidden size.
    pub closed spec fn embedding_hidden_mapping_in(&self) -> R::Linear {
        self.embedding_hidden_mapping_in
    }

    /// The groups of the stack, by index.
    pub closed spec fn layers(&self) -> Seq<AlbertLayerGroup<R>> {
        self.layers@
    }

    /// Number of depth steps of a pass.
    pub open spec fn depth(&self) -> nat {
        count_of(self.num_hidden_layers())
    }

    /// The group applied at depth step `step`.
    pub open spec fn group_at(&self, step: int) -> AlbertLayerGroup<R> {
        self.layers()[group_of(
            step,
            self.num_hidden_layers() as int,
            self.num_hidden_groups() as int,
        )]
    }

    /// The stack owns `num_hidden_groups` groups, and each of them collects
    /// what the stack collects.
    pub open spec fn wf(&self) -> bool {
        &&& self.layers().len() == count_of(self.num_hidden_groups())
        &&& forall|g: int|
            0 <= g < self.layers().len() ==> {
                &&& (#[trigger] self.layers()[g]).output_hidden_states()
                    == self.output_hidden_states()
                &&& self.layers()[g].output_attentions() == self.output_attentions()
            }
    }

    /// Every depth step finds its group among those that the stack owns.
    pub open spec fn runnable(&self) -> bool {
        schedule_fits(self.num_hidden_layers() as int, self.num_hidden_groups() as int)
    }

    /// The self-attention of every block of every group returns attention
    /// weights.
    pub open spec fn yields_weights(&self, rt: &R, mask: Option<R::Tensor>, train: bool) -> bool {
        forall|g: int|
            0 <= g < self.layers().len() ==> (#[trigger] self.layers()[g]).yields_weights(
                rt,
                mask,
                train,
            )
    }

    /// The stack was registered under `path` for `config`: the input
    /// projection under `embedding_hidden_mapping_in`, from the embedding size
    /// to the hidden size, and group `g` under `albert_layer_groups`, `g`.
    pub open spec fn built(&self, rt: &R, path: Seq<Segment>, config: AlbertConfig) -> bool {
        &&& self.output_hidden_states() == config.collects_hidden_states()
        &&& self.output_attentions() == config.collects_attentions()
        &&& self.num_hidden_layers() == config.num_hidden_layers
        &&& self.num_hidden_groups() == config.num_hidden_groups
        &&& linear_made(
            rt,
            path.push(Segment::Name("embedding_hidden_mapping_in")),
            config.embedding_size,
            config.hidden_size,
            self.embedding_hidden_mapping_in(),
        )
        &&& self.layers().len() == count_of(config.num_hidden_groups)
        &&& forall|g: int|
            0 <= g < self.layers().len() ==> (#[trigger] self.layers()[g]).built(
                rt,
                path.push(Segment::Name("albert_layer_groups")).push(Segment::Index(g as i64)),
                config,
            )
    }

    /// `run` is a pass through this stack from `input`: the input is
    /// projected once, and depth step `i` hands the hidden states to the group
    /// that the schedule gives for `i`.
    pub open spec fn steps(
        &self,
        rt: &R,
        input: R::Tensor,
        mask: Option<R::Tensor>,
        train: bool,
        run: StackRun<R::Tensor>,
    ) -> bool {
        &&& run.states.len() == self.depth() + 1
        &&& run.hidden_states.len() == self.depth()
        &&& run.attentions.len() == self.depth()
        &&& projected(rt, self.embedding_hidden_mapping_in(), input, run.states[0])
        &&& forall|i: int|
            0 <= i < self.depth() ==> self.group_at(i).forward(
                rt,
                run.states[i],
                mask,
                train,
                (run.states[i + 1], run.hidden_states[i], #[trigger] run.attentions[i]),
            )
    }

    /// `output` may come back from a pass through this stack from `input`:
    /// the hidden states after the last depth step, a copy of the hidden
    /// states that entered each depth step if those are collected, and what
    /// each depth step returned as attention weights if those are collected.
    pub open spec fn forward(
        &self,
        rt: &R,
        input: R::Tensor,
        mask: Option<R::Tensor>,
        train: bool,
        output: (R::Tensor, Option<Seq<R::Tensor>>, Option<Seq<Seq<R::Tensor>>>),
    ) -> bool {
        exists|run: StackRun<R::Tensor>|
            {
                &&& #[trigger] self.steps(rt, input, mask, train, run)
                &&& output.0 == run.states.last()
                &&& copies_kept(
                    rt,
                    self.output_hidden_states(),
                    run.states.drop_last(),
                    output.1,
                )
                &&& attentions_kept(self.output_attentions(), run.attentions, output.2)
            }
    }

    /// `run` applies `group` once for each depth step, each time to what the
    /// application before returned.
    pub open spec fn repeats(
        &self,
        group: AlbertLayerGroup<R>,
        rt: &R,
        mask: Option<R::Tensor>,
        train: bool,
        run: StackRun<R::Tensor>,
    ) -> bool {
        &&& run.states.len() == self.depth() + 1
        &&& run.hidden_states.len() == self.depth()
        &&& run.attentions.len() == self.depth()
        &&& forall|i: int|
            0 <= i < self.depth() ==> group.forward(
                rt,
                run.states[i],
                mask,
                train,
                (run.states[i + 1], run.hidden_states[i], #[trigger] run.attentions[i]),
            )
    }

    /// A pass returns each history exactly when the stack collects it, and
    /// then with one entry for each depth step.
    pub proof fn lemma_histories_follow_flags(
        &self,
        rt: &R,
        input: R::Tensor,
        mask: Option<R::Tensor>,
        train: bool,
        output: (R::Tensor, Option<Seq<R::Tensor>>, Option<Seq<Seq<R::Tensor>>>),
    )
        requires
            self.forward(rt, input, mask, train, output),
        ensures
            output.1 is Some <==> self.output_hidden_states(),
            output.2 is Some <==> self.output_attentions(),
            output.1 is Some ==> output.1->0.len() == self.depth(),
            output.2 is Some ==> output.2->0.len() == self.depth(),
    {
        let run = choose|run: StackRun<R::Tensor>|
            {
                &&& #[trigger] self.steps(rt, input, mask, train, run)
                &&& output.0 == run.states.last()
                &&& copies_kept(
                    rt,
                    self.output_hidden_states(),
                    run.states.drop_last(),
                    output.1,
                )
                &&& attentions_kept(self.output_attentions(), run.attentions, output.2)
            };
        assert(run.states.drop_last().len() == self.depth());
    }

    /// In a stack registered for `config` that collects attention weights,
    /// the history of a pass has one entry for each depth step, and each
    /// entry one tensor for each block of a group.
    pub proof fn lemma_attentions_layout(
        &self,
        rt: &R,
        path: Seq<Segment>,
        config: AlbertConfig,
        input: R::Tensor,
        mask: Option<R::Tensor>,
        train: bool,
        output: (R::Tensor, Option<Seq<R::Tensor>>, Option<Seq<Seq<R::Tensor>>>),
    )
        requires
            self.built(rt, path, config),
            self.runnable(),
            config.collects_attentions(),
            self.forward(rt, input, mask, train, output),
        ensures
            output.2 is Some,
            output.2->0.len() == count_of(config.num_hidden_layers),
            forall|i: int|
                0 <= i < output.2->0.len() ==> (#[trigger] output.2->0[i]).len() == count_of(
                    config.inner_group_num,
                ),
    {
        let run = choose|run: StackRun<R::Tensor>|
            {
                &&& #[trigger] self.steps(rt, input, mask, train, run)
                &&& output.0 == run.states.last()
                &&& copies_kept(
                    rt,
                    self.output_hidden_states(),
                    run.states.drop_last(),
                    output.1,
                )
                &&& attentions_kept(self.output_attentions(), run.attentions, output.2)
            };
        assert forall|i: int| 0 <= i < output.2->0.len() implies (#[trigger] output.2->0[i]).len()
            == count_of(config.inner_group_num) by {
            let g = group_of(
                i,
                self.num_hidden_layers() as int,
                self.num_hidden_groups() as int,
            );
            assert(0 <= g < self.layers().len());
            let group = self.layers()[g];
            assert(group.built(
                rt,
                path.push(Segment::Name("albert_layer_groups")).push(Segment::Index(g as i64)),
                config,
            ));
            assert(run.attentions[i] is Some);
            group.lemma_histories_follow_flags(
                rt,
                run.states[i],
                mask,
                train,
                (run.states[i + 1], run.hidden_states[i], run.attentions[i]),
            );
        }
    }

    /// Without sharing, as many groups as depth steps, depth step `step`
    /// applies group `step`.
    pub proof fn lemma_no_sharing(&self, step: int)
        requires
            self.num_hidden_groups() == self.num_hidden_layers(),
            0 <= step < self.depth(),
        ensures
            self.group_at(step) == self.layers()[step],
    {
        crate::schedule::lemma_no_sharing(step, self.num_hidden_layers() as int);
    }

    /// With a single group, a pass projects the input and then applies that
    /// group once for each depth step, and every such sequence of
    /// applications is a pass.
    pub proof fn lemma_single_group(
        &self,
        rt: &R,
        input: R::Tensor,
        mask: Option<R::Tensor>,
        train: bool,
        run: StackRun<R::Tensor>,
    )
        requires
            self.num_hidden_groups() == 1,
        ensures
            self.steps(rt, input, mask, train, run) <==> {
                &&& projected(rt, self.embedding_hidden_mapping_in(), input, run.states[0])
                &&& self.repeats(self.layers()[0], rt, mask, train, run)
            },
    {
        assert forall|i: int| 0 <= i < self.depth() implies self.group_at(i)
            == self.layers()[0] by {
            crate::schedule::lemma_single_group(i, self.num_hidden_layers() as int);
        }
    }

    /// Registers a stack of `num_hidden_groups` groups under `p`.
    pub fn new(rt: &R, p: &ParamPath, config: &AlbertConfig) -> (stack: AlbertTransformer<R>)
        ensures
            stack.built(rt, p@, *config),
            stack.wf(),
    {
        let p_layers = p.child("albert_layer_groups");

        let output_attentions = config.attentions_requested();
        let output_hidden_states = config.hidden_states_requested();

        let embedding_path = p.child("embedding_hidden_mapping_in");
        let embedding_hidden_mapping_in = rt.linear(
            &embedding_path,
            config.embedding_size,
            config.hidden_size,
        );

        let mut layers: Vec<AlbertLayerGroup<R>> = Vec::new();
        let mut layer_index: i64 = 0;
        while layer_index < config.num_hidden_groups
            invariant
                layer_index == 0 || 0 < layer_index <= config.num_hidden_groups,
                layers@.len() == layer_index,
                p_layers@ == p@.push(Segment::Name("albert_layer_groups")),
                forall|g: int|
                    0 <= g < layers@.len() ==> (#[trigger] layers@[g]).built(
                        rt,
                        p_layers@.push(Segment::Index(g as i64)),
                        *config,
                    ),
            decreases config.num_hidden_groups - layer_index,
        {
            let group_path = p_layers.child_index(layer_index);
            layers.push(AlbertLayerGroup::new(rt, &group_path, config));
            layer_index = layer_index + 1;
        }

        AlbertTransformer {
            output_hidden_states,
            output_attentions,
            num_hidden_layers: config.num_hidden_layers,
            num_hidden_groups: config.num_hidden_groups,
            embedding_hidden_mapping_in,
            layers,
        }
    }

    /// Tells whether every depth step finds its group, that is, whether a
    /// pass can be run.
    pub fn can_run(&self) -> (ok: bool)
        ensures
            ok == self.runnable(),
    {
        schedule_is_valid(self.num_hidden_layers, self.num_hidden_groups)
    }

    /// Projects `hidden_states` to the hidden size and runs the depth steps
    /// over the result.
    pub fn forward_t(
        &self,
        rt: &R,
        hidden_states: &R::Tensor,
        mask: Option<R::Tensor>,
        train: bool,
    ) -> (output: (R::Tensor, Option<Vec<R::Tensor>>, Option<Vec<Vec<R::Tensor>>>))
        requires
            self.wf(),
            self.runnable(),
            self.output_attentions() ==> self.yields_weights(rt, mask, train),
        ensures
            self.forward(rt, *hidden_states, mask, train, stack_output_view(output)),
    {
        let mut hidden_state = rt.project(&self.embedding_hidden_mapping_in, hidden_states);

        let mut all_hidden_states: Vec<R::Tensor> = Vec::new();
        let mut all_attentions: Vec<Vec<R::Tensor>> = Vec::new();

        let ghost mut run = StackRun {
            states: seq![hidden_state],
            hidden_states: Seq::empty(),
            attentions: Seq::empty(),
        };
        let mut i: i64 = 0;
        while i < self.num_hidden_layers
            invariant
                self.wf(),
                self.runnable(),
                self.output_attentions() ==> self.yields_weights(rt, mask, train),
                i == 0 || 0 < i <= self.num_hidden_layers,
                run.states.len() == i + 1,
                run.hidden_states.len() == i,
                run.attentions.len() == i,
                run.states[i as int] == hidden_state,
                projected(rt, self.embedding_hidden_mapping_in(), *hidden_states, run.states[0]),
                forall|k: int|
                    0 <= k < i ==> self.group_at(k).forward(
                        rt,
                        run.states[k],
                        mask,
                        train,
                        (run.states[k + 1], run.hidden_states[k], #[trigger] run.attentions[k]),
                    ),
                self.output_hidden_states() ==> all_hidden_states@.len() == i,
                self.output_attentions() ==> all_attentions@.len() == i,
                forall|k: int|
                    self.output_hidden_states() && 0 <= k < i ==> copied(
                        rt,
                        run.states[k],
                        #[trigger] all_hidden_states@[k],
                    ),
                forall|k: int|
                    self.output_attentions() && 0 <= k < i ==> #[trigger] run.attentions[k] is Some,
                forall|k: int|
                    self.output_attentions() && 0 <= k < i ==> run.attentions[k]->0
                        == (#[trigger] all_attentions@[k])@,
            decreases self.num_hidden_layers - i,
        {
            let group_idx: i64 = group_index(i, self.num_hidden_layers, self.num_hidden_groups);
            assert(group_idx < self.layers().len() == self.layers.len());
            let layer = &self.layers[group_idx as usize];

            if self.output_hidden_states {
                all_hidden_states.push(rt.copy(&hidden_state));
            }
            let (next_state, group_hidden_states, group_attentions) = layer.forward_t(
                rt,
                &hidden_state,
                &mask,
                train,
            );
            proof {
                layer.lemma_histories_follow_flags(
                    rt,
                    hidden_state,
                    mask,
                    train,
                    group_output_view((next_state, group_hidden_states, group_attentions)),
                );
                run = StackRun {
                    states: run.states.push(next_state),
                    hidden_states: run.hidden_states.push(history_view(group_hidden_states)),
                    attentions: run.attentions.push(history_view(group_attentions)),
                };
            }
            if self.output_attentions {
                all_attentions.push(group_attentions.unwrap());
            }
            hidden_state = next_state;
            i = i + 1;
        }
        proof {
            assert(self.steps(rt, *hidden_states, mask, train, run));
            if self.output_attentions() {
                let history = nested_history_view(Some(all_attentions))->0;
                assert forall|k: int| 0 <= k < run.attentions.len() implies run.attentions[k]->0
                    == #[trigger] history[k] by {
                    assert(history[k] == all_attentions@[k]@);
                }
            }
        }
        (
            hidden_state,
            if self.output_hidden_states {
                Some(all_hidden_states)
            } else {
                None
            },
            if self.output_attentions {
                Some(all_attentions)
            } else {
                None
            },
        )
    }
}

} // verus!
