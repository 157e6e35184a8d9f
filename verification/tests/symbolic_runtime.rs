use albert_encoder::config::{Activation, AlbertConfig};
use albert_encoder::group::AlbertLayerGroup;
use albert_encoder::layer::AlbertLayer;
use albert_encoder::path::{ParamPath, Segment};
use albert_encoder::runtime::TensorRuntime;
use albert_encoder::transformer::AlbertTransformer;
use std::cell::RefCell;

/// A runtime whose tensors are the formulas that produced them.
struct Symbolic {
    registered: RefCell<Vec<String>>,
}

fn symbolic() -> Symbolic {
    Symbolic { registered: RefCell::new(Vec::new()) }
}

fn dotted(path: &ParamPath) -> String {
    let parts: Vec<String> = path
        .segments()
        .iter()
        .map(|segment| match segment {
            Segment::Name(name) => format!("{}", name),
            Segment::Index(index) => format!("{}", index),
        })
        .collect();
    parts.join(".")
}

impl TensorRuntime for Symbolic {
    type Tensor = String;
    type Linear = String;
    type LayerNorm = String;
    type Attention = String;

    fn linear(&self, path: &ParamPath, in_dim: i64, out_dim: i64) -> String {
        let name = dotted(path);
        self.registered.borrow_mut().push(format!("linear {} {}->{}", name, in_dim, out_dim));
        name
    }

    fn layer_norm(&self, path: &ParamPath, size: i64, eps_bits: u64) -> String {
        let name = dotted(path);
        self.registered.borrow_mut().push(format!(
            "layer_norm {} {} {:e}",
            name,
            size,
            f64::from_bits(eps_bits)
        ));
        name
    }

    fn attention(&self, path: &ParamPath, config: &AlbertConfig) -> String {
        let name = dotted(path);
        self.registered.borrow_mut().push(format!("attention {} {}", name, config.hidden_size));
        name
    }

    fn project(&self, layer: &String, input: &String) -> String {
        format!("{}({})", layer, input)
    }

    fn normalize(&self, layer: &String, input: &String) -> String {
        format!("{}({})", layer, input)
    }

    fn attend(
        &self,
        attention: &String,
        hidden_states: &String,
        mask: &Option<String>,
        train: bool,
    ) -> (String, Option<String>) {
        let mask = match mask {
            Some(mask) => format!("{}", mask),
            None => format!("-"),
        };
        let args = format!("{},{},{}", hidden_states, mask, train);
        (format!("{}({})", attention, args), Some(format!("weights {}({})", attention, args)))
    }

    fn activate(&self, kind: Activation, input: &String) -> String {
        format!("{:?}({})", kind, input)
    }

    fn add(&self, left: &String, right: &String) -> String {
        format!("[{} + {}]", left, right)
    }

    fn copy(&self, input: &String) -> String {
        format!("copy {}", input)
    }
}

fn config(layers: i64, groups: i64, inner: i64) -> AlbertConfig {
    AlbertConfig {
        hidden_size: 4,
        embedding_size: 2,
        intermediate_size: 8,
        inner_group_num: inner,
        num_hidden_layers: layers,
        num_hidden_groups: groups,
        layer_norm_eps: None,
        hidden_act: Activation::GeluNew,
        output_hidden_states: None,
        output_attentions: None,
    }
}

fn collecting(layers: i64, groups: i64, inner: i64, hidden: bool, attentions: bool) -> AlbertConfig {
    let mut config = config(layers, groups, inner);
    config.output_hidden_states = Some(hidden);
    config.output_attentions = Some(attentions);
    config
}

/// What a block registered under `at` makes of `x`, written out by hand.
fn block_formula(at: &str, x: &str, mask: &str, train: bool, act: &str) -> (String, String) {
    let attended = format!("{}.attention({},{},{})", at, x, mask, train);
    let weights = format!("weights {}.attention({},{},{})", at, x, mask, train);
    let expanded = format!("{}.ffn({})", at, attended);
    let activated = format!("{}({})", act, expanded);
    let contracted = format!("{}.ffn_output({})", at, activated);
    let summed = format!("[{} + {}]", contracted, attended);
    (format!("{}.full_layer_layer_norm({})", at, summed), weights)
}

#[test]
fn block_registers_its_components_under_their_names() {
    let rt = symbolic();
    let mut config = config(2, 1, 1);
    config.layer_norm_eps = Some(1e-5f64.to_bits());
    let _block = AlbertLayer::new(&rt, &ParamPath::root().child("block"), &config);
    assert_eq!(
        *rt.registered.borrow(),
        vec![
            format!("attention block.attention 4"),
            format!("layer_norm block.full_layer_layer_norm 4 1e-5"),
            format!("linear block.ffn 4->8"),
            format!("linear block.ffn_output 8->4"),
        ]
    );
}

#[test]
fn block_normalization_uses_the_default_epsilon() {
    let rt = symbolic();
    let _block = AlbertLayer::new(&rt, &ParamPath::root(), &config(2, 1, 1));
    assert_eq!(rt.registered.borrow()[1], format!("layer_norm full_layer_layer_norm 4 1e-12"));
}

#[test]
fn block_applies_its_steps_in_order() {
    let rt = symbolic();
    let block = AlbertLayer::new(&rt, &ParamPath::root().child("b"), &config(2, 1, 1));
    let (hidden, weights) = block.forward_t(&rt, &format!("x"), &None, false);
    assert_eq!(
        hidden,
        "b.full_layer_layer_norm([b.ffn_output(GeluNew(b.ffn(b.attention(x,-,false)))) + b.attention(x,-,false)])"
    );
    assert_eq!(weights, Some(format!("weights b.attention(x,-,false)")));
}

#[test]
fn block_passes_mask_and_training_flag_to_attention() {
    let rt = symbolic();
    let block = AlbertLayer::new(&rt, &ParamPath::root().child("b"), &config(2, 1, 1));
    let (hidden, weights) = block.forward_t(&rt, &format!("x"), &Some(format!("m")), true);
    let (expected, expected_weights) = block_formula("b", "x", "m", true, "GeluNew");
    assert_eq!(hidden, expected);
    assert_eq!(weights, Some(expected_weights));
}

#[test]
fn block_uses_the_configured_activation() {
    for (kind, name) in [
        (Activation::GeluNew, "GeluNew"),
        (Activation::Gelu, "Gelu"),
        (Activation::Relu, "Relu"),
        (Activation::Mish, "Mish"),
    ] {
        let rt = symbolic();
        let mut config = config(2, 1, 1);
        config.hidden_act = kind;
        let block = AlbertLayer::new(&rt, &ParamPath::root().child("b"), &config);
        let (hidden, _) = block.forward_t(&rt, &format!("x"), &None, false);
        assert_eq!(hidden, block_formula("b", "x", "-", false, name).0);
    }
}

#[test]
fn group_registers_its_blocks_by_position() {
    let rt = symbolic();
    let _group = AlbertLayerGroup::new(&rt, &ParamPath::root().child("g"), &config(2, 1, 2));
    assert_eq!(
        *rt.registered.borrow(),
        vec![
            format!("attention g.albert_layers.0.attention 4"),
            format!("layer_norm g.albert_layers.0.full_layer_layer_norm 4 1e-12"),
            format!("linear g.albert_layers.0.ffn 4->8"),
            format!("linear g.albert_layers.0.ffn_output 8->4"),
            format!("attention g.albert_layers.1.attention 4"),
            format!("layer_norm g.albert_layers.1.full_layer_layer_norm 4 1e-12"),
            format!("linear g.albert_layers.1.ffn 4->8"),
            format!("linear g.albert_layers.1.ffn_output 8->4"),
        ]
    );
}

#[test]
fn group_chains_its_blocks_from_a_copy_of_the_input() {
    let rt = symbolic();
    let group = AlbertLayerGroup::new(&rt, &ParamPath::root().child("g"), &config(2, 1, 2));
    let (hidden, hidden_states, attentions) = group.forward_t(&rt, &format!("x"), &None, false);
    let (first, _) = block_formula("g.albert_layers.0", "copy x", "-", false, "GeluNew");
    let (second, _) = block_formula("g.albert_layers.1", &first, "-", false, "GeluNew");
    assert_eq!(hidden, second);
    assert_eq!(hidden_states, None);
    assert_eq!(attentions, None);
}

#[test]
fn group_collects_the_state_before_each_block() {
    let rt = symbolic();
    let group = AlbertLayerGroup::new(
        &rt,
        &ParamPath::root().child("g"),
        &collecting(2, 1, 2, true, false),
    );
    let (hidden, hidden_states, attentions) = group.forward_t(&rt, &format!("x"), &None, false);
    let (first, _) = block_formula("g.albert_layers.0", "copy x", "-", false, "GeluNew");
    let (second, _) = block_formula("g.albert_layers.1", &first, "-", false, "GeluNew");
    assert_eq!(hidden, second);
    assert_eq!(hidden_states, Some(vec![format!("copy copy x"), format!("copy {}", first)]));
    assert_eq!(attentions, None);
}

#[test]
fn group_collects_the_weights_of_each_block() {
    let rt = symbolic();
    let group = AlbertLayerGroup::new(
        &rt,
        &ParamPath::root().child("g"),
        &collecting(2, 1, 2, false, true),
    );
    let (_, hidden_states, attentions) = group.forward_t(&rt, &format!("x"), &None, false);
    let (first, first_weights) = block_formula("g.albert_layers.0", "copy x", "-", false, "GeluNew");
    let (_, second_weights) = block_formula("g.albert_layers.1", &first, "-", false, "GeluNew");
    assert_eq!(hidden_states, None);
    assert_eq!(
        attentions,
        Some(vec![format!("copy {}", first_weights), format!("copy {}", second_weights)])
    );
}

#[test]
fn group_without_blocks_returns_a_copy() {
    for inner in [0, -3] {
        let rt = symbolic();
        let group = AlbertLayerGroup::new(
            &rt,
            &ParamPath::root(),
            &collecting(2, 1, inner, true, true),
        );
        assert!(rt.registered.borrow().is_empty());
        let (hidden, hidden_states, attentions) = group.forward_t(&rt, &format!("x"), &None, false);
        assert_eq!(hidden, "copy x");
        assert_eq!(hidden_states, Some(vec![]));
        assert_eq!(attentions, Some(vec![]));
    }
}

#[test]
fn stack_registers_projection_then_groups() {
    let rt = symbolic();
    let _stack = AlbertTransformer::new(&rt, &ParamPath::root().child("enc"), &config(4, 2, 1));
    assert_eq!(
        *rt.registered.borrow(),
        vec![
            format!("linear enc.embedding_hidden_mapping_in 2->4"),
            format!("attention enc.albert_layer_groups.0.albert_layers.0.attention 4"),
            format!("layer_norm enc.albert_layer_groups.0.albert_layers.0.full_layer_layer_norm 4 1e-12"),
            format!("linear enc.albert_layer_groups.0.albert_layers.0.ffn 4->8"),
            format!("linear enc.albert_layer_groups.0.albert_layers.0.ffn_output 8->4"),
            format!("attention enc.albert_layer_groups.1.albert_layers.0.attention 4"),
            format!("layer_norm enc.albert_layer_groups.1.albert_layers.0.full_layer_layer_norm 4 1e-12"),
            format!("linear enc.albert_layer_groups.1.albert_layers.0.ffn 4->8"),
            format!("linear enc.albert_layer_groups.1.albert_layers.0.ffn_output 8->4"),
        ]
    );
}

#[test]
fn stack_owns_one_group_per_configured_group() {
    for groups in [1, 3, 4] {
        let rt = symbolic();
        let _stack = AlbertTransformer::new(&rt, &ParamPath::root(), &config(12, groups, 2));
        let attentions = rt
            .registered
            .borrow()
            .iter()
            .filter(|line| line.starts_with("attention "))
            .count();
        assert_eq!(attentions as i64, groups * 2);
    }
}

#[test]
fn stack_tells_whether_it_can_run() {
    let rt = symbolic();
    assert!(AlbertTransformer::new(&rt, &ParamPath::root(), &config(12, 1, 1)).can_run());
    assert!(AlbertTransformer::new(&rt, &ParamPath::root(), &config(12, 12, 1)).can_run());
    assert!(AlbertTransformer::new(&rt, &ParamPath::root(), &config(12, 4, 1)).can_run());
    assert!(AlbertTransformer::new(&rt, &ParamPath::root(), &config(0, 0, 1)).can_run());
    assert!(!AlbertTransformer::new(&rt, &ParamPath::root(), &config(12, 0, 1)).can_run());
    assert!(!AlbertTransformer::new(&rt, &ParamPath::root(), &config(12, 5, 1)).can_run());
    assert!(!AlbertTransformer::new(&rt, &ParamPath::root(), &config(2, 4, 1)).can_run());
}

#[test]
fn stack_projects_once_then_walks_the_depth() {
    let rt = symbolic();
    let stack = AlbertTransformer::new(&rt, &ParamPath::root(), &config(2, 1, 1));
    let (hidden, hidden_states, attentions) = stack.forward_t(&rt, &format!("x"), None, false);
    let start = format!("embedding_hidden_mapping_in(x)");
    let at = "albert_layer_groups.0.albert_layers.0";
    let (first, _) = block_formula(at, &format!("copy {}", start), "-", false, "GeluNew");
    let (second, _) = block_formula(at, &format!("copy {}", first), "-", false, "GeluNew");
    assert_eq!(hidden, second);
    assert_eq!(hidden_states, None);
    assert_eq!(attentions, None);
}

#[test]
fn stack_without_steps_returns_the_projection() {
    let rt = symbolic();
    let stack = AlbertTransformer::new(&rt, &ParamPath::root(), &collecting(0, 1, 1, true, true));
    let (hidden, hidden_states, attentions) = stack.forward_t(&rt, &format!("x"), None, false);
    assert_eq!(hidden, "embedding_hidden_mapping_in(x)");
    assert_eq!(hidden_states, Some(vec![]));
    assert_eq!(attentions, Some(vec![]));
}

#[test]
fn stack_collects_the_state_before_each_step() {
    let rt = symbolic();
    let stack = AlbertTransformer::new(&rt, &ParamPath::root(), &collecting(3, 1, 1, true, false));
    let (hidden, hidden_states, attentions) = stack.forward_t(&rt, &format!("x"), None, true);
    let start = format!("embedding_hidden_mapping_in(x)");
    let at = "albert_layer_groups.0.albert_layers.0";
    let (first, _) = block_formula(at, &format!("copy {}", start), "-", true, "GeluNew");
    let (second, _) = block_formula(at, &format!("copy {}", first), "-", true, "GeluNew");
    let (third, _) = block_formula(at, &format!("copy {}", second), "-", true, "GeluNew");
    assert_eq!(hidden, third);
    assert_eq!(
        hidden_states,
        Some(vec![format!("copy {}", start), format!("copy {}", first), format!("copy {}", second)])
    );
    assert_eq!(attentions, None);
}

#[test]
fn stack_collects_attentions_step_by_step_and_block_by_block() {
    let rt = symbolic();
    let stack = AlbertTransformer::new(&rt, &ParamPath::root(), &collecting(2, 2, 2, false, true));
    let (hidden, hidden_states, attentions) =
        stack.forward_t(&rt, &format!("x"), Some(format!("m")), false);
    let start = format!("embedding_hidden_mapping_in(x)");
    let (a, wa) = block_formula(
        "albert_layer_groups.0.albert_layers.0",
        &format!("copy {}", start),
        "m",
        false,
        "GeluNew",
    );
    let (b, wb) = block_formula("albert_layer_groups.0.albert_layers.1", &a, "m", false, "GeluNew");
    let (c, wc) = block_formula(
        "albert_layer_groups.1.albert_layers.0",
        &format!("copy {}", b),
        "m",
        false,
        "GeluNew",
    );
    let (d, wd) = block_formula("albert_layer_groups.1.albert_layers.1", &c, "m", false, "GeluNew");
    assert_eq!(hidden, d);
    assert_eq!(hidden_states, None);
    assert_eq!(
        attentions,
        Some(vec![
            vec![format!("copy {}", wa), format!("copy {}", wb)],
            vec![format!("copy {}", wc), format!("copy {}", wd)],
        ])
    );
}

#[test]
fn histories_are_absent_unless_requested() {
    for (layers, groups) in [(1, 1), (4, 2), (6, 6)] {
        let rt = symbolic();
        let stack = AlbertTransformer::new(&rt, &ParamPath::root(), &config(layers, groups, 1));
        let (_, hidden_states, attentions) = stack.forward_t(&rt, &format!("x"), None, false);
        assert!(hidden_states.is_none());
        assert!(attentions.is_none());

        let rt = symbolic();
        let stack = AlbertTransformer::new(
            &rt,
            &ParamPath::root(),
            &collecting(layers, groups, 1, false, false),
        );
        let (_, hidden_states, attentions) = stack.forward_t(&rt, &format!("x"), None, false);
        assert!(hidden_states.is_none());
        assert!(attentions.is_none());
    }
}

#[test]
fn hidden_state_history_has_one_entry_per_step() {
    for (layers, groups) in [(1, 1), (4, 2), (6, 6), (12, 1)] {
        let rt = symbolic();
        let stack = AlbertTransformer::new(
            &rt,
            &ParamPath::root(),
            &collecting(layers, groups, 1, true, false),
        );
        let (_, hidden_states, attentions) = stack.forward_t(&rt, &format!("x"), None, false);
        assert_eq!(hidden_states.map(|history| history.len() as i64), Some(layers));
        assert!(attentions.is_none());
    }
}

#[test]
fn attention_history_has_steps_by_blocks_entries() {
    for (layers, groups, inner) in [(1, 1, 1), (4, 2, 3), (6, 6, 2), (6, 3, 0)] {
        let rt = symbolic();
        let stack = AlbertTransformer::new(
            &rt,
            &ParamPath::root(),
            &collecting(layers, groups, inner, false, true),
        );
        let (_, hidden_states, attentions) = stack.forward_t(&rt, &format!("x"), None, false);
        assert!(hidden_states.is_none());
        let attentions = attentions.unwrap();
        assert_eq!(attentions.len() as i64, layers);
        for step in attentions.iter() {
            assert_eq!(step.len() as i64, inner);
        }
    }
}

/// The group whose parameters depth step `step` used, read off the weights.
fn group_used(step: &[String]) -> String {
    let formula = &step[0];
    let from = formula.find("albert_layer_groups.").unwrap() + "albert_layer_groups.".len();
    let rest = &formula[from..];
    rest[..rest.find('.').unwrap()].to_string()
}

#[test]
fn without_sharing_step_i_uses_group_i() {
    let rt = symbolic();
    let stack = AlbertTransformer::new(&rt, &ParamPath::root(), &collecting(5, 5, 1, false, true));
    let (_, _, attentions) = stack.forward_t(&rt, &format!("x"), None, false);
    let used: Vec<String> = attentions.unwrap().iter().map(|step| group_used(step)).collect();
    assert_eq!(used, vec!["0", "1", "2", "3", "4"]);
}

#[test]
fn groups_are_used_in_consecutive_runs() {
    let rt = symbolic();
    let stack = AlbertTransformer::new(&rt, &ParamPath::root(), &collecting(6, 3, 1, false, true));
    let (_, _, attentions) = stack.forward_t(&rt, &format!("x"), None, false);
    let used: Vec<String> = attentions.unwrap().iter().map(|step| group_used(step)).collect();
    assert_eq!(used, vec!["0", "0", "1", "1", "2", "2"]);
}

#[test]
fn single_group_equals_repeated_invocation() {
    let rt = symbolic();
    let stack_config = collecting(4, 1, 2, true, true);
    let stack = AlbertTransformer::new(&rt, &ParamPath::root(), &stack_config);
    let (hidden, hidden_states, attentions) = stack.forward_t(&rt, &format!("x"), None, false);

    // The same group, registered apart and invoked by hand.
    let group = AlbertLayerGroup::new(
        &rt,
        &ParamPath::root().child("albert_layer_groups").child_index(0),
        &stack_config,
    );
    let mut state = format!("embedding_hidden_mapping_in(x)");
    let mut states = Vec::new();
    let mut weights = Vec::new();
    for _ in 0..4 {
        states.push(format!("copy {}", state));
        let (next, _, step_weights) = group.forward_t(&rt, &state, &None, false);
        state = next;
        weights.push(step_weights.unwrap());
    }
    assert_eq!(hidden, state);
    assert_eq!(hidden_states, Some(states));
    assert_eq!(attentions, Some(weights));
}

#[test]
fn two_passes_return_the_same() {
    let rt = symbolic();
    let stack = AlbertTransformer::new(&rt, &ParamPath::root(), &collecting(4, 2, 2, true, true));
    let first = stack.forward_t(&rt, &format!("x"), Some(format!("m")), false);
    let second = stack.forward_t(&rt, &format!("x"), Some(format!("m")), false);
    assert_eq!(first, second);
}
