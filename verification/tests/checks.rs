use gsn2x_lib::diagnostics::Diagnostics;
use gsn2x_lib::engine::{CheckState, Engine};
use gsn2x_lib::gsn::{Documents, GsnNode, Module, ModuleInformation, Modules, Nodes, Origin};
use gsn2x_lib::render::RenderOptions;
use gsn2x_lib::{validate_and_check, ValidationOrCheckError};
use std::cell::RefCell;

/// Records what it is asked for, and fails in one place.
struct Recorder {
    calls: RefCell<Vec<String>>,
    fails_at: usize,
}

impl Recorder {
    fn new(fails_at: usize) -> Recorder {
        Recorder { calls: RefCell::new(vec![]), fails_at }
    }

    fn record(&self, mut state: CheckState, call: String) -> (CheckState, bool) {
        let at = self.calls.borrow().len();
        state.diags.add_warning(None, call.clone());
        state.nodes.insert(format!("left by {at}"), GsnNode::default());
        self.calls.borrow_mut().push(call);
        (state, at != self.fails_at)
    }
}

impl Engine for Recorder {
    fn parse_documents(&self, _: &str) -> Result<Documents, serde_yaml_ng::Error> {
        unreachable!()
    }
    fn escape_text(&self, _: &str) -> String {
        unreachable!()
    }
    fn validate_module(
        &self,
        state: CheckState,
        module: &Module,
        extended_check: bool,
        warn_dialectic: bool,
    ) -> (CheckState, bool) {
        self.record(state, format!("module {} {extended_check} {warn_dialectic}", module.meta.name))
    }
    fn extend_modules(&self, state: CheckState, modules: &Modules) -> (CheckState, bool) {
        self.record(state, format!("extend {}", modules.len()))
    }
    fn check_nodes(&self, state: CheckState, excluded_modules: &[&str]) -> (CheckState, bool) {
        self.record(state, format!("nodes {excluded_modules:?}"))
    }
    fn check_layers(&self, state: CheckState, layers: &[&str]) -> (CheckState, bool) {
        self.record(state, format!("layers {layers:?}"))
    }
    fn render_complete(&self, _: &Nodes, _: &RenderOptions) -> Result<Vec<u8>, String> {
        unreachable!()
    }
}

fn node(module: &str) -> GsnNode {
    let mut node = GsnNode::default();
    node.module = module.to_string();
    node
}

fn modules(names: &[&str]) -> Modules {
    let mut modules = Modules::new();
    for name in names {
        modules.insert(
            name.to_string(),
            Module {
                orig_file_name: format!("{name}.yaml"),
                meta: ModuleInformation::new(name.to_string()),
                origin: Origin::CommandLine,
                canonical_path: None,
                output_path: None,
            },
        );
    }
    modules
}

fn lines(diags: &Diagnostics) -> Vec<String> {
    diags.messages().iter().map(|m| m.text()).collect()
}

const ALL: [&str; 5] = [
    "module a true false",
    "module b true false",
    "extend 2",
    "nodes [\"x\"]",
    "layers [\"l1\", \"l2\"]",
];

fn run(fails_at: usize) -> (Vec<String>, Result<(), ValidationOrCheckError>, Nodes, Diagnostics) {
    let engine = Recorder::new(fails_at);
    let mut nodes = Nodes::new();
    nodes.insert("G1".to_string(), node("a"));
    nodes.insert("G2".to_string(), node("b"));
    let mut diags = Diagnostics::new();
    diags.add_warning(None, "before".to_string());
    let result = validate_and_check(
        &engine,
        &mut nodes,
        &modules(&["b", "a"]),
        &mut diags,
        &["x"],
        &["l1", "l2"],
        true,
        false,
    );
    (engine.calls.into_inner(), result, nodes, diags)
}

#[test]
fn no_elements() {
    let engine = Recorder::new(0);
    let mut nodes = Nodes::new();
    let mut diags = Diagnostics::new();
    let result = validate_and_check(
        &engine,
        &mut nodes,
        &modules(&["a"]),
        &mut diags,
        &[],
        &[],
        false,
        false,
    );
    assert_eq!(result, Err(ValidationOrCheckError {}));
    assert_eq!(lines(&diags), vec!["Error: No input elements are found."]);
    assert!(engine.calls.into_inner().is_empty());
}

#[test]
fn modules_without_elements() {
    let engine = Recorder::new(0);
    let mut nodes = Nodes::new();
    nodes.insert("G1".to_string(), node("b"));
    let mut diags = Diagnostics::new();
    let result = validate_and_check(
        &engine,
        &mut nodes,
        &modules(&["c", "b", "a"]),
        &mut diags,
        &[],
        &[],
        false,
        false,
    );
    assert_eq!(result, Err(ValidationOrCheckError {}));
    assert_eq!(
        lines(&diags),
        vec![
            "Error: (a) The module does not contain elements.",
            "Error: (c) The module does not contain elements.",
        ]
    );
    assert_eq!(nodes.len(), 1);
    assert!(engine.calls.into_inner().is_empty());
}

#[test]
fn all_checks_are_made_in_order() {
    let (calls, result, nodes, diags) = run(99);
    assert_eq!(calls, ALL);
    assert_eq!(result, Ok(()));
    // Each check works on what the one before it left.
    assert_eq!(nodes.len(), 2 + 5);
    assert_eq!(diags.warnings(), 1 + 5);
    assert_eq!(lines(&diags)[0], "Warning: before");
    assert_eq!(lines(&diags)[5], "Warning: layers [\"l1\", \"l2\"]");
}

#[test]
fn checking_ends_with_the_first_failure() {
    for fails_at in 0..5 {
        let (calls, result, nodes, diags) = run(fails_at);
        assert_eq!(calls, ALL[..fails_at + 1]);
        assert_eq!(result, Err(ValidationOrCheckError {}));
        assert_eq!(nodes.len(), 2 + fails_at + 1);
        assert_eq!(diags.warnings(), 1 + fails_at + 1);
    }
}
