use gsn2x_lib::check_and_add_nodes;
use gsn2x_lib::diagnostics::Diagnostics;
use gsn2x_lib::documents::elements_only;
use gsn2x_lib::gsn::{
    node_type_from_name, Documents, GsnDocument, GsnNode, GsnNodeType, Module, ModuleInformation,
    Modules, Nodes, Origin,
};
use gsn2x_lib::make_unknown_node_for;
use gsn2x_lib::modules::{add_unfiled_document, take_module_information};
use gsn2x_lib::process::{take_in_document, ParseError};
use gsn2x_lib::MODULE_INFORMATION_NODE;

fn strings(list: &[&str]) -> Vec<String> {
    list.iter().map(|s| s.to_string()).collect()
}

fn element(supported_by: &[&str], in_context_of: &[&str]) -> GsnNode {
    let mut node = GsnNode::default();
    node.text = "a text".to_string();
    node.supported_by = strings(supported_by);
    node.in_context_of = strings(in_context_of);
    node
}

fn document(names: &[&str]) -> Documents {
    let mut documents = Documents::new();
    for name in names {
        documents.insert(name.to_string(), GsnDocument::GsnNode(element(&[], &[])));
    }
    documents
}

fn names(nodes: &Nodes) -> Vec<String> {
    (0..nodes.len()).map(|i| nodes.name_at(i).clone()).collect()
}

fn lines(diags: &Diagnostics) -> Vec<String> {
    diags.messages().iter().map(|m| m.text()).collect()
}

#[test]
fn kinds_by_name() {
    let kinds = [
        ("G1", Some(GsnNodeType::Goal)),
        ("S1", Some(GsnNodeType::Strategy)),
        ("Sn1", Some(GsnNodeType::Solution)),
        ("C1", Some(GsnNodeType::Context)),
        ("A1", Some(GsnNodeType::Assumption)),
        ("J1", Some(GsnNodeType::Justification)),
        ("CG1", Some(GsnNodeType::CounterGoal)),
        ("CSn1", Some(GsnNodeType::CounterSolution)),
        ("CS1", Some(GsnNodeType::Context)),
        ("SN1", Some(GsnNodeType::Strategy)),
        ("G", Some(GsnNodeType::Goal)),
        ("X1", None),
        ("g1", None),
        ("", None),
    ];
    for (name, kind) in kinds {
        assert_eq!(node_type_from_name(name), kind, "{name}");
    }
}

#[test]
fn first_letter_decides_whether_a_kind_is_known() {
    for c in ' '..='~' {
        let known = node_type_from_name(&format!("{c}1")).is_some();
        assert_eq!(known, "GSCAJ".contains(c), "{c}");
    }
}

#[test]
fn given_kind_stays() {
    let mut node = GsnNode::default();
    node.node_type = Some(GsnNodeType::Context);
    node.fix_node_type("G1");
    assert_eq!(node.node_type, Some(GsnNodeType::Context));
    node.node_type = None;
    node.fix_node_type("G1");
    assert_eq!(node.node_type, Some(GsnNodeType::Goal));
}

#[test]
fn stand_in_for_an_unknown_element() {
    let node = make_unknown_node_for("CSn7");
    assert_eq!(node.module, "Unknown");
    assert_eq!(node.node_type, Some(GsnNodeType::CounterSolution));
    assert_eq!(node.text, "");
    assert!(node.supported_by.is_empty());
    assert!(node.in_context_of.is_empty());
    assert_eq!(node.char_wrap, None);
}

#[test]
fn elements_are_prepared() {
    let mut documents = Documents::new();
    let mut wrapped = element(&["G3", "G2", "G3"], &["J1", "C1"]);
    wrapped.char_wrap = Some(20);
    wrapped.additional = "url: there\n".to_string();
    documents.insert("G1".to_string(), GsnDocument::GsnNode(wrapped));
    documents.insert("X".to_string(), GsnDocument::GsnNode(element(&[], &[])));
    let mut nodes = Nodes::new();
    let mut diags = Diagnostics::new();
    check_and_add_nodes(
        documents,
        &mut nodes,
        &"mod".to_string(),
        &mut diags,
        &"file".to_string(),
        Some(60),
    );
    let g1 = nodes.get("G1").unwrap();
    assert_eq!(g1.module, "mod");
    assert_eq!(g1.node_type, Some(GsnNodeType::Goal));
    assert_eq!(g1.supported_by, strings(&["G2", "G3", "G3"]));
    assert_eq!(g1.in_context_of, strings(&["C1", "J1"]));
    assert_eq!(g1.char_wrap, Some(20));
    assert_eq!(g1.text, "a text");
    assert_eq!(g1.additional, "url: there\n");
    let x = nodes.get("X").unwrap();
    assert_eq!(x.node_type, None);
    assert_eq!(x.char_wrap, Some(60));
    assert!(diags.messages().is_empty());
}

#[test]
fn fresh_document_is_added() {
    let mut nodes = Nodes::new();
    let mut diags = Diagnostics::new();
    let module = "m1".to_string();
    check_and_add_nodes(document(&["G1"]), &mut nodes, &module, &mut diags, &module, None);
    let module = "m2".to_string();
    check_and_add_nodes(document(&["G2", "C1"]), &mut nodes, &module, &mut diags, &module, None);
    assert_eq!(names(&nodes), strings(&["C1", "G1", "G2"]));
    assert_eq!(nodes.get("G1").unwrap().module, "m1");
    assert_eq!(nodes.get("G2").unwrap().module, "m2");
    assert!(diags.messages().is_empty());
}

#[test]
fn first_collision_ends_the_document() {
    let mut nodes = Nodes::new();
    let mut diags = Diagnostics::new();
    let module = "m1".to_string();
    check_and_add_nodes(document(&["G2", "G4"]), &mut nodes, &module, &mut diags, &module, None);
    let module = "m2".to_string();
    check_and_add_nodes(
        document(&["G5", "G4", "G3", "G2", "G1"]),
        &mut nodes,
        &module,
        &mut diags,
        &"two.yaml".to_string(),
        None,
    );
    assert_eq!(names(&nodes), strings(&["G1", "G2", "G4"]));
    assert_eq!(nodes.get("G2").unwrap().module, "m1");
    assert_eq!(
        lines(&diags),
        vec!["Error: (m2) C07: Element G2 in two.yaml was already present in m1."]
    );
    assert_eq!(diags.errors(), 1);
}

#[test]
fn module_information_is_no_element() {
    let mut documents = document(&["G1", "G3"]);
    let info = ModuleInformation::new("late".to_string());
    documents.insert("G2".to_string(), GsnDocument::ModuleInformation(info));
    let mut nodes = Nodes::new();
    assert!(!elements_only(&documents, &nodes));
    // It does not matter behind a name that is taken already.
    nodes.insert("G1".to_string(), GsnNode::default());
    assert!(elements_only(&documents, &nodes));
}

#[test]
fn module_information_is_taken_out() {
    assert_eq!(MODULE_INFORMATION_NODE, "module");
    let mut documents = document(&["G1"]);
    let info = ModuleInformation::new("argument".to_string());
    documents.insert("module".to_string(), GsnDocument::ModuleInformation(info));
    assert_eq!(take_module_information(&mut documents).unwrap().name, "argument");
    assert!(take_module_information(&mut documents).is_none());
    assert_eq!(documents.len(), 1);
    // An element of that name is dropped.
    let mut documents = document(&["G1", "module"]);
    assert!(take_module_information(&mut documents).is_none());
    assert!(!documents.contains_key("module"));
}

#[test]
fn modules_are_taken_in_once() {
    let (mut nodes, mut modules, mut diags) = (Nodes::new(), Modules::new(), Diagnostics::new());
    let mut info = ModuleInformation::new("m".to_string());
    info.char_wrap = Some(30);
    add_unfiled_document(info, document(&["G1"]), "a.yaml", &mut nodes, &mut modules, &mut diags);
    let module = modules.get("m").unwrap();
    assert_eq!(module.orig_file_name, "a.yaml");
    assert!(matches!(module.origin, Origin::CommandLine));
    assert_eq!(module.canonical_path, None);
    assert_eq!(module.output_path, None);
    assert_eq!(nodes.get("G1").unwrap().char_wrap, Some(30));
    let info = ModuleInformation::new("m".to_string());
    let result =
        take_in_document(info, document(&["G2"]), "b.yaml", &mut nodes, &mut modules, &mut diags);
    assert!(result.is_ok());
    assert_eq!(names(&nodes), strings(&["G1"]));
    assert_eq!(modules.len(), 1);
    assert_eq!(
        lines(&diags),
        vec!["Error: (m) C06: Module b.yaml was already present in a.yaml."]
    );
}

#[test]
fn misplaced_module_information_is_refused() {
    let (mut nodes, mut modules, mut diags) = (Nodes::new(), Modules::new(), Diagnostics::new());
    let mut elements = document(&["G1"]);
    let late = ModuleInformation::new("late".to_string());
    elements.insert("Z".to_string(), GsnDocument::ModuleInformation(late));
    let info = ModuleInformation::new("m".to_string());
    let result = take_in_document(info, elements, "a", &mut nodes, &mut modules, &mut diags);
    assert!(matches!(result, Err(ParseError::Misplaced)));
    assert!(nodes.is_empty());
    assert!(modules.is_empty());
    assert!(diags.messages().is_empty());
    // For a module that is there already it is the module that is complained about.
    modules.insert(
        "m".to_string(),
        Module {
            orig_file_name: "first".to_string(),
            meta: ModuleInformation::new("m".to_string()),
            origin: Origin::CommandLine,
            canonical_path: None,
            output_path: None,
        },
    );
    let mut elements = Documents::new();
    let late = ModuleInformation::new("late".to_string());
    elements.insert("Z".to_string(), GsnDocument::ModuleInformation(late));
    let info = ModuleInformation::new("m".to_string());
    let result = take_in_document(info, elements, "a", &mut nodes, &mut modules, &mut diags);
    assert!(result.is_ok());
    assert_eq!(diags.errors(), 1);
}
