use gsn2x_lib::diagnostics::Diagnostics;
use gsn2x_lib::engine::{CheckState, Engine};
use gsn2x_lib::gsn::{Documents, GsnDocument, GsnNode, Module, ModuleInformation, Modules, Nodes};
use gsn2x_lib::inputs::LoadedFile;
use gsn2x_lib::process::{
    check_node_types, describe_check_failure, describe_invalid_svg, read_svg, ParseError,
};
use gsn2x_lib::render::{RenderLegend, RenderOptions};
use gsn2x_lib::yaml::YamlError;
use gsn2x_lib::{parse_yaml_str, process_gsn};
use serde_yaml_ng::Value;

/// Parses documents, passes or fails every check, and renders names.
struct Sketch {
    passes: bool,
    rendering: Option<Result<Vec<u8>, String>>,
}

fn passing() -> Sketch {
    Sketch { passes: true, rendering: None }
}

fn list(value: Option<&Value>) -> Vec<String> {
    match value.and_then(|v| v.as_sequence()) {
        Some(items) => items.iter().filter_map(|i| i.as_str()).map(|s| s.to_string()).collect(),
        None => vec![],
    }
}

impl Engine for Sketch {
    fn parse_documents(&self, yaml: &str) -> Result<Documents, serde_yaml_ng::Error> {
        let value: serde_yaml_ng::Mapping = serde_yaml_ng::from_str(yaml)?;
        let mut documents = Documents::new();
        for (name, entry) in value.iter() {
            let name = name.as_str().unwrap().to_string();
            let document = match entry.get("name") {
                Some(module) => {
                    let mut info = ModuleInformation::new(module.as_str().unwrap().to_string());
                    info.char_wrap =
                        entry.get("charWrap").and_then(|v| v.as_u64()).map(|n| n as u32);
                    GsnDocument::ModuleInformation(info)
                }
                None => {
                    let mut node = GsnNode::default();
                    node.supported_by = list(entry.get("supportedBy"));
                    GsnDocument::GsnNode(node)
                }
            };
            documents.insert(name, document);
        }
        Ok(documents)
    }
    fn escape_text(&self, text: &str) -> String {
        format!("<{text}>")
    }
    fn validate_module(
        &self,
        mut state: CheckState,
        module: &Module,
        extended_check: bool,
        warn_dialectic: bool,
    ) -> (CheckState, bool) {
        assert!(!extended_check);
        assert!(!warn_dialectic);
        if !self.passes {
            state.diags.add_error(Some(&module.meta.name), "wrong".to_string());
            state.diags.add_warning(None, "strange".to_string());
        }
        (state, self.passes)
    }
    fn extend_modules(&self, state: CheckState, _: &Modules) -> (CheckState, bool) {
        (state, true)
    }
    fn check_nodes(&self, state: CheckState, excluded_modules: &[&str]) -> (CheckState, bool) {
        assert!(excluded_modules.is_empty());
        (state, true)
    }
    fn check_layers(&self, state: CheckState, layers: &[&str]) -> (CheckState, bool) {
        assert!(layers.is_empty());
        (state, true)
    }
    fn render_complete(&self, nodes: &Nodes, options: &RenderOptions) -> Result<Vec<u8>, String> {
        assert!(options.stylesheets.is_empty());
        assert!(options.masked_elements.is_empty());
        assert!(options.layers.is_empty());
        assert_eq!(options.legend, RenderLegend::No);
        assert!(!options.embed_stylesheets);
        assert_eq!(options.architecture_filename, None);
        assert_eq!(options.evidence_filename, None);
        assert_eq!(options.complete_filename, None);
        assert_eq!(options.output_directory, ".");
        assert!(options.skip_argument);
        match &self.rendering {
            Some(rendering) => rendering.clone(),
            None => {
                let mut text = format!("{:?}", options.char_wrap);
                for i in 0..nodes.len() {
                    text.push_str(&format!(" {}@{}", nodes.name_at(i), nodes.value_at(i).module));
                }
                Ok(text.into_bytes())
            }
        }
    }
}

const GOOD: &str = "G1:\n  text: a goal\n  supportedBy: [Sn1]\nSn1:\n  text: a solution\n";

#[test]
fn document_is_rendered() {
    assert_eq!(
        process_gsn(&passing(), GOOD, 0),
        Ok("None G1@<input.gsn.yaml> Sn1@<input.gsn.yaml>".to_string())
    );
}

#[test]
fn wrapping_width_is_handed_on() {
    let rendering = process_gsn(&passing(), GOOD, 72).unwrap();
    assert!(rendering.starts_with("Some(72) "));
}

#[test]
fn module_name_is_taken_from_the_document() {
    let yaml = format!("module:\n  name: argument\n{GOOD}");
    assert_eq!(
        process_gsn(&passing(), &yaml, 0),
        Ok("None G1@argument Sn1@argument".to_string())
    );
}

#[test]
fn invalid_yaml() {
    let message = process_gsn(&passing(), "G1:\n  text: a goal\n @wrong", 0).unwrap_err();
    let parser_says =
        serde_yaml_ng::from_str::<Value>("G1:\n  text: a goal\n @wrong").unwrap_err();
    let line = parser_says.location().unwrap().line();
    assert!(line >= 1);
    assert_eq!(
        message,
        format!(
            "No valid GSN element can be found starting from line {line}.\n\
             This typically means that the YAML is completely invalid or \n\
             the `text:` attribute is missing for an element.\n\
             Please see the documentation for details.\n\
             Original error message: {parser_says}."
        )
    );
}

#[test]
fn errors_of_the_parser() {
    let error = serde_yaml_ng::from_str::<Value>("@invalid_yaml").unwrap_err();
    let said = YamlError::of(&error);
    assert_eq!(said.line, Some(1));
    assert_eq!(said.message, error.to_string());
    let error = serde_yaml_ng::from_str::<Value>("--- 1\n--- 2\n").unwrap_err();
    assert_eq!(YamlError::of(&error).line, None);
    assert_eq!(
        YamlError { line: None, message: "why".to_string() }.text(),
        "No valid GSN element can be found starting from line unknown.\nThis typically means that \
         the YAML is completely invalid or \nthe `text:` attribute is missing for an element.\n\
         Please see the documentation for details.\nOriginal error message: why."
    );
}

#[test]
fn misplaced_module_information() {
    let message = process_gsn(&passing(), "G1:\n  name: strange\n", 0).unwrap_err();
    assert_eq!(message, "Module information is only allowed under the name module.");
}

#[test]
fn empty_document() {
    let message = process_gsn(&passing(), "{}", 0).unwrap_err();
    assert_eq!(message, "\nError: No input elements are found.");
}

#[test]
fn failed_check() {
    let engine = Sketch { passes: false, rendering: None };
    let message = process_gsn(&engine, GOOD, 0).unwrap_err();
    assert_eq!(message, "\nError: (<input.gsn.yaml>) wrong\nWarning: strange");
}

#[test]
fn unknown_kinds() {
    let yaml = "X2:\n  text: a\nG1:\n  text: b\nB:\n  text: c\n";
    let message = process_gsn(&passing(), yaml, 0).unwrap_err();
    assert_eq!(
        message,
        "Unknown node type(s): B, X2. Node names must start with: G (Goal), S (Strategy), \
         Sn (Solution), C (Context), A (Assumption), J (Justification), CG (CounterGoal), \
         CSn (CounterSolution)."
    );
}

#[test]
fn known_kinds_pass() {
    let mut nodes = Nodes::new();
    assert_eq!(check_node_types(&nodes), None);
    let mut node = GsnNode::default();
    node.fix_node_type("J1");
    nodes.insert("J1".to_string(), node);
    assert_eq!(check_node_types(&nodes), None);
    nodes.insert("J2".to_string(), GsnNode::default());
    assert!(check_node_types(&nodes).unwrap().starts_with("Unknown node type(s): J2. "));
}

#[test]
fn rendering_fails() {
    let engine = Sketch { passes: true, rendering: Some(Err("no ink".to_string())) };
    assert_eq!(process_gsn(&engine, GOOD, 0), Err("no ink".to_string()));
}

#[test]
fn rendering_is_no_text() {
    let bytes = vec![b'a', 0xff];
    let reason = String::from_utf8(bytes.clone()).unwrap_err().to_string();
    let expected = Err(format!("SVG output was not valid UTF-8: {reason}"));
    assert_eq!(read_svg(bytes.clone()), expected);
    let engine = Sketch { passes: true, rendering: Some(Ok(bytes)) };
    assert_eq!(process_gsn(&engine, GOOD, 0), expected);
    assert_eq!(read_svg("<svg>ä€</svg>".as_bytes().to_vec()), Ok("<svg>ä€</svg>".to_string()));
}

#[test]
fn texts_are_taken_in_one_after_the_other() {
    let engine = passing();
    let (mut nodes, mut modules, mut diags) = (Nodes::new(), Modules::new(), Diagnostics::new());
    let first = "module:\n  name: m\n  charWrap: 40\nG1:\n  text: a\n";
    assert!(
        parse_yaml_str(&engine, first, "one", &mut nodes, &mut modules, &mut diags).is_ok()
    );
    assert_eq!(nodes.get("G1").unwrap().char_wrap, Some(40));
    assert_eq!(modules.get("m").unwrap().orig_file_name, "one");
    // The same module again.
    assert!(
        parse_yaml_str(&engine, first, "two", &mut nodes, &mut modules, &mut diags).is_ok()
    );
    // Another module with the same element.
    let third = "G1:\n  text: a\nG2:\n  text: b\n";
    assert!(
        parse_yaml_str(&engine, third, "three", &mut nodes, &mut modules, &mut diags).is_ok()
    );
    assert_eq!(nodes.len(), 1);
    assert_eq!(modules.len(), 2);
    assert_eq!(
        describe_check_failure(&diags),
        "\nError: (m) C06: Module two was already present in one.\
         \nError: (<three>) C07: Element G1 in three was already present in m."
    );
    // A text that cannot be parsed changes nothing.
    let result = parse_yaml_str(&engine, "@", "four", &mut nodes, &mut modules, &mut diags);
    assert!(matches!(result, Err(ParseError::Yaml(_))));
    assert_eq!(modules.len(), 2);
    assert_eq!(diags.errors(), 2);
}

#[test]
fn width_only_influences_rendering() {
    let engine = passing();
    for yaml in ["G1:\n  text: a goal\n @wrong", "{}", "X2:\n  text: a\n", "G1:\n  name: x\n"] {
        let failure = process_gsn(&engine, yaml, 0);
        assert!(failure.is_err());
        assert_eq!(process_gsn(&engine, yaml, 40), failure);
        assert_eq!(process_gsn(&engine, yaml, 0), failure);
    }
    assert_eq!(process_gsn(&engine, GOOD, 40), process_gsn(&engine, GOOD, 40));
    assert_ne!(process_gsn(&engine, GOOD, 40), process_gsn(&engine, GOOD, 0));
}

#[test]
fn message_about_a_rendering_that_is_no_text() {
    assert_eq!(describe_invalid_svg("why"), "SVG output was not valid UTF-8: why");
}

#[test]
fn file_without_a_module_is_named_after_itself() {
    let engine = passing();
    let load = |yaml: &str| {
        LoadedFile::of_input(
            &engine,
            engine.parse_documents(yaml).unwrap(),
            "in/a.yaml",
            "/in/a.yaml".to_string(),
            Some("out/a.svg".to_string()),
        )
    };
    let file = load(GOOD);
    assert_eq!(file.info.name, "<in/a.yaml>");
    assert_eq!(file.elements.len(), 2);
    assert_eq!(file.canonical_path, "/in/a.yaml");
    assert_eq!(file.output_path, Some("out/a.svg".to_string()));
    let file = load(&format!("module:\n  name: argument\n{GOOD}"));
    assert_eq!(file.info.name, "argument");
    assert_eq!(file.elements.len(), 2);
}

#[test]
fn text_that_is_not_taken_in_fails_as_by_itself() {
    let engine = passing();
    for yaml in ["@", "G1:\n  name: strange\n"] {
        let (mut nodes, mut modules, mut diags) =
            (Nodes::new(), Modules::new(), Diagnostics::new());
        let error = parse_yaml_str(
            &engine,
            yaml,
            "input.gsn.yaml",
            &mut nodes,
            &mut modules,
            &mut diags,
        )
        .unwrap_err();
        assert_eq!(process_gsn(&engine, yaml, 7), Err(error.text()));
    }
}
