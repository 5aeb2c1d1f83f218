use gsn2x_lib::diagnostics::Diagnostics;
use gsn2x_lib::gsn::{
    find_module_by_path, Documents, GsnDocument, GsnNode, ModuleInformation, Modules, Nodes, Origin,
};
use gsn2x_lib::inputs::{
    describe_load_failure, is_acceptable, InputQueue, LoadFailure, LoadedFile,
};
use gsn2x_lib::uses::{get_uses_files, resolve_uses, UsePlace};
use gsn2x_lib::ValidationOrCheckError;

fn strings(list: &[&str]) -> Vec<String> {
    list.iter().map(|s| s.to_string()).collect()
}

fn file(name: Option<&str>, uses: &[&str], elements: &[&str], path: &str) -> LoadedFile {
    let mut documents = Documents::new();
    for element in elements {
        documents.insert(element.to_string(), GsnDocument::GsnNode(GsnNode::default()));
    }
    if let Some(name) = name {
        let mut info = ModuleInformation::new(name.to_string());
        info.uses = strings(uses);
        documents.insert("module".to_string(), GsnDocument::ModuleInformation(info));
    }
    LoadedFile::new(
        documents,
        "named after the file".to_string(),
        path.to_string(),
        Some(format!("{path}.svg")),
    )
}

fn lines(diags: &Diagnostics) -> Vec<String> {
    diags.messages().iter().map(|m| m.text()).collect()
}

#[test]
fn files_are_read_in_order() {
    let mut queue = InputQueue::new(&strings(&["a\\b.yaml", "c.yaml"]));
    assert!(queue.is_first_run());
    assert_eq!(queue.next_input(), Some("a/b.yaml".to_string()));
    queue.note_imports(strings(&["d.yaml"]));
    assert_eq!(queue.next_input(), Some("c.yaml".to_string()));
    assert!(queue.is_first_run());
    queue.note_imports(strings(&["e.yaml", "f.yaml"]));
    assert_eq!(queue.next_input(), Some("d.yaml".to_string()));
    assert!(!queue.is_first_run());
    queue.note_imports(strings(&["g.yaml"]));
    assert_eq!(queue.next_input(), Some("e.yaml".to_string()));
    assert_eq!(queue.next_input(), Some("f.yaml".to_string()));
    assert_eq!(queue.next_input(), Some("g.yaml".to_string()));
    assert_eq!(queue.next_input(), None);
    assert_eq!(queue.next_input(), None);
}

#[test]
fn nothing_to_read() {
    assert_eq!(InputQueue::new(&vec![]).next_input(), None);
}

#[test]
fn used_files_are_found_beside_the_file() {
    let mut info = ModuleInformation::new("m".to_string());
    info.uses = strings(&["other.yaml", "sub\\more.yaml", "/abs/one.yaml", "../up.yaml"]);
    let mut diags = Diagnostics::new();
    assert_eq!(
        get_uses_files(&info, &"dir/main.yaml".to_string(), &mut diags),
        strings(&["dir/other.yaml", "dir/sub/more.yaml", "/abs/one.yaml", "dir/../up.yaml"])
    );
    assert_eq!(
        get_uses_files(&info, &"main.yaml".to_string(), &mut diags),
        strings(&["other.yaml", "sub/more.yaml", "/abs/one.yaml", "../up.yaml"])
    );
    // A path that is empty has no directory.
    assert_eq!(
        get_uses_files(&info, &String::new(), &mut diags),
        strings(&["/abs/one.yaml"])
    );
    assert!(diags.messages().is_empty());
}

#[test]
fn used_files_without_a_place_are_left_out() {
    let mut info = ModuleInformation::new("m".to_string());
    info.uses = strings(&["a", "b\\c", "d", "e"]);
    let places = vec![
        UsePlace::Unclear,
        UsePlace::Absolute,
        UsePlace::Relative(None),
        UsePlace::Relative(Some("x\\e".to_string())),
    ];
    let mut diags = Diagnostics::new();
    assert_eq!(resolve_uses(&info, &places, &mut diags), strings(&["b/c", "x/e"]));
    assert_eq!(
        lines(&diags),
        vec!["Warning: (m) Could not identify used file a in module; ignoring it."]
    );
}

#[test]
fn file_is_taken_in() {
    let mut queue = InputQueue::new(&strings(&["in/main.yaml"]));
    let (mut nodes, mut modules, mut diags) = (Nodes::new(), Modules::new(), Diagnostics::new());
    let input = queue.next_input().unwrap();
    let main = file(Some("main"), &["sub.yaml"], &["G1", "G2"], "/in/main.yaml");
    assert!(is_acceptable(&main, &nodes, &modules));
    assert_eq!(queue.accept(&input, main, &mut nodes, &mut modules, &mut diags), Ok(()));
    let module = modules.get("main").unwrap();
    assert_eq!(module.orig_file_name, "in/main.yaml");
    assert!(matches!(module.origin, Origin::CommandLine));
    assert_eq!(module.canonical_path, Some("/in/main.yaml".to_string()));
    assert_eq!(module.output_path, Some("/in/main.yaml.svg".to_string()));
    assert_eq!(nodes.len(), 2);

    // The file that it uses is read in the next round.
    let input = queue.next_input().unwrap();
    assert_eq!(input, "in/sub.yaml");
    let sub = file(None, &[], &["G3"], "/in/sub.yaml");
    assert_eq!(queue.accept(&input, sub, &mut nodes, &mut modules, &mut diags), Ok(()));
    let module = modules.get("named after the file").unwrap();
    assert_eq!(module.origin.text(), "in/sub.yaml");
    assert_eq!(nodes.get("G3").unwrap().module, "named after the file");
    assert_eq!(queue.next_input(), None);
    assert!(diags.messages().is_empty());
}

#[test]
fn module_that_is_read_twice() {
    let mut queue = InputQueue::new(&strings(&["a.yaml", "b.yaml"]));
    let (mut nodes, mut modules, mut diags) = (Nodes::new(), Modules::new(), Diagnostics::new());
    let input = queue.next_input().unwrap();
    let first = file(Some("m"), &[], &["G1"], "/a.yaml");
    assert_eq!(queue.accept(&input, first, &mut nodes, &mut modules, &mut diags), Ok(()));
    let input = queue.next_input().unwrap();
    let second = file(Some("m"), &["c.yaml"], &["G2"], "/b.yaml");
    assert!(is_acceptable(&second, &nodes, &modules));
    assert_eq!(
        queue.accept(&input, second, &mut nodes, &mut modules, &mut diags),
        Err(ValidationOrCheckError {})
    );
    assert_eq!(
        lines(&diags),
        vec![
            "Error: (m) C06: Module in b.yaml was already present in a.yaml provided by \
             command line."
        ]
    );
    assert_eq!(nodes.len(), 1);
    assert_eq!(modules.len(), 1);
    assert_eq!(queue.next_input(), None);
}

#[test]
fn files_that_use_each_other() {
    let mut queue = InputQueue::new(&strings(&["a.yaml"]));
    let (mut nodes, mut modules, mut diags) = (Nodes::new(), Modules::new(), Diagnostics::new());
    let a = || file(Some("a"), &["b.yaml"], &["G1"], "/a.yaml");
    let b = || file(Some("b"), &["a.yaml"], &["G2"], "/b.yaml");
    let input = queue.next_input().unwrap();
    assert_eq!(queue.accept(&input, a(), &mut nodes, &mut modules, &mut diags), Ok(()));
    let input = queue.next_input().unwrap();
    assert_eq!(input, "b.yaml");
    assert_eq!(queue.accept(&input, b(), &mut nodes, &mut modules, &mut diags), Ok(()));
    let input = queue.next_input().unwrap();
    assert_eq!(input, "a.yaml");
    assert!(queue.accept(&input, a(), &mut nodes, &mut modules, &mut diags).is_err());
    assert_eq!(diags.errors(), 1);
}

#[test]
fn file_that_was_read_under_another_name() {
    let mut queue = InputQueue::new(&strings(&["a.yaml"]));
    let (mut nodes, mut modules, mut diags) = (Nodes::new(), Modules::new(), Diagnostics::new());
    let input = queue.next_input().unwrap();
    let first = file(Some("m"), &[], &["G1"], "/a.yaml");
    assert_eq!(queue.accept(&input, first, &mut nodes, &mut modules, &mut diags), Ok(()));
    assert!(find_module_by_path(&modules, "/a.yaml"));
    assert!(!find_module_by_path(&modules, "/b.yaml"));
    assert!(!is_acceptable(&file(Some("n"), &[], &["G2"], "/a.yaml"), &nodes, &modules));
    assert!(is_acceptable(&file(Some("n"), &[], &["G2"], "/b.yaml"), &nodes, &modules));
    let mut misplaced = file(Some("n"), &[], &["G2"], "/b.yaml");
    misplaced.elements.insert(
        "G0".to_string(),
        GsnDocument::ModuleInformation(ModuleInformation::new("x".to_string())),
    );
    assert!(!is_acceptable(&misplaced, &nodes, &modules));
}

#[test]
fn element_that_is_defined_in_two_files() {
    let mut queue = InputQueue::new(&strings(&["a.yaml", "b.yaml"]));
    let (mut nodes, mut modules, mut diags) = (Nodes::new(), Modules::new(), Diagnostics::new());
    for name in ["a", "b"] {
        let input = queue.next_input().unwrap();
        let loaded = file(Some(name), &[], &["G1"], name);
        assert_eq!(queue.accept(&input, loaded, &mut nodes, &mut modules, &mut diags), Ok(()));
    }
    assert_eq!(
        lines(&diags),
        vec!["Error: (b) C07: Element G1 in b.yaml was already present in a."]
    );
}

#[test]
fn files_that_cannot_be_read() {
    assert_eq!(describe_load_failure("a", LoadFailure::Open), "Failed to open file a");
    assert_eq!(describe_load_failure("a", LoadFailure::Parse), "Failed to parse YAML from file a");
    assert_eq!(describe_load_failure("a", LoadFailure::Locate), "Failed to open file a.");
}

/// Reads files until none is left or one is refused, and gives the names of those that were read.
fn read_all(asked: &[&str], uses: &[(&str, &[&str])]) -> (Vec<String>, bool) {
    let mut queue = InputQueue::new(&strings(asked));
    let (mut nodes, mut modules, mut diags) = (Nodes::new(), Modules::new(), Diagnostics::new());
    let mut read = vec![];
    while let Some(input) = queue.next_input() {
        let used = uses.iter().find(|(name, _)| *name == input).map_or(&[][..], |(_, used)| used);
        let element = format!("G {input}");
        let loaded = file(Some(&input), used, &[&element], &input);
        assert!(is_acceptable(&loaded, &nodes, &modules));
        read.push(input.clone());
        if queue.accept(&input, loaded, &mut nodes, &mut modules, &mut diags).is_err() {
            assert_eq!(diags.errors(), 1);
            return (read, false);
        }
    }
    assert!(diags.messages().is_empty());
    assert_eq!(modules.len(), read.len());
    (read, true)
}

#[test]
fn all_files_that_are_reachable_are_read() {
    let uses: &[(&str, &[&str])] = &[("a", &["c", "d"]), ("b", &["e"]), ("d", &["f"]), ("x", &["y"])];
    assert_eq!(read_all(&["a", "b"], uses), (strings(&["a", "b", "c", "d", "e", "f"]), true));
}

#[test]
fn file_that_is_used_twice_ends_the_run() {
    let uses: &[(&str, &[&str])] = &[("a", &["c"]), ("b", &["c", "d"])];
    assert_eq!(read_all(&["a", "b"], uses), (strings(&["a", "b", "c", "c"]), false));
    let uses: &[(&str, &[&str])] = &[("a", &["a"])];
    assert_eq!(read_all(&["a"], uses), (strings(&["a", "a"]), false));
}
