use gsn2x_lib::completion::{add_missing_nodes_and_modules, find_undefined};
use gsn2x_lib::diagnostics::Diagnostics;
use gsn2x_lib::gsn::{GsnNode, GsnNodeType, Module, ModuleInformation, Modules, Nodes, Origin};
use gsn2x_lib::output_messages;
use gsn2x_lib::outputs::{
    collect_stylesheets, copy_step, plan_copy, plan_outputs, plan_run, prepare_stylesheet,
    OutputTask, RunTask, StylesheetStep,
};
use gsn2x_lib::render::RenderOptions;

fn strings(list: &[&str]) -> Vec<String> {
    list.iter().map(|s| s.to_string()).collect()
}

fn element(supported_by: &[&str], in_context_of: &[&str]) -> GsnNode {
    let mut node = GsnNode::default();
    node.module = "m".to_string();
    node.supported_by = strings(supported_by);
    node.in_context_of = strings(in_context_of);
    node
}

fn modules(names: &[&str]) -> Modules {
    let mut modules = Modules::new();
    for name in names {
        let mut meta = ModuleInformation::new(name.to_string());
        meta.stylesheets = vec![format!("{name}1.css"), format!("{name}2.css")];
        modules.insert(
            name.to_string(),
            Module {
                orig_file_name: format!("{name}.yaml"),
                meta,
                origin: Origin::CommandLine,
                canonical_path: None,
                output_path: Some(format!("out/{name}.svg")),
            },
        );
    }
    modules
}

fn options() -> RenderOptions {
    let mut options = RenderOptions::for_single_document(None);
    options.skip_argument = false;
    options.architecture_filename = Some("arch.svg".to_string());
    options.complete_filename = Some("complete.svg".to_string());
    options.evidence_filename = Some("evidence.md".to_string());
    options
}

fn described(tasks: &Vec<OutputTask>) -> Vec<String> {
    tasks
        .iter()
        .map(|task| match task {
            OutputTask::Argument { module, path: Some(path) } => {
                format!("argument {module} {path}")
            }
            OutputTask::Argument { module, path: None } => format!("argument {module}"),
            OutputTask::Architecture { filename } => format!("architecture {filename}"),
            OutputTask::Complete { filename } => format!("complete {filename}"),
            OutputTask::Evidence { filename } => format!("evidence {filename}"),
        })
        .collect()
}

#[test]
fn undefined_elements_get_stand_ins() {
    let mut nodes = Nodes::new();
    nodes.insert("G1".to_string(), element(&["Sn9", "G2"], &["C9"]));
    nodes.insert("G2".to_string(), element(&["Sn9"], &["X"]));
    let mut modules = modules(&["m"]);
    let mut options = options();
    options.masked_elements = strings(&["masked before"]);
    assert_eq!(find_undefined(&nodes), strings(&["Sn9", "C9", "Sn9", "X"]));
    add_missing_nodes_and_modules(&mut nodes, &mut modules, &mut options);
    assert_eq!(nodes.len(), 5);
    assert_eq!(nodes.get("Sn9").unwrap().module, "Unknown");
    assert_eq!(nodes.get("Sn9").unwrap().node_type, Some(GsnNodeType::Solution));
    assert_eq!(nodes.get("X").unwrap().node_type, None);
    assert_eq!(nodes.get("G1").unwrap().module, "m");
    assert_eq!(
        options.masked_elements,
        strings(&["masked before", "Sn9", "C9", "Sn9", "X"])
    );
    let unknown = modules.get("Unknown").unwrap();
    assert_eq!(unknown.orig_file_name, "");
    assert_eq!(unknown.meta.name, "Unknown");
    assert!(matches!(unknown.origin, Origin::Excluded));
    assert_eq!(unknown.output_path, None);

    // Now everything is defined, and nothing changes any more.
    assert!(find_undefined(&nodes).is_empty());
    add_missing_nodes_and_modules(&mut nodes, &mut modules, &mut options);
    assert_eq!(nodes.len(), 5);
    assert_eq!(options.masked_elements.len(), 5);
    assert_eq!(modules.len(), 2);
}

#[test]
fn renderings_of_several_modules() {
    let tasks = plan_outputs(&modules(&["b", "Unknown", "a"]), &options());
    assert_eq!(
        described(&tasks),
        vec![
            "argument a out/a.svg",
            "argument b out/b.svg",
            "architecture arch.svg",
            "complete complete.svg",
            "evidence evidence.md",
        ]
    );
    assert_eq!(tasks[0].announcement("p"), "Rendering \"p\": ");
    assert_eq!(tasks[2].announcement("p"), "Rendering \"p\": ");
    assert_eq!(tasks[4].announcement("p"), "Writing evidence \"p\": ");
}

#[test]
fn one_module_has_no_overview() {
    let tasks = plan_outputs(&modules(&["a", "Unknown"]), &options());
    assert_eq!(described(&tasks), vec!["argument a out/a.svg", "evidence evidence.md"]);
}

#[test]
fn arguments_are_skipped() {
    let mut options = options();
    options.skip_argument = true;
    options.complete_filename = None;
    let tasks = plan_outputs(&modules(&["a", "b"]), &options);
    assert_eq!(described(&tasks), vec!["architecture arch.svg", "evidence evidence.md"]);
    options.architecture_filename = None;
    options.evidence_filename = None;
    assert!(plan_outputs(&modules(&["a", "b"]), &options).is_empty());
}

#[test]
fn stylesheets_of_modules_are_added() {
    assert_eq!(
        collect_stylesheets(strings(&["given.css"]), &modules(&["b", "a"])),
        strings(&["given.css", "a1.css", "a2.css", "b1.css", "b2.css"])
    );
}

#[test]
fn stylesheets_are_referred_to_or_copied() {
    let name = |step| match step {
        StylesheetStep::Refer(name) => Some(name),
        StylesheetStep::Copy => None,
    };
    let url = "https://x.org/a.css";
    assert_eq!(name(prepare_stylesheet(url, true, false)), Some(format!("url({url})")));
    assert_eq!(name(prepare_stylesheet(url, true, true)), Some(format!("url({url})")));
    assert_eq!(name(prepare_stylesheet("a.css", false, true)), Some("a.css".to_string()));
    assert_eq!(name(prepare_stylesheet("a.css", false, false)), None);
}

#[test]
fn stylesheets_are_copied_unless_they_are_there() {
    let step = plan_copy("a.css", &"/in/a.css".to_string(), &"/out".to_string()).unwrap();
    assert_eq!(step.target, "/out/a.css");
    assert!(step.needed);
    let step = plan_copy("a.css", &"/out/a.css".to_string(), &"/out".to_string()).unwrap();
    assert_eq!(step.target, "/out/a.css");
    assert!(!step.needed);
    assert_eq!(
        plan_copy("..", &"/in/..".to_string(), &"/out".to_string()).unwrap_err(),
        "Could not identify stylesheet filename in .."
    );
    let step = copy_step("a.css", &"x".to_string(), Some("y".to_string())).unwrap();
    assert!(step.needed);
    assert_eq!(
        copy_step("a.css", &"x".to_string(), None).unwrap_err(),
        "Could not identify stylesheet filename in a.css"
    );
}

#[test]
fn nothing_to_report() {
    let report = output_messages(&Diagnostics::new());
    assert!(report.lines.is_empty());
    assert_eq!(report.outcome, Ok(()));
}

#[test]
fn warnings_are_counted() {
    let mut diags = Diagnostics::new();
    diags.add_warning(None, "one".to_string());
    diags.add_warning(Some("m"), "two".to_string());
    let report = output_messages(&diags);
    assert_eq!(
        report.lines,
        strings(&["Warning: one", "Warning: (m) two", "Warning: 2 warnings detected."])
    );
    assert_eq!(report.outcome, Ok(()));
}

#[test]
fn errors_are_a_failure() {
    let mut diags = Diagnostics::new();
    for i in 0..12 {
        diags.add_error(Some("m"), format!("wrong {i}"));
    }
    diags.add_warning(None, "strange".to_string());
    assert_eq!(diags.errors() + diags.warnings(), diags.messages().len());
    let report = output_messages(&diags);
    assert_eq!(report.lines.len(), 13);
    assert_eq!(report.lines[11], "Error: (m) wrong 11");
    assert_eq!(report.lines[12], "Warning: strange");
    assert_eq!(report.outcome, Err("12 errors and 1 warnings detected.".to_string()));
}

fn run(check_only: bool, statistics: Option<Option<&str>>, dump: Option<Option<&str>>) -> Vec<String> {
    let owned = |target: Option<Option<&str>>| target.map(|path| path.map(|p| p.to_string()));
    plan_run(check_only, owned(statistics), owned(dump))
        .iter()
        .map(|task| match task {
            RunTask::Render => "render".to_string(),
            RunTask::Statistics(Some(path)) => format!("statistics to {path}"),
            RunTask::Statistics(None) => "statistics".to_string(),
            RunTask::YamlDump(Some(path)) => format!("elements to {path}"),
            RunTask::YamlDump(None) => "elements".to_string(),
        })
        .collect()
}

#[test]
fn what_is_done_after_the_checks() {
    assert_eq!(run(false, None, None), vec!["render"]);
    assert!(run(true, None, None).is_empty());
    assert_eq!(run(false, Some(None), Some(None)), vec!["render", "statistics", "elements"]);
    assert_eq!(
        run(true, Some(Some("s.md")), Some(Some("e.yaml"))),
        vec!["statistics to s.md", "elements to e.yaml"]
    );
    assert_eq!(run(false, None, Some(Some("e.yaml"))), vec!["render", "elements to e.yaml"]);
}

#[test]
fn module_without_a_place_for_its_argument() {
    let mut modules = modules(&["a", "b"]);
    let mut unsettled = modules.remove("b").unwrap();
    unsettled.output_path = None;
    modules.insert("b".to_string(), unsettled);
    let mut options = RenderOptions::for_single_document(None);
    options.skip_argument = false;
    assert_eq!(
        described(&plan_outputs(&modules, &options)),
        vec!["argument a out/a.svg", "argument b"]
    );
}

#[test]
fn copied_stylesheet_is_not_copied_again() {
    let out = "/out".to_string();
    let first = plan_copy("style.css", &"/in/style.css".to_string(), &out).unwrap();
    assert!(first.needed);
    let again = plan_copy(&first.target, &first.target, &out).unwrap();
    assert!(!again.needed);
    assert_eq!(again.target, first.target);
}
