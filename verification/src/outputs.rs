//! Output: which renderings are made, and how stylesheets get there.

use vstd::prelude::*;
use vstd::string::*;
use crate::diagnostics::opt_text;
use crate::gsn::{ModuleView, Modules, UNKNOWN_MODULE};
use crate::render::{RenderOptions, RenderOptionsView};
use crate::text::{copy_texts, same_text, texts};
use crate::uses::path_join;

verus! {

/// One thing to be done with documents that passed all checks.
#[derive(Debug)]
pub enum RunTask {
    /// Make the renderings.
    Render,
    /// Write statistics, to a file or to the terminal.
    Statistics(Option<String>),
    /// Write the elements out again, to a file or to the terminal.
    YamlDump(Option<String>),
}

/// One thing to be done with documents that passed all checks, as a value of specifications.
#[verifier::ext_equal]
pub enum RunTaskView {
    Render,
    Statistics(Option<Seq<char>>),
    YamlDump(Option<Seq<char>>),
}

impl View for RunTask {
    type V = RunTaskView;

    open spec fn view(&self) -> RunTaskView {
        match self {
            RunTask::Render => RunTaskView::Render,
            RunTask::Statistics(path) => RunTaskView::Statistics(opt_text(*path)),
            RunTask::YamlDump(path) => RunTaskView::YamlDump(opt_text(*path)),
        }
    }
}

/// What a list of things to be done says, one by one.
pub open spec fn run_tasks_view(tasks: Seq<RunTask>) -> Seq<RunTaskView> {
    tasks.map_values(|task: RunTask| task@)
}

/// What is to be done, in order: the renderings, unless documents are only to be checked, and the
/// statistics and the elements if they were asked for.
pub open spec fn run_tasks(
    check_only: bool,
    statistics: Option<Option<String>>,
    yaml_dump: Option<Option<String>>,
) -> Seq<RunTaskView> {
    let render = if check_only {
        Seq::empty()
    } else {
        seq![RunTaskView::Render]
    };
    let statistics = match statistics {
        Some(path) => seq![RunTaskView::Statistics(opt_text(path))],
        None => Seq::empty(),
    };
    let yaml_dump = match yaml_dump {
        Some(path) => seq![RunTaskView::YamlDump(opt_text(path))],
        None => Seq::empty(),
    };
    render + statistics + yaml_dump
}

/// Decides what is to be done with documents that passed all checks.
///
/// Statistics and elements are written if they were asked for, to the given file or else to the
/// terminal.
pub fn plan_run(
    check_only: bool,
    statistics: Option<Option<String>>,
    yaml_dump: Option<Option<String>>,
) -> (tasks: Vec<RunTask>)
    ensures
        run_tasks_view(tasks@) == run_tasks(check_only, statistics, yaml_dump),
{
    let mut tasks: Vec<RunTask> = Vec::new();
    if !check_only {
        tasks.push(RunTask::Render);
    }
    if let Some(path) = statistics {
        tasks.push(RunTask::Statistics(path));
    }
    if let Some(path) = yaml_dump {
        tasks.push(RunTask::YamlDump(path));
    }
    assert(run_tasks_view(tasks@) =~= run_tasks(check_only, statistics, yaml_dump));
    tasks
}

/// One rendering that is to be made.
#[derive(Debug)]
pub enum OutputTask {
    /// The argument of a module, to a path if one is settled.
    Argument { module: String, path: Option<String> },
    /// The modules and how they depend on each other, to a file in the output directory.
    Architecture { filename: String },
    /// The elements of all modules, to a file in the output directory.
    Complete { filename: String },
    /// The evidence, to a file in the output directory.
    Evidence { filename: String },
}

/// One rendering that is to be made, as a value of specifications.
#[verifier::ext_equal]
pub enum OutputTaskView {
    Argument { module: Seq<char>, path: Option<Seq<char>> },
    Architecture { filename: Seq<char> },
    Complete { filename: Seq<char> },
    Evidence { filename: Seq<char> },
}

impl View for OutputTask {
    type V = OutputTaskView;

    open spec fn view(&self) -> OutputTaskView {
        match self {
            OutputTask::Argument { module, path } => OutputTaskView::Argument {
                module: module@,
                path: opt_text(*path),
            },
            OutputTask::Architecture { filename } => OutputTaskView::Architecture {
                filename: filename@,
            },
            OutputTask::Complete { filename } => OutputTaskView::Complete { filename: filename@ },
            OutputTask::Evidence { filename } => OutputTaskView::Evidence { filename: filename@ },
        }
    }
}

/// What a list of tasks says, task by task.
pub open spec fn tasks_view(tasks: Seq<OutputTask>) -> Seq<OutputTaskView> {
    tasks.map_values(|task: OutputTask| task@)
}

/// What is said when a rendering to a path begins.
pub open spec fn announcement_text(task: OutputTaskView, path: Seq<char>) -> Seq<char> {
    match task {
        OutputTaskView::Evidence { .. } => "Writing evidence \""@ + path + "\": "@,
        _ => "Rendering \""@ + path + "\": "@,
    }
}

impl OutputTask {
    /// What is said when the rendering begins.
    pub fn announcement(&self, path: &str) -> (text: String)
        ensures
            text@ == announcement_text(self@, path@),
    {
        let mut text = match self {
            OutputTask::Evidence { .. } => "Writing evidence \"".to_owned(),
            _ => "Rendering \"".to_owned(),
        };
        text.append(path);
        text.append("\": ");
        text
    }
}

/// Those of a list of modules that are not the module of the stand-ins.
pub open spec fn known_modules(names: Seq<Seq<char>>) -> Seq<Seq<char>> {
    names.filter(|name: Seq<char>| name != UNKNOWN_MODULE@)
}

/// The renderings of the arguments of some modules.
pub open spec fn argument_tasks(
    modules: Map<Seq<char>, ModuleView>,
    names: Seq<Seq<char>>,
) -> Seq<OutputTaskView> {
    names.map_values(
        |name: Seq<char>|
            OutputTaskView::Argument {
                module: modules[name].meta.name,
                path: modules[name].output_path,
            },
    )
}

/// The rendering of how modules depend on each other, if a file for it is given.
pub open spec fn architecture_task(filename: Option<Seq<char>>) -> Seq<OutputTaskView> {
    match filename {
        Some(filename) => seq![OutputTaskView::Architecture { filename }],
        None => Seq::empty(),
    }
}

/// The rendering of all elements, if a file for it is given.
pub open spec fn complete_task(filename: Option<Seq<char>>) -> Seq<OutputTaskView> {
    match filename {
        Some(filename) => seq![OutputTaskView::Complete { filename }],
        None => Seq::empty(),
    }
}

/// The list of evidence, if a file for it is given.
pub open spec fn evidence_task(filename: Option<Seq<char>>) -> Seq<OutputTaskView> {
    match filename {
        Some(filename) => seq![OutputTaskView::Evidence { filename }],
        None => Seq::empty(),
    }
}

/// The renderings that are to be made, in order: the argument of each module, unless arguments are
/// skipped; if there are several modules, how they depend on each other and all their elements; and
/// the evidence. The module of the stand-ins does not count.
pub open spec fn output_tasks(
    modules: Map<Seq<char>, ModuleView>,
    names: Seq<Seq<char>>,
    options: RenderOptionsView,
) -> Seq<OutputTaskView> {
    let known = known_modules(names);
    let arguments = if options.skip_argument {
        Seq::empty()
    } else {
        argument_tasks(modules, known)
    };
    let overviews = if known.len() > 1 {
        architecture_task(options.architecture_filename) + complete_task(
            options.complete_filename,
        )
    } else {
        Seq::empty()
    };
    arguments + overviews + evidence_task(options.evidence_filename)
}

/// The names of the modules that are not the module of the stand-ins, as places among the modules.
fn known_places(modules: &Modules) -> (places: Vec<usize>)
    ensures
        places@.map_values(|place: usize| modules.keys()[place as int]) == known_modules(
            modules.keys(),
        ),
        forall|i: int|
            0 <= i < places@.len() ==> #[trigger] places@[i] < modules.keys().len()
                && modules.keys()[places@[i] as int] != UNKNOWN_MODULE@,
        modules.well_formed(),
{
    let mut places: Vec<usize> = Vec::new();
    let n = modules.len();
    let ghost name_of = |place: usize| modules.keys()[place as int];
    proof {
        reveal(Seq::filter);
        assert(places@.map_values(name_of) =~= known_modules(modules.keys().take(0)));
    }
    for i in 0..n
        invariant
            n == modules.keys().len(),
            name_of == (|place: usize| modules.keys()[place as int]),
            places@.map_values(name_of) == known_modules(modules.keys().take(i as int)),
            forall|j: int|
                0 <= j < places@.len() ==> #[trigger] places@[j] < modules.keys().len()
                    && modules.keys()[places@[j] as int] != UNKNOWN_MODULE@,
    {
        let ghost before = places@;
        proof {
            reveal(Seq::filter);
            assert(modules.keys().take(i + 1).drop_last() == modules.keys().take(i as int));
            assert(modules.keys().take(i + 1).last() == modules.keys()[i as int]);
        }
        if !same_text(modules.name_at(i).as_str(), UNKNOWN_MODULE) {
            places.push(i);
            assert(places@.map_values(name_of) =~= before.map_values(name_of).push(name_of(i)));
        }
    }
    assert(modules.keys().take(n as int) == modules.keys());
    places
}

/// The renderings that are to be made, in order.
pub fn plan_outputs(modules: &Modules, render_options: &RenderOptions) -> (tasks: Vec<OutputTask>)
    ensures
        tasks_view(tasks@) == output_tasks(modules@, modules.keys(), render_options@),
{
    let places = known_places(modules);
    let ghost known = known_modules(modules.keys());
    let mut tasks: Vec<OutputTask> = Vec::new();
    if !render_options.skip_argument {
        assert(tasks_view(tasks@) =~= argument_tasks(modules@, known.take(0)));
        for i in 0..places.len()
            invariant
                modules.well_formed(),
                known.len() == places@.len(),
                known == places@.map_values(|place: usize| modules.keys()[place as int]),
                forall|j: int|
                    0 <= j < places@.len() ==> #[trigger] places@[j] < modules.keys().len()
                        && modules.keys()[places@[j] as int] != UNKNOWN_MODULE@,
                tasks_view(tasks@) == argument_tasks(modules@, known.take(i as int)),
        {
            let ghost before = tasks@;
            let module = modules.value_at(places[i]);
            proof {
                assert(known[i as int] == modules.keys()[places@[i as int] as int]);
                assert(known.take(i + 1) == known.take(i as int).push(known[i as int]));
            }
            let path = match &module.output_path {
                Some(path) => Some(path.clone()),
                None => None,
            };
            let task = OutputTask::Argument { module: module.meta.name.clone(), path };
            tasks.push(task);
            proof {
                assert(tasks_view(tasks@) =~= tasks_view(before).push(task@));
                assert(tasks_view(tasks@) =~= argument_tasks(modules@, known.take(i + 1)));
            }
        }
        assert(known.take(places@.len() as int) == known);
    }
    let ghost arguments = tasks_view(tasks@);
    assert(known.len() == places@.len());
    if places.len() > 1 {
        if let Some(filename) = &render_options.architecture_filename {
            tasks.push(OutputTask::Architecture { filename: filename.clone() });
        }
        assert(tasks_view(tasks@) =~= arguments + architecture_task(
            render_options@.architecture_filename,
        ));
        if let Some(filename) = &render_options.complete_filename {
            tasks.push(OutputTask::Complete { filename: filename.clone() });
        }
        assert(tasks_view(tasks@) =~= arguments + (architecture_task(
            render_options@.architecture_filename,
        ) + complete_task(render_options@.complete_filename)));
    }
    if let Some(filename) = &render_options.evidence_filename {
        tasks.push(OutputTask::Evidence { filename: filename.clone() });
    }
    assert(tasks_view(tasks@) =~= output_tasks(modules@, modules.keys(), render_options@));
    tasks
}

/// The stylesheets that some modules ask for, module by module.
pub open spec fn module_stylesheets(
    modules: Map<Seq<char>, ModuleView>,
    names: Seq<Seq<char>>,
) -> Seq<Seq<char>>
    decreases names.len(),
{
    if names.len() == 0 {
        Seq::empty()
    } else {
        module_stylesheets(modules, names.drop_last()) + modules[names.last()].meta.stylesheets
    }
}

/// All stylesheets: those that were asked for, and those of the modules, in the order of the
/// modules.
pub fn collect_stylesheets(given: Vec<String>, modules: &Modules) -> (stylesheets: Vec<String>)
    ensures
        texts(stylesheets@) == texts(given@) + module_stylesheets(modules@, modules.keys()),
{
    let mut stylesheets = given;
    let n = modules.len();
    assert(texts(stylesheets@) =~= texts(given@) + module_stylesheets(
        modules@,
        modules.keys().take(0),
    ));
    for i in 0..n
        invariant
            n == modules.keys().len(),
            texts(stylesheets@) == texts(given@) + module_stylesheets(
                modules@,
                modules.keys().take(i as int),
            ),
    {
        let ghost before = stylesheets@;
        let mut more = copy_texts(&modules.value_at(i).meta.stylesheets);
        let ghost added = more@;
        stylesheets.append(&mut more);
        proof {
            let upto = modules.keys().take(i + 1);
            assert(upto.drop_last() == modules.keys().take(i as int));
            assert(upto.last() == modules.keys()[i as int]);
            assert(texts(stylesheets@) =~= texts(before) + texts(added));
            assert(texts(stylesheets@) =~= texts(given@) + module_stylesheets(modules@, upto));
        }
    }
    assert(modules.keys().take(n as int) == modules.keys());
    stylesheets
}

/// What is done about a stylesheet.
#[derive(Debug)]
pub enum StylesheetStep {
    /// It is referred to by this name.
    Refer(String),
    /// It is copied to the output directory.
    Copy,
}

/// The name by which a stylesheet is referred to without being copied, if there is one: that of an
/// address is marked as such, and one that gets embedded keeps its own.
pub open spec fn direct_name(
    stylesheet: Seq<char>,
    is_url: bool,
    embed_stylesheets: bool,
) -> Option<Seq<char>> {
    if is_url {
        Some("url("@ + stylesheet + ")"@)
    } else if embed_stylesheets {
        Some(stylesheet)
    } else {
        None
    }
}

/// Decides what is done about a stylesheet, given whether it is an address.
pub fn prepare_stylesheet(stylesheet: &str, is_url: bool, embed_stylesheets: bool) -> (step:
    StylesheetStep)
    ensures
        match step {
            StylesheetStep::Refer(name) => direct_name(stylesheet@, is_url, embed_stylesheets)
                == Some(name@),
            StylesheetStep::Copy => direct_name(stylesheet@, is_url, embed_stylesheets) is None,
        },
{
    if is_url {
        let mut name = "url(".to_owned();
        name.append(stylesheet);
        name.append(")");
        StylesheetStep::Refer(name)
    } else if embed_stylesheets {
        StylesheetStep::Refer(stylesheet.to_owned())
    } else {
        StylesheetStep::Copy
    }
}

/// The name of the file that a path leads to, by `Path::file_name`.
///
/// How a path divides into its parts differs between operating systems, so nothing is claimed of
/// the result.
#[verifier::external_body]
pub(crate) fn path_file_name(path: &String) -> Option<String> {
    match std::path::Path::new(path).file_name() {
        Some(name) => Some(name.to_string_lossy().into_owned()),
        None => None,
    }
}

/// A copy of a stylesheet to the output directory.
#[derive(Debug)]
pub struct CopyStep {
    /// Where the copy is, which is also the name by which it is referred to.
    pub target: String,
    /// Whether the copy still has to be made.
    pub needed: bool,
}

/// The complaint about a stylesheet whose path leads to no file.
pub open spec fn no_filename_text(stylesheet: Seq<char>) -> Seq<char> {
    "Could not identify stylesheet filename in "@ + stylesheet
}

/// The copy of a stylesheet, given where it is and where the copy is to go: the place of the copy,
/// and whether it has to be made, which it has unless that is the same place. If there is no place
/// for it, this is complained about.
pub open spec fn copy_outcome(
    stylesheet: Seq<char>,
    css_path: Seq<char>,
    target: Option<Seq<char>>,
) -> Result<(Seq<char>, bool), Seq<char>> {
    match target {
        Some(target) => Ok((target, css_path != target)),
        None => Err(no_filename_text(stylesheet)),
    }
}

/// What was decided about the copy of a stylesheet.
pub open spec fn copy_result(step: Result<CopyStep, String>) -> Result<
    (Seq<char>, bool),
    Seq<char>,
> {
    match step {
        Ok(step) => Ok((step.target@, step.needed)),
        Err(text) => Err(text@),
    }
}

/// Decides about the copy of a stylesheet, given where it is and where the copy is to go.
pub fn copy_step(stylesheet: &str, css_path: &String, target: Option<String>) -> (step: Result<
    CopyStep,
    String,
>)
    ensures
        copy_result(step) == copy_outcome(stylesheet@, css_path@, opt_text(target)),
        step matches Ok(step) ==> target == Some(step.target),
{
    match target {
        Some(target) => {
            let needed = !same_text(css_path.as_str(), target.as_str());
            Ok(CopyStep { target, needed })
        },
        None => {
            let mut text = "Could not identify stylesheet filename in ".to_owned();
            text.append(stylesheet);
            Err(text)
        },
    }
}

/// Whether a path is where the copy of a stylesheet goes: it leads on from the output directory to
/// a file of the same name. There is none if the path of the stylesheet leads to no file.
pub closed spec fn is_copy_target(
    css_path: String,
    out_directory: String,
    target: Option<String>,
) -> bool {
    match target {
        Some(target) => leads_to_copy(css_path, out_directory, target),
        None => call_ensures(path_file_name, (&css_path,), None),
    }
}

spec fn leads_to_copy(css_path: String, out_directory: String, target: String) -> bool {
    exists|name: String| names_copy(css_path, out_directory, name, target)
}

spec fn names_copy(css_path: String, out_directory: String, name: String, target: String) -> bool {
    &&& call_ensures(path_file_name, (&css_path,), Some(name))
    &&& call_ensures(path_join, (&out_directory, &name), target)
}

/// The copy of a stylesheet goes to a file of the same name in the output directory, and to none
/// only if its path leads to no file.
pub(crate) proof fn copies_keep_the_file_name(
    css_path: String,
    out_directory: String,
    target: Option<String>,
) -> (name: String)
    requires
        is_copy_target(css_path, out_directory, target),
    ensures
        target is None ==> call_ensures(path_file_name, (&css_path,), None),
        target matches Some(target) ==> {
            &&& call_ensures(path_file_name, (&css_path,), Some(name))
            &&& call_ensures(path_join, (&out_directory, &name), target)
        },
{
    match target {
        Some(target) => {
            assert(leads_to_copy(css_path, out_directory, target));
            let name = choose|name: String| names_copy(css_path, out_directory, name, target);
            assert(names_copy(css_path, out_directory, name, target));
            name
        },
        None => arbitrary(),
    }
}

/// Where the copy of a stylesheet goes.
fn copy_target(css_path: &String, out_directory: &String) -> (target: Option<String>)
    ensures
        is_copy_target(*css_path, *out_directory, target),
{
    match path_file_name(css_path) {
        Some(name) => {
            let target = path_join(out_directory, &name);
            assert(names_copy(*css_path, *out_directory, name, target));
            assert(leads_to_copy(*css_path, *out_directory, target));
            Some(target)
        },
        None => None,
    }
}

/// Plans the copy of a stylesheet to the output directory.
///
/// Where the copy goes is up to the operating system; [`copy_step`] says what follows from that.
pub fn plan_copy(stylesheet: &str, css_path: &String, out_directory: &String) -> (step: Result<
    CopyStep,
    String,
>)
    ensures
        match step {
            Ok(step) => {
                &&& is_copy_target(*css_path, *out_directory, Some(step.target))
                &&& step.needed == (css_path@ != step.target@)
            },
            Err(text) => {
                &&& is_copy_target(*css_path, *out_directory, None)
                &&& text@ == no_filename_text(stylesheet@)
            },
        },
{
    let target = copy_target(css_path, out_directory);
    copy_step(stylesheet, css_path, target)
}

} // verus!
