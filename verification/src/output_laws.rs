//! What holds of output: which renderings are made and where, how stylesheets are referred to, and
//! what is reported.

use vstd::prelude::*;
use crate::check_laws::all_messages_are_shown;
use crate::diagnostics::{
    count_of, error_message, message_text, message_texts, messages_view, warning_message, DiagType,
    DiagnosticMessage, MessageView,
};
use crate::gsn::ModuleView;
use crate::outputs::{
    announcement_text, copy_outcome, copy_result, direct_name, known_modules, module_stylesheets,
    output_tasks, run_tasks, run_tasks_view, tasks_view, CopyStep, OutputTask, OutputTaskView,
    RunTask, RunTaskView,
};
use crate::render::{single_document_options, RenderLegend, RenderOptions, RenderOptionsView};
use crate::report::{report_failure, report_lines};
use crate::text::decimal;
use crate::yaml::YamlError;

verus! {

// ---- values as they are shown ----

/// What is said of the options for rendering is what their fields hold, all of them.
pub proof fn options_show_all_fields(options: RenderOptions)
    ensures
        options@.stylesheets.len() == options.stylesheets@.len(),
        forall|i: int|
            0 <= i < options.stylesheets@.len() ==> #[trigger] options@.stylesheets[i]
                == options.stylesheets@[i]@,
        options@.masked_elements.len() == options.masked_elements@.len(),
        forall|i: int|
            0 <= i < options.masked_elements@.len() ==> #[trigger] options@.masked_elements[i]
                == options.masked_elements@[i]@,
        options@.layers.len() == options.layers@.len(),
        forall|i: int|
            0 <= i < options.layers@.len() ==> #[trigger] options@.layers[i]
                == options.layers@[i]@,
        options@.legend == options.legend,
        options@.embed_stylesheets == options.embed_stylesheets,
        options.architecture_filename is None <==> options@.architecture_filename is None,
        options.architecture_filename matches Some(name) ==> options@.architecture_filename == Some(
            name@,
        ),
        options.evidence_filename is None <==> options@.evidence_filename is None,
        options.evidence_filename matches Some(name) ==> options@.evidence_filename == Some(name@),
        options.complete_filename is None <==> options@.complete_filename is None,
        options.complete_filename matches Some(name) ==> options@.complete_filename == Some(name@),
        options@.output_directory == options.output_directory@,
        options@.skip_argument == options.skip_argument,
        options@.char_wrap == options.char_wrap,
{
}

/// What is said of a rendering that is to be made is its kind and what its fields hold.
pub proof fn tasks_show_all_fields(tasks: Seq<OutputTask>, i: int)
    requires
        0 <= i < tasks.len(),
    ensures
        tasks_view(tasks).len() == tasks.len(),
        tasks[i] matches OutputTask::Argument { module, path: Some(path) } ==> tasks_view(tasks)[i]
            == (OutputTaskView::Argument { module: module@, path: Some(path@) }),
        tasks[i] matches OutputTask::Argument { module, path: None } ==> tasks_view(tasks)[i] == (
        OutputTaskView::Argument { module: module@, path: None }),
        tasks[i] matches OutputTask::Architecture { filename } ==> tasks_view(tasks)[i] == (
        OutputTaskView::Architecture { filename: filename@ }),
        tasks[i] matches OutputTask::Complete { filename } ==> tasks_view(tasks)[i] == (
        OutputTaskView::Complete { filename: filename@ }),
        tasks[i] matches OutputTask::Evidence { filename } ==> tasks_view(tasks)[i] == (
        OutputTaskView::Evidence { filename: filename@ }),
{
}

/// What is said of a thing to be done is its kind and where it is written to.
pub proof fn run_tasks_show_all_fields(tasks: Seq<RunTask>, i: int)
    requires
        0 <= i < tasks.len(),
    ensures
        run_tasks_view(tasks).len() == tasks.len(),
        tasks[i] is Render <==> run_tasks_view(tasks)[i] is Render,
        tasks[i] matches RunTask::Statistics(Some(path)) ==> run_tasks_view(tasks)[i]
            == RunTaskView::Statistics(Some(path@)),
        tasks[i] matches RunTask::Statistics(None) ==> run_tasks_view(tasks)[i]
            == RunTaskView::Statistics(None),
        tasks[i] matches RunTask::YamlDump(Some(path)) ==> run_tasks_view(tasks)[i]
            == RunTaskView::YamlDump(Some(path@)),
        tasks[i] matches RunTask::YamlDump(None) ==> run_tasks_view(tasks)[i]
            == RunTaskView::YamlDump(None),
{
}

/// What a message says is what its fields hold, and a list of messages says what each of them says.
pub proof fn messages_show_all_fields(messages: Seq<DiagnosticMessage>, i: int)
    requires
        0 <= i < messages.len(),
    ensures
        messages_view(messages).len() == messages.len(),
        messages_view(messages)[i] == messages[i]@,
        messages[i]@.diag_type == messages[i].diag_type,
        messages[i]@.msg == messages[i].msg@,
        messages[i].module is None <==> messages[i]@.module is None,
        messages[i].module matches Some(module) ==> messages[i]@.module == Some(module@),
{
}

/// What is said of a failure of the parser is what its fields hold.
pub proof fn parser_failures_show_all_fields(failure: YamlError)
    ensures
        failure@.line == failure.line,
        failure@.message == failure.message@,
{
}

// ---- what is done ----

/// What is done after the checks: renderings are made exactly if documents are not only checked,
/// statistics and elements are written exactly if they were asked for, to the file that was given
/// if any, each of these once and in this order.
pub proof fn all_that_was_asked_for_is_done(
    check_only: bool,
    statistics: Option<Option<String>>,
    yaml_dump: Option<Option<String>>,
)
    ensures
        ({
            let tasks = run_tasks(check_only, statistics, yaml_dump);
            let renders = if check_only {
                0int
            } else {
                1
            };
            let counts = if statistics is Some {
                1int
            } else {
                0
            };
            let dumps = if yaml_dump is Some {
                1int
            } else {
                0
            };
            &&& tasks.len() == renders + counts + dumps
            &&& !check_only ==> tasks[0] is Render
            &&& statistics matches Some(Some(path)) ==> tasks[renders] == RunTaskView::Statistics(
                Some(path@),
            )
            &&& statistics matches Some(None) ==> tasks[renders] == RunTaskView::Statistics(None)
            &&& yaml_dump matches Some(Some(path)) ==> tasks[renders + counts]
                == RunTaskView::YamlDump(Some(path@))
            &&& yaml_dump matches Some(None) ==> tasks[renders + counts] == RunTaskView::YamlDump(
                None,
            )
        }),
{
}

// ---- renderings ----

/// The modules that are rendered are all but the unknown one, in their order.
pub proof fn unknown_module_is_left_out(names: Seq<Seq<char>>, next: Seq<char>)
    ensures
        known_modules(Seq::empty()).len() == 0,
        next != "Unknown"@ ==> known_modules(names.push(next)) == known_modules(names).push(next),
        next == "Unknown"@ ==> known_modules(names.push(next)) == known_modules(names),
{
    reveal(Seq::filter);
    assert(names.push(next).drop_last() =~= names);
}

/// The argument of every module but the unknown one is rendered, in the order of the modules and to
/// the place that is settled for it, unless arguments are skipped. Nothing else is an argument.
pub proof fn arguments_are_rendered(
    modules: Map<Seq<char>, ModuleView>,
    names: Seq<Seq<char>>,
    options: RenderOptionsView,
)
    ensures
        ({
            let known = names.filter(|name: Seq<char>| name != "Unknown"@);
            let tasks = output_tasks(modules, names, options);
            &&& !options.skip_argument ==> known.len() <= tasks.len()
            &&& !options.skip_argument ==> forall|i: int|
                0 <= i < known.len() ==> #[trigger] tasks[i] == (OutputTaskView::Argument {
                    module: modules[known[i]].meta.name,
                    path: modules[known[i]].output_path,
                })
            &&& !options.skip_argument ==> forall|i: int|
                known.len() <= i < tasks.len() ==> !(#[trigger] tasks[i] is Argument)
            &&& options.skip_argument ==> forall|i: int|
                0 <= i < tasks.len() ==> !(#[trigger] tasks[i] is Argument)
        }),
{
    let is_known = |name: Seq<char>| name != "Unknown"@;
    assert(known_modules(names) == names.filter(is_known));
}

/// With more than one module besides the unknown one, the overviews for which a file name is given
/// are rendered, to this file; with fewer none is. The evidence is listed exactly if a file name is
/// given for it, whatever the number of modules.
pub proof fn overviews_are_rendered(
    modules: Map<Seq<char>, ModuleView>,
    names: Seq<Seq<char>>,
    options: RenderOptionsView,
    filename: Seq<char>,
)
    ensures
        ({
            let several = names.filter(|name: Seq<char>| name != "Unknown"@).len() > 1;
            let tasks = output_tasks(modules, names, options);
            &&& tasks.contains(OutputTaskView::Architecture { filename }) <==> several
                && options.architecture_filename == Some(filename)
            &&& tasks.contains(OutputTaskView::Complete { filename }) <==> several
                && options.complete_filename == Some(filename)
            &&& tasks.contains(OutputTaskView::Evidence { filename })
                <==> options.evidence_filename == Some(filename)
        }),
{
    let is_known = |name: Seq<char>| name != "Unknown"@;
    let known = names.filter(is_known);
    assert(known_modules(names) == known);
    let tasks = output_tasks(modules, names, options);
    let n = if options.skip_argument {
        0
    } else {
        known.len() as int
    };
    let a = if known.len() > 1 && options.architecture_filename is Some {
        1int
    } else {
        0
    };
    let c = if known.len() > 1 && options.complete_filename is Some {
        1int
    } else {
        0
    };
    let e = if options.evidence_filename is Some {
        1int
    } else {
        0
    };
    assert(tasks.len() == n + a + c + e);
    if a == 1 {
        assert(tasks[n] == (OutputTaskView::Architecture {
            filename: options.architecture_filename->0,
        }));
    }
    if c == 1 {
        assert(tasks[n + a] == (OutputTaskView::Complete {
            filename: options.complete_filename->0,
        }));
    }
    if e == 1 {
        assert(tasks[n + a + c] == (OutputTaskView::Evidence {
            filename: options.evidence_filename->0,
        }));
    }
    assert forall|i: int| 0 <= i < n implies #[trigger] tasks[i] is Argument by {}
}

/// Renderings are made in this order: arguments, how modules depend on each other, all elements, and
/// the evidence. Of the last three each is made at most once.
pub proof fn renderings_are_made_in_order(
    modules: Map<Seq<char>, ModuleView>,
    names: Seq<Seq<char>>,
    options: RenderOptionsView,
    i: int,
    j: int,
)
    requires
        0 <= i < j < output_tasks(modules, names, options).len(),
    ensures
        ({
            let tasks = output_tasks(modules, names, options);
            &&& tasks[j] is Argument ==> tasks[i] is Argument
            &&& tasks[j] is Architecture ==> tasks[i] is Argument
            &&& tasks[j] is Complete ==> tasks[i] is Argument || tasks[i] is Architecture
            &&& tasks[j] is Evidence ==> tasks[i] is Argument || tasks[i] is Architecture
                || tasks[i] is Complete
        }),
{
}

/// What is said when a rendering begins names its path.
pub proof fn renderings_are_announced(task: OutputTaskView, path: Seq<char>)
    ensures
        task is Evidence ==> announcement_text(task, path) == "Writing evidence \""@ + path
            + "\": "@,
        !(task is Evidence) ==> announcement_text(task, path) == "Rendering \""@ + path + "\": "@,
{
}

/// The options for one document by itself ask for nothing but the wrapping width.
pub proof fn single_documents_are_rendered_plainly(char_wrap: Option<u32>)
    ensures
        ({
            let options = single_document_options(char_wrap);
            &&& options.stylesheets.len() == 0
            &&& options.masked_elements.len() == 0
            &&& options.layers.len() == 0
            &&& options.legend == RenderLegend::No
            &&& !options.embed_stylesheets
            &&& options.architecture_filename is None
            &&& options.evidence_filename is None
            &&& options.complete_filename is None
            &&& options.output_directory == "."@
            &&& options.skip_argument
            &&& options.char_wrap == char_wrap
        }),
{
}

// ---- stylesheets ----

/// The stylesheets of modules are collected module by module, each module's in its order.
pub proof fn stylesheets_are_collected_one_by_one(
    modules: Map<Seq<char>, ModuleView>,
    names: Seq<Seq<char>>,
    next: Seq<char>,
)
    ensures
        module_stylesheets(modules, Seq::empty()).len() == 0,
        module_stylesheets(modules, names.push(next)) == module_stylesheets(modules, names)
            + modules[next].meta.stylesheets,
{
    assert(names.push(next).drop_last() =~= names);
}

/// An address is marked as one, also where stylesheets are embedded; otherwise one that is embedded
/// keeps its name, and one that is not has to be copied.
pub proof fn stylesheets_are_referred_to(stylesheet: Seq<char>, embed: bool)
    ensures
        direct_name(stylesheet, true, embed) == Some("url("@ + stylesheet + ")"@),
        direct_name(stylesheet, false, true) == Some(stylesheet),
        direct_name(stylesheet, false, false) is None,
{
}

/// What was decided about a copy is its place and whether it has to be made, or the complaint.
pub proof fn decisions_show_their_place(step: Result<CopyStep, String>)
    ensures
        step matches Ok(step) ==> copy_result(Ok(step)) == Ok::<(Seq<char>, bool), Seq<char>>(
            (step.target@, step.needed),
        ),
        step matches Err(text) ==> copy_result(Err(text)) == Err::<(Seq<char>, bool), Seq<char>>(
            text@,
        ),
{
}

/// A copy goes to the place that is given, and is made exactly if the stylesheet is not there. If
/// there is no place, the stylesheet is named.
pub proof fn copies_go_to_their_place(stylesheet: Seq<char>, css_path: Seq<char>, target: Seq<char>)
    ensures
        copy_outcome(stylesheet, css_path, Some(target)) == Ok::<(Seq<char>, bool), Seq<char>>(
            (target, !(css_path == target)),
        ),
        copy_outcome(stylesheet, css_path, None) == Err::<(Seq<char>, bool), Seq<char>>(
            "Could not identify stylesheet filename in "@ + stylesheet,
        ),
{
}

// ---- reports ----

/// Errors and warnings are counted one by one.
pub proof fn messages_are_counted_one_by_one(messages: Seq<MessageView>, next: MessageView)
    ensures
        count_of(Seq::empty(), DiagType::Error) == 0,
        count_of(Seq::empty(), DiagType::Warning) == 0,
        next.diag_type == DiagType::Error ==> {
            &&& count_of(messages.push(next), DiagType::Error) == count_of(
                messages,
                DiagType::Error,
            ) + 1
            &&& count_of(messages.push(next), DiagType::Warning) == count_of(
                messages,
                DiagType::Warning,
            )
        },
        next.diag_type == DiagType::Warning ==> {
            &&& count_of(messages.push(next), DiagType::Warning) == count_of(
                messages,
                DiagType::Warning,
            ) + 1
            &&& count_of(messages.push(next), DiagType::Error) == count_of(
                messages,
                DiagType::Error,
            )
        },
{
    reveal(Seq::filter);
    assert(messages.push(next).drop_last() =~= messages);
}

/// An error is one, a warning is one, and both say what they are raised with.
pub proof fn errors_and_warnings_are_told_apart(module: Option<Seq<char>>, msg: Seq<char>)
    ensures
        error_message(module, msg).diag_type == DiagType::Error,
        error_message(module, msg).module == module,
        error_message(module, msg).msg == msg,
        warning_message(module, msg).diag_type == DiagType::Warning,
        warning_message(module, msg).module == module,
        warning_message(module, msg).msg == msg,
{
}

/// Every message is reported, in order. With warnings and without errors their number is a last
/// line; there is no other line.
pub proof fn reports_show_every_message(messages: Seq<MessageView>)
    ensures
        ({
            let errors = count_of(messages, DiagType::Error);
            let warnings = count_of(messages, DiagType::Warning);
            let lines = report_lines(messages);
            let sums_up = errors == 0 && warnings > 0;
            &&& sums_up ==> lines.len() == messages.len() + 1
            &&& !sums_up ==> lines.len() == messages.len()
            &&& forall|i: int|
                0 <= i < messages.len() ==> #[trigger] lines[i] == message_text(messages[i])
            &&& sums_up ==> lines[messages.len() as int] == "Warning: "@ + decimal(warnings)
                + " warnings detected."@
        }),
{
    all_messages_are_shown(messages);
    assert forall|i: int| 0 <= i < messages.len() implies #[trigger] report_lines(messages)[i]
        == message_text(messages[i]) by {
        assert(message_texts(messages)[i] == message_text(messages[i]));
    }
}

/// Without errors nothing fails; with errors the failure gives the number of errors and warnings.
pub proof fn reports_fail_with_the_counts(messages: Seq<MessageView>)
    ensures
        ({
            let errors = count_of(messages, DiagType::Error);
            let warnings = count_of(messages, DiagType::Warning);
            &&& errors == 0 <==> report_failure(messages) is None
            &&& errors > 0 ==> report_failure(messages) == Some(
                decimal(errors) + " errors and "@ + decimal(warnings) + " warnings detected."@,
            )
        }),
{
}

} // verus!
