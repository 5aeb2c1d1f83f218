//! What holds of checking and processing: which calls are made, in which order, on what, and what
//! comes of them.

use vstd::prelude::*;
use vstd::utf8::*;
use crate::checks::{
    came_out, check_count, checked, empty_module_messages, empty_modules, is_empty_module, is_run,
    validated, CheckPlan,
};
use crate::diagnostics::{message_text, message_texts, DiagType, MessageView};
use crate::engine::{CheckState, Engine};
use crate::gsn::{Documents, GsnNodeView, Nodes};
use crate::modules::{elements_of, module_of, store, StoreView};
use crate::order::text_before;
use crate::process::{
    came_of_document, came_of_failure, came_of_parsed, came_of_text, check_failure_text,
    invalid_svg_text, invalid_utf8_text, names_module, process_result, processed,
    single_document_plan, svg_text, taken_in, text_result, type_check, untyped, was_processed,
    wrapping, ParseErrorView, ProcessTrace,
};
use crate::render::RenderLegend;
use crate::text::{decimal, joined};
use crate::text_map::{lemma_entry, lemma_place};
use crate::word_laws::maps_are_walked_in_order;
use crate::yaml::{is_said_by, yaml_failure_text, YamlErrorView};

verus! {

// ---- messages ----

/// A message is shown with its kind, its module in brackets if it has one, and what it says.
pub proof fn messages_are_shown(message: MessageView)
    ensures
        message.diag_type == DiagType::Error && message.module is Some ==> message_text(message)
            == "Error: "@ + "("@ + message.module->0 + ") "@ + message.msg,
        message.diag_type == DiagType::Error && message.module is None ==> message_text(message)
            == "Error: "@ + message.msg,
        message.diag_type == DiagType::Warning && message.module is Some ==> message_text(message)
            == "Warning: "@ + "("@ + message.module->0 + ") "@ + message.msg,
        message.diag_type == DiagType::Warning && message.module is None ==> message_text(message)
            == "Warning: "@ + message.msg,
{
}

/// All messages are shown, one by one and in order.
pub proof fn all_messages_are_shown(messages: Seq<MessageView>)
    ensures
        message_texts(messages).len() == messages.len(),
        forall|i: int|
            0 <= i < messages.len() ==> #[trigger] message_texts(messages)[i] == message_text(
                messages[i],
            ),
{
}

// ---- checks ----

/// Without any element nothing passes: the elements stay, and the one message that is added is an
/// error about no module.
pub proof fn no_elements_are_an_error<E: Engine>(
    engine: &E,
    plan: CheckPlan,
    before: CheckState,
    after: CheckState,
    passed: bool,
)
    requires
        validated(engine, plan, before, after, passed),
        forall|name: Seq<char>| !(#[trigger] before.nodes@.contains_key(name)),
    ensures
        !passed,
        after.nodes == before.nodes,
        after.diags@ == before.diags@.push(
            MessageView {
                diag_type: DiagType::Error,
                module: None,
                msg: "No input elements are found."@,
            },
        ),
{
    assert(before.nodes@ =~= Map::<Seq<char>, GsnNodeView>::empty());
}

/// With a module that no element belongs to nothing passes: the elements stay, and one error is
/// added for each such module and for no other, in the order of their names.
pub proof fn empty_modules_are_errors<E: Engine>(
    engine: &E,
    plan: CheckPlan,
    before: CheckState,
    after: CheckState,
    passed: bool,
    element: Seq<char>,
    empty: Seq<char>,
) -> (added: Seq<MessageView>)
    requires
        validated(engine, plan, before, after, passed),
        plan.modules.well_formed(),
        before.nodes@.contains_key(element),
        plan.modules@.contains_key(empty),
        forall|name: Seq<char>| #[trigger]
            before.nodes@.contains_key(name) ==> before.nodes@[name].module != empty,
    ensures
        !passed,
        after.nodes == before.nodes,
        after.diags@ == before.diags@ + added,
        forall|i: int|
            0 <= i < added.len() ==> {
                &&& (#[trigger] added[i]).diag_type == DiagType::Error
                &&& added[i].msg == "The module does not contain elements."@
                &&& added[i].module is Some
                &&& plan.modules@.contains_key(added[i].module->0)
                &&& forall|name: Seq<char>| #[trigger]
                    before.nodes@.contains_key(name) ==> before.nodes@[name].module
                        != added[i].module->0
            },
        forall|module: Seq<char>| #[trigger]
            plan.modules@.contains_key(module) && (forall|name: Seq<char>| #[trigger]
                before.nodes@.contains_key(name) ==> before.nodes@[name].module != module)
                ==> exists|i: int|
                0 <= i < added.len() && (#[trigger] added[i]).module == Some(module),
        forall|i: int, j: int|
            0 <= i < j < added.len() ==> text_before(
                (#[trigger] added[i]).module->0,
                (#[trigger] added[j]).module->0,
            ),
{
    let keys = plan.modules.keys();
    let is_empty = |module: Seq<char>| is_empty_module(before.nodes@, module);
    let names = empty_modules(before.nodes@, keys);
    let added = empty_module_messages(names);
    assert(names == keys.filter(is_empty));
    maps_are_walked_in_order(*plan.modules);
    filtered_stays_in_order(keys, is_empty);
    assert(before.nodes@.contains_key(element));
    assert forall|module: Seq<char>| #[trigger]
        plan.modules@.contains_key(module) && (forall|name: Seq<char>| #[trigger]
            before.nodes@.contains_key(name) ==> before.nodes@[name].module
                != module) implies exists|i: int|
        0 <= i < added.len() && (#[trigger] added[i]).module == Some(module) by {
        let i = lemma_place(*plan.modules, module);
        assert(is_empty(keys[i]));
        keys.lemma_filter_contains(is_empty, i);
        let j = names.index_of(module);
        assert(added[j].module == Some(module));
    }
    assert(is_empty(empty));
    let i = lemma_place(*plan.modules, empty);
    keys.lemma_filter_contains(is_empty, i);
    assert(names.len() > 0);
    assert forall|i: int| 0 <= i < added.len() implies {
        &&& (#[trigger] added[i]).diag_type == DiagType::Error
        &&& added[i].msg == "The module does not contain elements."@
        &&& added[i].module is Some
        &&& plan.modules@.contains_key(added[i].module->0)
        &&& forall|name: Seq<char>| #[trigger]
            before.nodes@.contains_key(name) ==> before.nodes@[name].module != added[i].module->0
    } by {
        keys.lemma_filter_pred(is_empty, i);
        keys.lemma_filter_contains_rev(is_empty, names[i]);
        lemma_entry(*plan.modules, keys.index_of(names[i]));
        assert(is_empty_module(before.nodes@, names[i]));
    }
    added
}

/// What is left of an ordered list of names is in order.
proof fn filtered_stays_in_order(names: Seq<Seq<char>>, keep: spec_fn(Seq<char>) -> bool)
    requires
        forall|i: int, j: int|
            0 <= i < j < names.len() ==> text_before(
                #[trigger] names[i],
                #[trigger] names[j],
            ),
    ensures
        forall|i: int, j: int|
            0 <= i < j < names.filter(keep).len() ==> text_before(
                #[trigger] names.filter(keep)[i],
                #[trigger] names.filter(keep)[j],
            ),
    decreases names.len(),
{
    reveal(Seq::filter);
    if names.len() > 0 {
        let some = names.drop_last();
        filtered_stays_in_order(some, keep);
        if keep(names.last()) {
            let kept = some.filter(keep);
            assert(names.filter(keep) == kept.push(names.last()));
            assert forall|i: int| 0 <= i < kept.len() implies text_before(
                #[trigger] kept[i],
                names.last(),
            ) by {
                some.lemma_filter_contains_rev(keep, kept[i]);
                let k = some.index_of(kept[i]);
                assert(names[k] == kept[i]);
                assert(names[names.len() - 1] == names.last());
            }
        }
    }
}

/// Where there are elements and no module is without any, it is the checks that decide.
proof fn checks_decide<E: Engine>(
    engine: &E,
    plan: CheckPlan,
    before: CheckState,
    after: CheckState,
    passed: bool,
    element: Seq<char>,
)
    requires
        validated(engine, plan, before, after, passed),
        plan.modules.well_formed(),
        before.nodes@.contains_key(element),
        forall|module: Seq<char>| #[trigger]
            plan.modules@.contains_key(module) ==> exists|name: Seq<char>| #[trigger]
                before.nodes@.contains_key(name) && before.nodes@[name].module == module,
    ensures
        checked(engine, plan, before, after, passed),
{
    let keys = plan.modules.keys();
    let is_empty = |module: Seq<char>| is_empty_module(before.nodes@, module);
    let empty = empty_modules(before.nodes@, keys);
    assert(empty == keys.filter(is_empty));
    if empty.len() > 0 {
        keys.lemma_filter_pred(is_empty, 0);
        keys.lemma_filter_contains_rev(is_empty, empty[0]);
        lemma_entry(*plan.modules, keys.index_of(empty[0]));
        assert(is_empty_module(before.nodes@, empty[0]));
    }
}

/// Where validation and checks pass, every module was validated, with the given flags and in the
/// order of their names, and passed; then modules were extended, all elements were checked and the
/// layers were checked, and each of these passed. Each worked on what the one before it left, the
/// first on what there was, and what the last left is what is left in the end.
#[verifier::rlimit(40)]
pub proof fn passing_takes_every_check<E: Engine>(
    engine: &E,
    plan: CheckPlan,
    before: CheckState,
    after: CheckState,
) -> (states: Seq<CheckState>)
    requires
        validated(engine, plan, before, after, true),
    ensures
        ({
            let n = plan.modules.keys().len() as int;
            &&& states.len() == n + 4
            &&& states[0] == before
            &&& states[n + 3] == after
            &&& forall|i: int|
                0 <= i < n ==> call_ensures(
                    E::validate_module,
                    (
                        engine,
                        states[i],
                        &#[trigger] plan.modules.values()[i],
                        plan.extended_check,
                        plan.warn_dialectic,
                    ),
                    (states[i + 1], true),
                )
            &&& call_ensures(
                E::extend_modules,
                (engine, states[n], plan.modules),
                (states[n + 1], true),
            )
            &&& call_ensures(
                E::check_nodes,
                (engine, states[n + 1], plan.excluded_modules),
                (states[n + 2], true),
            )
            &&& call_ensures(
                E::check_layers,
                (engine, states[n + 2], plan.layers),
                (states[n + 3], true),
            )
        }),
        exists|name: Seq<char>| #[trigger] before.nodes@.contains_key(name),
{
    let n = plan.modules.keys().len() as int;
    assert(checked(engine, plan, before, after, true));
    let states = choose|states: Seq<CheckState>| #[trigger]
        is_run(engine, plan, states, true) && states[0] == before && states.last() == after;
    assert(is_run(engine, plan, states, true));
    assert(check_count(plan) == n + 3);
    assert forall|i: int| 0 <= i < n + 3 implies came_out(
        engine,
        plan,
        i,
        #[trigger] states[i],
        states[i + 1],
        true,
    ) by {}
    assert(came_out(engine, plan, n, states[n], states[n + 1], true));
    assert(came_out(engine, plan, n + 1, states[n + 1], states[n + 2], true));
    assert(came_out(engine, plan, n + 2, states[n + 2], states[n + 3], true));
    assert forall|i: int| 0 <= i < n implies call_ensures(
        E::validate_module,
        (
            engine,
            states[i],
            &#[trigger] plan.modules.values()[i],
            plan.extended_check,
            plan.warn_dialectic,
        ),
        (states[i + 1], true),
    ) by {
        assert(came_out(engine, plan, i, states[i], states[i + 1], true));
    }
    if forall|name: Seq<char>| !(#[trigger] before.nodes@.contains_key(name)) {
        no_elements_are_an_error(engine, plan, before, after, true);
    }
    states
}

/// Where validation and checks pass, every module that there is was validated and passed.
pub proof fn passing_validates_every_module<E: Engine>(
    engine: &E,
    plan: CheckPlan,
    before: CheckState,
    after: CheckState,
    module: Seq<char>,
) -> (call: (CheckState, int, CheckState))
    requires
        validated(engine, plan, before, after, true),
        plan.modules.well_formed(),
        plan.modules@.contains_key(module),
    ensures
        0 <= call.1 < plan.modules.values().len(),
        plan.modules.values()[call.1]@ == plan.modules@[module],
        call_ensures(
            E::validate_module,
            (
                engine,
                call.0,
                &plan.modules.values()[call.1],
                plan.extended_check,
                plan.warn_dialectic,
            ),
            (call.2, true),
        ),
{
    let states = passing_takes_every_check(engine, plan, before, after);
    let i = lemma_place(*plan.modules, module);
    (states[i], i, states[i + 1])
}

/// Where there are elements, no module is without any and yet something does not pass, the checks
/// were made in this order up to the first that failed: the modules, in the order of their names,
/// then extending modules, all elements, and the layers. All before it passed, and what it left is
/// what is left in the end.
#[verifier::rlimit(40)]
pub proof fn failing_stops_at_the_first_failure<E: Engine>(
    engine: &E,
    plan: CheckPlan,
    before: CheckState,
    after: CheckState,
    element: Seq<char>,
) -> (states: Seq<CheckState>)
    requires
        validated(engine, plan, before, after, false),
        plan.modules.well_formed(),
        before.nodes@.contains_key(element),
        forall|module: Seq<char>| #[trigger]
            plan.modules@.contains_key(module) ==> exists|name: Seq<char>| #[trigger]
                before.nodes@.contains_key(name) && before.nodes@[name].module == module,
    ensures
        ({
            let n = plan.modules.keys().len() as int;
            let last = states.len() - 2;
            &&& 0 <= last < n + 3
            &&& states[0] == before
            &&& states[last + 1] == after
            &&& forall|i: int|
                0 <= i <= last && i < n ==> call_ensures(
                    E::validate_module,
                    (
                        engine,
                        states[i],
                        &#[trigger] plan.modules.values()[i],
                        plan.extended_check,
                        plan.warn_dialectic,
                    ),
                    (states[i + 1], i < last),
                )
            &&& n <= last ==> call_ensures(
                E::extend_modules,
                (engine, states[n], plan.modules),
                (states[n + 1], n < last),
            )
            &&& n + 1 <= last ==> call_ensures(
                E::check_nodes,
                (engine, states[n + 1], plan.excluded_modules),
                (states[n + 2], n + 1 < last),
            )
            &&& n + 2 <= last ==> call_ensures(
                E::check_layers,
                (engine, states[n + 2], plan.layers),
                (states[n + 3], false),
            )
        }),
{
    checks_decide(engine, plan, before, after, false, element);
    let n = plan.modules.keys().len() as int;
    let states = choose|states: Seq<CheckState>| #[trigger]
        is_run(engine, plan, states, false) && states[0] == before && states.last() == after;
    assert(is_run(engine, plan, states, false));
    let last = states.len() - 2;
    assert(check_count(plan) == n + 3);
    assert forall|i: int| 0 <= i <= last implies came_out(
        engine,
        plan,
        i,
        #[trigger] states[i],
        states[i + 1],
        i < last,
    ) by {}
    if n <= last {
        assert(came_out(engine, plan, n, states[n], states[n + 1], n < last));
    }
    if n + 1 <= last {
        assert(came_out(engine, plan, n + 1, states[n + 1], states[n + 2], n + 1 < last));
    }
    if n + 2 <= last {
        assert(came_out(engine, plan, n + 2, states[n + 2], states[n + 3], n + 2 < last));
    }
    assert forall|i: int| 0 <= i <= last && i < n implies call_ensures(
        E::validate_module,
        (
            engine,
            states[i],
            &#[trigger] plan.modules.values()[i],
            plan.extended_check,
            plan.warn_dialectic,
        ),
        (states[i + 1], i < last),
    ) by {
        assert(came_out(engine, plan, i, states[i], states[i + 1], i < last));
    }
    states
}

// ---- taking a text in ----

/// Taking in a text hands the text to the parser. Where the parser fails, nothing changes, and the
/// error is about the line and with the message that the failure gives. Where it succeeds, what it
/// gave is taken in, under the module that it describes or else the escaped name of the file.
pub proof fn texts_are_parsed_and_taken_in<E: Engine>(
    engine: &E,
    yaml_input: &str,
    filename: &str,
    before: StoreView,
    after: StoreView,
    error: Option<ParseErrorView>,
) -> (steps: (Result<Documents, serde_yaml_ng::Error>, YamlErrorView, String))
    requires
        came_of_text(engine, yaml_input, filename, before, after, error),
    ensures
        call_ensures(E::parse_documents, (engine, yaml_input), steps.0),
        steps.0 matches Err(failure) ==> {
            &&& after == before
            &&& is_said_by(steps.1, failure)
            &&& error == Some(ParseErrorView::Yaml(yaml_failure_text(steps.1)))
        },
        steps.0 matches Ok(document) ==> {
            &&& !(document@.contains_key("module"@) && document@["module"@] is ModuleInformation)
                ==> call_ensures(E::escape_text, (engine, filename), steps.2)
            &&& (after, error) == taken_in(
                before,
                elements_of(document@),
                module_of(document@, steps.2@),
                filename@,
            )
        },
{
    let parsed = choose|parsed: Result<Documents, serde_yaml_ng::Error>| #[trigger]
        call_ensures(E::parse_documents, (engine, yaml_input), parsed) && came_of_parsed(
            engine,
            parsed,
            filename,
            before,
            after,
            error,
        );
    match parsed {
        Err(failure) => {
            assert(came_of_failure(failure, error));
            let said = choose|said: YamlErrorView| #[trigger]
                is_said_by(said, failure) && error == Some(
                    ParseErrorView::Yaml(yaml_failure_text(said)),
                );
            (parsed, said, arbitrary())
        },
        Ok(document) => {
            assert(came_of_document(engine, document, filename, before, after, error));
            let name = choose|name: String| #[trigger]
                names_module(engine, document, filename, name) && (after, error) == taken_in(
                    before,
                    elements_of(document@),
                    module_of(document@, name@),
                    filename@,
                );
            assert(names_module(engine, document, filename, name));
            (parsed, arbitrary(), name)
        },
    }
}

/// The message about a text that could not be parsed gives the line if there is one, and what the
/// parser says.
pub proof fn parser_failures_are_shown(said: YamlErrorView)
    ensures
        said.line is Some ==> yaml_failure_text(said)
            == "No valid GSN element can be found starting from line "@ + decimal(
            said.line->0 as nat,
        )
            + ".\nThis typically means that the YAML is completely invalid or \nthe `text:` attribute is missing for an element.\nPlease see the documentation for details.\nOriginal error message: "@
            + said.message + "."@,
        said.line is None ==> yaml_failure_text(said)
            == "No valid GSN element can be found starting from line "@ + "unknown"@
            + ".\nThis typically means that the YAML is completely invalid or \nthe `text:` attribute is missing for an element.\nPlease see the documentation for details.\nOriginal error message: "@
            + said.message + "."@,
{
}

// ---- processing ----

/// Zero stands for no wrapping width, every other number for itself.
pub proof fn zero_is_no_width(char_wrap: u32)
    ensures
        wrapping(char_wrap) is None <==> char_wrap == 0,
        char_wrap != 0 ==> wrapping(char_wrap) == Some(char_wrap),
{
}

/// The kinds of elements are complained about if one of them is not known, and then all of these are
/// named, in order.
pub proof fn untyped_elements_are_named(nodes: Nodes) -> (names: Seq<Seq<char>>)
    requires
        nodes.well_formed(),
    ensures
        forall|name: Seq<char>| #[trigger]
            names.contains(name) <==> nodes@.contains_key(name) && nodes@[name].node_type is None,
        forall|i: int, j: int|
            0 <= i < j < names.len() ==> text_before(
                #[trigger] names[i],
                #[trigger] names[j],
            ),
        names.len() == 0 <==> type_check(nodes) is None,
        names.len() > 0 ==> type_check(nodes) == Some(
            "Unknown node type(s): "@ + joined(names, ", "@)
                + ". Node names must start with: G (Goal), S (Strategy), Sn (Solution), C (Context), A (Assumption), J (Justification), CG (CounterGoal), CSn (CounterSolution)."@,
        ),
{
    let keys = nodes.keys();
    let is_untyped = |name: Seq<char>| nodes@[name].node_type is None;
    let names = untyped(nodes@, keys);
    assert(names == keys.filter(is_untyped));
    maps_are_walked_in_order(nodes);
    filtered_stays_in_order(keys, is_untyped);
    assert forall|name: Seq<char>| #[trigger]
        names.contains(name) <==> nodes@.contains_key(name) && nodes@[name].node_type is None by {
        if names.contains(name) {
            let j = names.index_of(name);
            keys.lemma_filter_pred(is_untyped, j);
            keys.lemma_filter_contains_rev(is_untyped, name);
            lemma_entry(nodes, keys.index_of(name));
        }
        if nodes@.contains_key(name) && nodes@[name].node_type is None {
            let i = lemma_place(nodes, name);
            keys.lemma_filter_contains(is_untyped, i);
        }
    }
    names
}

/// The message about checks that failed shows all messages, each on a line, behind an empty line.
pub proof fn failed_checks_show_all_messages(messages: Seq<MessageView>)
    ensures
        check_failure_text(messages) == "\n"@ + joined(
            messages.map_values(|message: MessageView| message_text(message)),
            "\n"@,
        ),
{
    assert(message_texts(messages) =~= messages.map_values(
        |message: MessageView| message_text(message),
    ));
}

/// What making a text gave is the text, or the message.
pub proof fn outcomes_show_their_text(result: Result<String, String>)
    ensures
        result matches Ok(text) ==> text_result(result) == Ok::<Seq<char>, Seq<char>>(text@),
        result matches Err(text) ==> text_result(result) == Err::<Seq<char>, Seq<char>>(text@),
{
}

/// The message about a rendering that is no text gives the reason.
pub proof fn unreadable_renderings_give_the_reason(reason: Seq<char>)
    ensures
        invalid_svg_text(reason) == "SVG output was not valid UTF-8: "@ + reason,
{
}

/// A rendering is the text that its bytes encode; where they encode none, this is said.
pub proof fn renderings_are_read(bytes: Seq<u8>)
    ensures
        valid_utf8(bytes) ==> svg_text(bytes) == Ok::<Seq<char>, Seq<char>>(decode_utf8(bytes)),
        !valid_utf8(bytes) ==> svg_text(bytes) == Err::<Seq<char>, Seq<char>>(
            "SVG output was not valid UTF-8: "@ + invalid_utf8_text(bytes),
        ),
{
}

/// Processing a text takes it in under the name `input.gsn.yaml` with nothing there before. Where
/// that succeeds, what was taken in is checked: no module is left out, there are no layers, and
/// neither flag is set. Where it passes and every kind is known, what the checks left is rendered:
/// with the given wrapping width, without stylesheets, masks, layers, a legend, files or arguments.
pub proof fn processing_step_by_step<'a, E: Engine>(
    engine: &E,
    yaml_input: &str,
    char_wrap: Option<u32>,
    result: Result<Seq<char>, Seq<char>>,
) -> (trace: ProcessTrace<'a>)
    requires
        processed(engine, yaml_input, char_wrap, result),
    ensures
        result == process_result(trace),
        was_processed(engine, yaml_input, char_wrap, trace),
        came_of_text(
            engine,
            yaml_input,
            "input.gsn.yaml",
            StoreView { nodes: Map::empty(), modules: Map::empty(), messages: Seq::empty() },
            store(trace.taken.nodes, trace.modules, trace.taken.diags),
            trace.error,
        ),
        trace.error is None ==> {
            let plan = single_document_plan(trace);
            &&& validated(engine, plan, trace.taken, trace.checked, trace.passed)
            &&& *plan.modules == trace.modules
            &&& plan.excluded_modules@.len() == 0
            &&& plan.layers@.len() == 0
            &&& !plan.extended_check
            &&& !plan.warn_dialectic
            &&& trace.modules.well_formed()
            &&& trace.checked.nodes.well_formed()
        },
        trace.error is None && trace.passed && type_check(trace.checked.nodes) is None ==> {
            &&& call_ensures(
                E::render_complete,
                (engine, &trace.checked.nodes, &trace.options),
                trace.rendered,
            )
            &&& trace.options@.char_wrap == char_wrap
            &&& trace.options@.stylesheets.len() == 0
            &&& trace.options@.masked_elements.len() == 0
            &&& trace.options@.layers.len() == 0
            &&& trace.options@.legend == RenderLegend::No
            &&& !trace.options@.embed_stylesheets
            &&& trace.options@.architecture_filename is None
            &&& trace.options@.evidence_filename is None
            &&& trace.options@.complete_filename is None
            &&& trace.options@.output_directory == "."@
            &&& trace.options@.skip_argument
        },
{
    choose|trace: ProcessTrace| #[trigger]
        was_processed(engine, yaml_input, char_wrap, trace) && result == process_result(trace)
}

/// What processing returns is the message about the first step that failed, or else the text of the
/// rendering.
pub proof fn first_failure_is_returned(trace: ProcessTrace)
    ensures
        trace.error matches Some(ParseErrorView::Yaml(text)) ==> process_result(trace) == Err::<
            Seq<char>,
            Seq<char>,
        >(text),
        trace.error matches Some(ParseErrorView::Misplaced) ==> process_result(trace) == Err::<
            Seq<char>,
            Seq<char>,
        >("Module information is only allowed under the name module."@),
        trace.error is None && !trace.passed ==> process_result(trace) == Err::<
            Seq<char>,
            Seq<char>,
        >(check_failure_text(trace.checked.diags@)),
        trace.error is None && trace.passed && type_check(trace.checked.nodes) is Some
            ==> process_result(trace) == Err::<Seq<char>, Seq<char>>(
            type_check(trace.checked.nodes)->0,
        ),
        trace.error is None && trace.passed && type_check(trace.checked.nodes) is None ==> {
            &&& trace.rendered matches Err(reason) ==> process_result(trace) == Err::<
                Seq<char>,
                Seq<char>,
            >(reason@)
            &&& trace.rendered matches Ok(bytes) ==> (valid_utf8(bytes@) ==> process_result(trace)
                == Ok::<Seq<char>, Seq<char>>(decode_utf8(bytes@)))
            &&& trace.rendered matches Ok(bytes) ==> (!valid_utf8(bytes@) ==> process_result(trace)
                == Err::<Seq<char>, Seq<char>>(
                "SVG output was not valid UTF-8: "@ + invalid_utf8_text(bytes@),
            ))
        },
{
}

} // verus!
