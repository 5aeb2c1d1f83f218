//! Processing again: what an engine that answers alike gives for the same text.

use vstd::prelude::*;
use crate::checks::{came_out, check_count, checked, is_run, validated, CheckPlan};
use crate::diagnostics::Diagnostics;
use crate::engine::{CheckState, Engine};
use crate::gsn::{Documents, Modules, Nodes};
use crate::modules::{declared_module, elements_of, module_of, store, StoreView};
use crate::process::{
    came_of_document, came_of_failure, came_of_parsed, came_of_text, names_module, nothing,
    parse_error_text, process_result, processed, reaches_rendering, single_document_plan, taken_in,
    type_check, was_processed, ParseErrorView, ProcessTrace,
};
use crate::text_map::keys_follow_from_contents;
use crate::yaml::{is_said_by, yaml_failure_text, YamlErrorView};

verus! {

/// Whether processing the text of a document can fail in this way before it comes to rendering.
pub open spec fn fails_early<E: Engine>(
    engine: &E,
    yaml_input: &str,
    char_wrap: Option<u32>,
    result: Result<Seq<char>, Seq<char>>,
) -> bool {
    exists|trace: ProcessTrace| #[trigger]
        was_processed(engine, yaml_input, char_wrap, trace) && !reaches_rendering(trace) && result
            == process_result(trace)
}

/// The wrapping width only influences rendering: a way that ended before rendering is one that can
/// be taken with every width, and it ends in the same failure.
pub proof fn width_only_influences_rendering<E: Engine>(
    engine: &E,
    yaml_input: &str,
    a: Option<u32>,
    b: Option<u32>,
    trace: ProcessTrace,
)
    requires
        was_processed(engine, yaml_input, a, trace),
        !reaches_rendering(trace),
    ensures
        was_processed(engine, yaml_input, b, trace),
        processed(engine, yaml_input, b, process_result(trace)),
        process_result(trace) is Err,
{
}

/// Whatever the width, processing can fail before rendering in the same ways.
pub proof fn early_failures_are_the_same_for_every_width<E: Engine>(
    engine: &E,
    yaml_input: &str,
    a: Option<u32>,
    b: Option<u32>,
    result: Result<Seq<char>, Seq<char>>,
)
    ensures
        fails_early(engine, yaml_input, a, result) <==> fails_early(engine, yaml_input, b, result),
{
    if fails_early(engine, yaml_input, a, result) {
        let trace = choose|trace: ProcessTrace| #[trigger]
            was_processed(engine, yaml_input, a, trace) && !reaches_rendering(trace) && result
                == process_result(trace);
        width_only_influences_rendering(engine, yaml_input, a, b, trace);
    }
    if fails_early(engine, yaml_input, b, result) {
        let trace = choose|trace: ProcessTrace| #[trigger]
            was_processed(engine, yaml_input, b, trace) && !reaches_rendering(trace) && result
                == process_result(trace);
        width_only_influences_rendering(engine, yaml_input, b, a, trace);
    }
}

/// Whether two states hold the same elements and messages.
pub open spec fn same_state(a: CheckState, b: CheckState) -> bool {
    &&& a.nodes@ == b.nodes@
    &&& a.diags@ == b.diags@
}

/// Whether two plans ask for the same checks.
pub open spec fn same_plan(a: CheckPlan, b: CheckPlan) -> bool {
    &&& a.modules.well_formed()
    &&& b.modules.well_formed()
    &&& a.modules@ == b.modules@
    &&& a.excluded_modules@ == b.excluded_modules@
    &&& a.layers@ == b.layers@
    &&& a.extended_check == b.extended_check
    &&& a.warn_dialectic == b.warn_dialectic
}

/// Whether the same is said of two failures of parsing.
pub open spec fn same_said(a: serde_yaml_ng::Error, b: serde_yaml_ng::Error) -> bool {
    forall|x: YamlErrorView, y: YamlErrorView| #[trigger]
        is_said_by(x, a) && #[trigger] is_said_by(y, b) ==> x == y
}

/// Whether two outcomes of parsing are the same: the same document, or failures of which the same
/// is said.
pub open spec fn same_parsed(
    a: Result<Documents, serde_yaml_ng::Error>,
    b: Result<Documents, serde_yaml_ng::Error>,
) -> bool {
    match (a, b) {
        (Ok(a), Ok(b)) => a@ == b@,
        (Err(a), Err(b)) => same_said(a, b),
        _ => false,
    }
}

/// Whether two outcomes of rendering are the same.
pub open spec fn same_rendered(a: Result<Vec<u8>, String>, b: Result<Vec<u8>, String>) -> bool {
    match (a, b) {
        (Ok(a), Ok(b)) => a@ == b@,
        (Err(a), Err(b)) => a@ == b@,
        _ => false,
    }
}

/// Whether parsing a text comes out the same each time.
pub open spec fn parses_alike<E: Engine>(engine: &E) -> bool {
    forall|
        text: &str,
        a: Result<Documents, serde_yaml_ng::Error>,
        b: Result<Documents, serde_yaml_ng::Error>,
    |
        #![trigger call_ensures(E::parse_documents, (engine, text), a), call_ensures(E::parse_documents, (engine, text), b)]
        call_ensures(E::parse_documents, (engine, text), a) && call_ensures(
            E::parse_documents,
            (engine, text),
            b,
        ) ==> same_parsed(a, b)
}

/// Whether escaping a text comes out the same each time.
pub open spec fn escapes_alike<E: Engine>(engine: &E) -> bool {
    forall|text: &str, a: String, b: String|
        #![trigger call_ensures(E::escape_text, (engine, text), a), call_ensures(E::escape_text, (engine, text), b)]
        call_ensures(E::escape_text, (engine, text), a) && call_ensures(
            E::escape_text,
            (engine, text),
            b,
        ) ==> a@ == b@
}

/// Whether a check of the same elements and messages comes out the same each time.
pub open spec fn checks_alike<E: Engine>(engine: &E) -> bool {
    forall|
        plan: CheckPlan,
        other: CheckPlan,
        check: int,
        before: CheckState,
        after: CheckState,
        passed: bool,
        other_before: CheckState,
        other_after: CheckState,
        other_passed: bool,
    |
        #![trigger came_out(engine, plan, check, before, after, passed), came_out(engine, other, check, other_before, other_after, other_passed)]
        same_plan(plan, other) && 0 <= check < check_count(plan) && same_state(before, other_before)
            && came_out(engine, plan, check, before, after, passed) && came_out(
            engine,
            other,
            check,
            other_before,
            other_after,
            other_passed,
        ) ==> same_state(after, other_after) && passed == other_passed
}

/// Whether the same elements are rendered the same each time.
pub open spec fn renders_alike<E: Engine>(engine: &E) -> bool {
    forall|
        a: ProcessTrace,
        b: ProcessTrace,
    |
        #![trigger rendered_as(engine, a), rendered_as(engine, b)]
        rendered_as(engine, a) && rendered_as(engine, b) && a.checked.nodes@ == b.checked.nodes@
            && a.options@ == b.options@ ==> same_rendered(a.rendered, b.rendered)
}

/// Whether the elements that the checks left can have been rendered in this way.
pub open spec fn rendered_as<E: Engine>(engine: &E, trace: ProcessTrace) -> bool {
    call_ensures(
        E::render_complete,
        (engine, &trace.checked.nodes, &trace.options),
        trace.rendered,
    )
}

/// Whether an engine answers the same each time it is asked the same. Nothing is asked here of how
/// it renders.
pub open spec fn answers_alike<E: Engine>(engine: &E) -> bool {
    &&& parses_alike(engine)
    &&& escapes_alike(engine)
    &&& checks_alike(engine)
}

/// The same document under the same file name is taken in the same way each time.
proof fn documents_repeat<E: Engine>(
    engine: &E,
    document: Documents,
    other: Documents,
    filename: &str,
    before: StoreView,
    after: StoreView,
    error: Option<ParseErrorView>,
    other_after: StoreView,
    other_error: Option<ParseErrorView>,
)
    requires
        escapes_alike(engine),
        document@ == other@,
        came_of_document(engine, document, filename, before, after, error),
        came_of_document(engine, other, filename, before, other_after, other_error),
    ensures
        after == other_after,
        error == other_error,
{
    let name = choose|name: String| #[trigger]
        names_module(engine, document, filename, name) && (after, error) == taken_in(
            before,
            elements_of(document@),
            module_of(document@, name@),
            filename@,
        );
    let other_name = choose|name: String| #[trigger]
        names_module(engine, other, filename, name) && (other_after, other_error) == taken_in(
            before,
            elements_of(other@),
            module_of(other@, name@),
            filename@,
        );
    assert(names_module(engine, document, filename, name));
    assert(names_module(engine, other, filename, other_name));
    if declared_module(document@) is None {
        assert(call_ensures(E::escape_text, (engine, filename), name));
        assert(call_ensures(E::escape_text, (engine, filename), other_name));
        assert(name@ == other_name@);
    }
}

/// The same text under the same file name is taken in the same way each time.
pub proof fn taking_in_repeats<E: Engine>(
    engine: &E,
    yaml_input: &str,
    filename: &str,
    before: StoreView,
    after: StoreView,
    error: Option<ParseErrorView>,
    other_after: StoreView,
    other_error: Option<ParseErrorView>,
)
    requires
        parses_alike(engine),
        escapes_alike(engine),
        came_of_text(engine, yaml_input, filename, before, after, error),
        came_of_text(engine, yaml_input, filename, before, other_after, other_error),
    ensures
        after == other_after,
        error == other_error,
{
    let parsed = choose|parsed: Result<Documents, serde_yaml_ng::Error>| #[trigger]
        call_ensures(E::parse_documents, (engine, yaml_input), parsed) && came_of_parsed(
            engine,
            parsed,
            filename,
            before,
            after,
            error,
        );
    let other = choose|parsed: Result<Documents, serde_yaml_ng::Error>| #[trigger]
        call_ensures(E::parse_documents, (engine, yaml_input), parsed) && came_of_parsed(
            engine,
            parsed,
            filename,
            before,
            other_after,
            other_error,
        );
    assert(same_parsed(parsed, other));
    match (parsed, other) {
        (Ok(document), Ok(other_document)) => {
            documents_repeat(
                engine,
                document,
                other_document,
                filename,
                before,
                after,
                error,
                other_after,
                other_error,
            );
        },
        (Err(failure), Err(other_failure)) => {
            failures_repeat(failure, other_failure, error, other_error);
        },
        _ => {},
    }
}

/// Two runs of the same checks go through the same states.
proof fn states_repeat<E: Engine>(
    engine: &E,
    plan: CheckPlan,
    other: CheckPlan,
    states: Seq<CheckState>,
    passed: bool,
    other_states: Seq<CheckState>,
    other_passed: bool,
    i: int,
)
    requires
        checks_alike(engine),
        same_plan(plan, other),
        is_run(engine, plan, states, passed),
        is_run(engine, other, other_states, other_passed),
        same_state(states[0], other_states[0]),
        0 <= i < states.len(),
        i < other_states.len(),
    ensures
        same_state(states[i], other_states[i]),
    decreases i,
{
    if i > 0 {
        states_repeat(
            engine,
            plan,
            other,
            states,
            passed,
            other_states,
            other_passed,
            i - 1,
        );
        let outcome = if i == states.len() - 1 {
            passed
        } else {
            true
        };
        let other_outcome = if i == other_states.len() - 1 {
            other_passed
        } else {
            true
        };
        assert(came_out(engine, plan, i - 1, states[i - 1], states[i], outcome));
        assert(came_out(
            engine,
            other,
            i - 1,
            other_states[i - 1],
            other_states[i],
            other_outcome,
        ));
    }
}

/// Of two runs of the same checks, one does not end before the other.
proof fn lengths_repeat<E: Engine>(
    engine: &E,
    plan: CheckPlan,
    other: CheckPlan,
    states: Seq<CheckState>,
    passed: bool,
    other_states: Seq<CheckState>,
    other_passed: bool,
)
    requires
        checks_alike(engine),
        same_plan(plan, other),
        is_run(engine, plan, states, passed),
        is_run(engine, other, other_states, other_passed),
        same_state(states[0], other_states[0]),
    ensures
        states.len() >= other_states.len(),
{
    keys_follow_from_contents(*plan.modules, *other.modules);
    if states.len() < other_states.len() {
        let last = states.len() - 2;
        states_repeat(engine, plan, other, states, passed, other_states, other_passed, last);
        assert(came_out(engine, plan, last, states[last], states[last + 1], passed));
        assert(came_out(engine, other, last, other_states[last], other_states[last + 1], true));
        assert(passed);
    }
}

/// The same checks of the same elements and messages come to the same end each time.
pub proof fn checking_repeats<E: Engine>(
    engine: &E,
    plan: CheckPlan,
    other: CheckPlan,
    before: CheckState,
    after: CheckState,
    passed: bool,
    other_before: CheckState,
    other_after: CheckState,
    other_passed: bool,
)
    requires
        checks_alike(engine),
        same_plan(plan, other),
        same_state(before, other_before),
        validated(engine, plan, before, after, passed),
        validated(engine, other, other_before, other_after, other_passed),
    ensures
        same_state(after, other_after),
        passed == other_passed,
{
    keys_follow_from_contents(*plan.modules, *other.modules);
    if checked(engine, plan, before, after, passed) && checked(
        engine,
        other,
        other_before,
        other_after,
        other_passed,
    ) {
        let states = choose|states: Seq<CheckState>| #[trigger]
            is_run(engine, plan, states, passed) && states[0] == before && states.last() == after;
        let other_states = choose|states: Seq<CheckState>| #[trigger]
            is_run(engine, other, states, other_passed) && states[0] == other_before
                && states.last() == other_after;
        lengths_repeat(engine, plan, other, states, passed, other_states, other_passed);
        lengths_repeat(engine, other, plan, other_states, other_passed, states, passed);
        let last = states.len() - 1;
        states_repeat(engine, plan, other, states, passed, other_states, other_passed, last);
        states_repeat(engine, plan, other, states, passed, other_states, other_passed, last - 1);
        assert(came_out(engine, plan, last - 1, states[last - 1], states[last], passed));
        assert(came_out(
            engine,
            other,
            last - 1,
            other_states[last - 1],
            other_states[last],
            other_passed,
        ));
    }
}

/// Whatever the width, the message about a text that is not taken in is that of taking it in by
/// itself, as a document named `input.gsn.yaml` and with nothing there before.
pub proof fn refused_texts_fail_for_every_width<E: Engine>(
    engine: &E,
    yaml_input: &str,
    char_wrap: Option<u32>,
    nodes: Nodes,
    modules: Modules,
    diags: Diagnostics,
    error: ParseErrorView,
)
    requires
        came_of_text(
            engine,
            yaml_input,
            "input.gsn.yaml",
            nothing(),
            store(nodes, modules, diags),
            Some(error),
        ),
    ensures
        fails_early(engine, yaml_input, char_wrap, Err(parse_error_text(error))),
        processed(engine, yaml_input, char_wrap, Err(parse_error_text(error))),
{
    let trace = ProcessTrace {
        modules,
        taken: CheckState { nodes, diags },
        error: Some(error),
        unused: arbitrary(),
        checked: arbitrary(),
        passed: arbitrary(),
        options: arbitrary(),
        rendered: arbitrary(),
    };
    assert(was_processed(engine, yaml_input, char_wrap, trace));
    assert(!reaches_rendering(trace));
    assert(process_result(trace) == Err::<Seq<char>, Seq<char>>(parse_error_text(error)));
}

/// Where parsing comes out the same each time, a text that cannot be parsed fails with the same
/// message with every width, whatever else the engine does.
pub proof fn parse_failures_repeat<E: Engine>(
    engine: &E,
    yaml_input: &str,
    a: Option<u32>,
    b: Option<u32>,
    trace: ProcessTrace,
    again: Result<Seq<char>, Seq<char>>,
)
    requires
        parses_alike(engine),
        was_processed(engine, yaml_input, a, trace),
        trace.error matches Some(ParseErrorView::Yaml(_)),
        processed(engine, yaml_input, b, again),
    ensures
        again == process_result(trace),
        again is Err,
{
    let other = choose|other: ProcessTrace| #[trigger]
        was_processed(engine, yaml_input, b, other) && again == process_result(other);
    let after = store(trace.taken.nodes, trace.modules, trace.taken.diags);
    let other_after = store(other.taken.nodes, other.modules, other.taken.diags);
    let parsed = choose|parsed: Result<Documents, serde_yaml_ng::Error>| #[trigger]
        call_ensures(E::parse_documents, (engine, yaml_input), parsed) && came_of_parsed(
            engine,
            parsed,
            "input.gsn.yaml",
            nothing(),
            after,
            trace.error,
        );
    let other_parsed = choose|parsed: Result<Documents, serde_yaml_ng::Error>| #[trigger]
        call_ensures(E::parse_documents, (engine, yaml_input), parsed) && came_of_parsed(
            engine,
            parsed,
            "input.gsn.yaml",
            nothing(),
            other_after,
            other.error,
        );
    assert(parsed is Err);
    assert(same_parsed(parsed, other_parsed));
    failures_repeat(parsed->Err_0, other_parsed->Err_0, trace.error, other.error);
}

/// Failures of which the same is said are complained about in the same way.
proof fn failures_repeat(
    failure: serde_yaml_ng::Error,
    other: serde_yaml_ng::Error,
    error: Option<ParseErrorView>,
    other_error: Option<ParseErrorView>,
)
    requires
        same_said(failure, other),
        came_of_failure(failure, error),
        came_of_failure(other, other_error),
    ensures
        error == other_error,
{
    let said = choose|said: YamlErrorView| #[trigger]
        is_said_by(said, failure) && error == Some(ParseErrorView::Yaml(yaml_failure_text(said)));
    let other_said = choose|said: YamlErrorView| #[trigger]
        is_said_by(said, other) && other_error == Some(
            ParseErrorView::Yaml(yaml_failure_text(said)),
        );
    assert(is_said_by(said, failure) && is_said_by(other_said, other));
}

/// Whatever the widths, with an engine that answers alike the way from a text either comes to
/// rendering each time, with the same elements, or fails with the same message each time.
pub proof fn the_way_to_rendering_repeats<E: Engine>(
    engine: &E,
    yaml_input: &str,
    a: Option<u32>,
    b: Option<u32>,
    trace: ProcessTrace,
    other: ProcessTrace,
)
    requires
        answers_alike(engine),
        was_processed(engine, yaml_input, a, trace),
        was_processed(engine, yaml_input, b, other),
    ensures
        reaches_rendering(trace) == reaches_rendering(other),
        reaches_rendering(trace) ==> trace.checked.nodes@ == other.checked.nodes@,
        !reaches_rendering(trace) ==> process_result(trace) == process_result(other),
{
    taking_in_repeats(
        engine,
        yaml_input,
        "input.gsn.yaml",
        nothing(),
        store(trace.taken.nodes, trace.modules, trace.taken.diags),
        trace.error,
        store(other.taken.nodes, other.modules, other.taken.diags),
        other.error,
    );
    if trace.error is None {
        let plan = single_document_plan(trace);
        let other_plan = single_document_plan(other);
        assert(plan.excluded_modules@ =~= other_plan.excluded_modules@);
        assert(plan.layers@ =~= other_plan.layers@);
        checking_repeats(
            engine,
            plan,
            other_plan,
            trace.taken,
            trace.checked,
            trace.passed,
            other.taken,
            other.checked,
            other.passed,
        );
        keys_follow_from_contents(trace.checked.nodes, other.checked.nodes);
        assert(type_check(trace.checked.nodes) == type_check(other.checked.nodes));
    }
}

/// With an engine that answers alike, a text that fails before rendering with one width fails with
/// the same message with every width: the width only influences rendering, and nothing is left over
/// from one time to the next.
pub proof fn early_failures_repeat<E: Engine>(
    engine: &E,
    yaml_input: &str,
    a: Option<u32>,
    b: Option<u32>,
    result: Result<Seq<char>, Seq<char>>,
    again: Result<Seq<char>, Seq<char>>,
)
    requires
        answers_alike(engine),
        fails_early(engine, yaml_input, a, result),
        processed(engine, yaml_input, b, again),
    ensures
        again == result,
        again is Err,
{
    let trace = choose|trace: ProcessTrace| #[trigger]
        was_processed(engine, yaml_input, a, trace) && !reaches_rendering(trace) && result
            == process_result(trace);
    let other = choose|trace: ProcessTrace| #[trigger]
        was_processed(engine, yaml_input, b, trace) && again == process_result(trace);
    the_way_to_rendering_repeats(engine, yaml_input, a, b, trace, other);
}

/// With an engine that answers and renders alike, the same text and width give the same result each
/// time.
pub proof fn processing_repeats<E: Engine>(
    engine: &E,
    yaml_input: &str,
    char_wrap: Option<u32>,
    result: Result<Seq<char>, Seq<char>>,
    again: Result<Seq<char>, Seq<char>>,
)
    requires
        answers_alike(engine),
        renders_alike(engine),
        processed(engine, yaml_input, char_wrap, result),
        processed(engine, yaml_input, char_wrap, again),
    ensures
        again == result,
{
    let trace = choose|trace: ProcessTrace| #[trigger]
        was_processed(engine, yaml_input, char_wrap, trace) && result == process_result(trace);
    let other = choose|trace: ProcessTrace| #[trigger]
        was_processed(engine, yaml_input, char_wrap, trace) && again == process_result(trace);
    the_way_to_rendering_repeats(engine, yaml_input, char_wrap, char_wrap, trace, other);
    if reaches_rendering(trace) {
        assert(rendered_as(engine, trace));
        assert(rendered_as(engine, other));
        assert(same_rendered(trace.rendered, other.rendered));
    }
}

} // verus!
