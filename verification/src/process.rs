//! From the text of one document to its rendering.

use vstd::prelude::*;
use vstd::string::*;
use vstd::utf8::*;
use crate::checks::{validate_and_check, validated, CheckPlan};
use crate::diagnostics::{message_texts, Diagnostics, MessageView};
use crate::documents::elements_only;
use crate::engine::{CheckState, Engine};
use crate::gsn::{
    Documents, GsnDocumentView, GsnNodeView, ModuleInformation, ModuleInformationView, Modules,
    Nodes,
};
use crate::modules::{
    add_unfiled_document, can_be_added, declared_module, elements_of, module_of, store,
    take_module_information, with_unfiled_document, StoreView,
};
use crate::render::{single_document_options, RenderOptions};
use crate::report::message_lines;
use crate::text::{join, joined, texts};
use crate::yaml::{is_said_by, yaml_failure_text, YamlError, YamlErrorView};

verus! {

/// Why a document was not taken in.
#[derive(Debug)]
pub enum ParseError {
    /// It could not be parsed; this is the message about it.
    Yaml(String),
    /// What it says about its module stands among its elements.
    Misplaced,
}

/// Why a document was not taken in, as a value of specifications.
#[verifier::ext_equal]
pub enum ParseErrorView {
    Yaml(Seq<char>),
    Misplaced,
}

impl View for ParseError {
    type V = ParseErrorView;

    open spec fn view(&self) -> ParseErrorView {
        match self {
            ParseError::Yaml(text) => ParseErrorView::Yaml(text@),
            ParseError::Misplaced => ParseErrorView::Misplaced,
        }
    }
}

/// The message about a document that was not taken in.
pub open spec fn parse_error_text(error: ParseErrorView) -> Seq<char> {
    match error {
        ParseErrorView::Yaml(text) => text,
        ParseErrorView::Misplaced => "Module information is only allowed under the name module."@,
    }
}

impl ParseError {
    /// The message about the document.
    pub fn text(self) -> (text: String)
        ensures
            text@ == parse_error_text(self@),
    {
        match self {
            ParseError::Yaml(text) => text,
            ParseError::Misplaced => {
                "Module information is only allowed under the name module.".to_owned()
            },
        }
    }
}

/// What the outcome of taking a document in says.
pub open spec fn parse_result(result: Result<(), ParseError>) -> Option<ParseErrorView> {
    match result {
        Ok(_) => None,
        Err(error) => Some(error@),
    }
}

/// What comes of a document that was parsed: it is added if it can be, and otherwise nothing
/// changes.
pub open spec fn taken_in(
    before: StoreView,
    elements: Map<Seq<char>, GsnDocumentView>,
    info: ModuleInformationView,
    filename: Seq<char>,
) -> (StoreView, Option<ParseErrorView>) {
    if can_be_added(before, elements, info.name) {
        (with_unfiled_document(before, elements, info, filename), None)
    } else {
        (before, Some(ParseErrorView::Misplaced))
    }
}

/// Takes in a document that was parsed.
pub fn take_in_document(
    info: ModuleInformation,
    elements: Documents,
    filename: &str,
    nodes: &mut Nodes,
    modules: &mut Modules,
    diags: &mut Diagnostics,
) -> (result: Result<(), ParseError>)
    ensures
        (store(*final(nodes), *final(modules), *final(diags)), parse_result(result)) == taken_in(
            store(*old(nodes), *old(modules), *old(diags)),
            elements@,
            info@,
            filename@,
        ),
{
    if modules.contains_key(info.name.as_str()) || elements_only(&elements, nodes) {
        add_unfiled_document(info, elements, filename, nodes, modules, diags);
        Ok(())
    } else {
        Err(ParseError::Misplaced)
    }
}

/// Whether a name can be that of a document's module where the document does not give one: the
/// name of the file, escaped.
pub open spec fn names_module<E: Engine>(
    engine: &E,
    document: Documents,
    filename: &str,
    name: String,
) -> bool {
    declared_module(document@) is None ==> call_ensures(E::escape_text, (engine, filename), name)
}

/// Whether this is the complaint about a document that could not be parsed.
pub open spec fn came_of_failure(
    failure: serde_yaml_ng::Error,
    error: Option<ParseErrorView>,
) -> bool {
    exists|said: YamlErrorView| #[trigger]
        is_said_by(said, failure) && error == Some(ParseErrorView::Yaml(yaml_failure_text(said)))
}

/// Whether this can come of the outcome of parsing a document.
pub open spec fn came_of_parsed<E: Engine>(
    engine: &E,
    parsed: Result<Documents, serde_yaml_ng::Error>,
    filename: &str,
    before: StoreView,
    after: StoreView,
    error: Option<ParseErrorView>,
) -> bool {
    match parsed {
        Err(failure) => {
            &&& after == before
            &&& came_of_failure(failure, error)
        },
        Ok(document) => came_of_document(engine, document, filename, before, after, error),
    }
}

/// Whether this can come of a document that was parsed.
pub open spec fn came_of_document<E: Engine>(
    engine: &E,
    document: Documents,
    filename: &str,
    before: StoreView,
    after: StoreView,
    error: Option<ParseErrorView>,
) -> bool {
    exists|name: String| #[trigger]
        names_module(engine, document, filename, name) && (after, error) == taken_in(
            before,
            elements_of(document@),
            module_of(document@, name@),
            filename@,
        )
}

/// Whether this can come of the text of a document.
pub open spec fn came_of_text<E: Engine>(
    engine: &E,
    yaml_input: &str,
    filename: &str,
    before: StoreView,
    after: StoreView,
    error: Option<ParseErrorView>,
) -> bool {
    exists|parsed: Result<Documents, serde_yaml_ng::Error>| #[trigger]
        call_ensures(E::parse_documents, (engine, yaml_input), parsed) && came_of_parsed(
            engine,
            parsed,
            filename,
            before,
            after,
            error,
        )
}

/// The module of a document; what the document says about it is taken out. Where it says nothing,
/// the module is named after the file.
pub fn module_information_of<E: Engine>(engine: &E, document: &mut Documents, filename: &str) -> (info:
    ModuleInformation)
    ensures
        final(document)@ == elements_of(old(document)@),
        exists|name: String| #[trigger]
            names_module(engine, *old(document), filename, name) && info@ == module_of(
                old(document)@,
                name@,
            ),
{
    match take_module_information(document) {
        Some(info) => {
            assert(names_module(engine, *old(document), filename, arbitrary::<String>()));
            info
        },
        None => {
            let name = engine.escape_text(filename);
            let ghost used = name;
            let info = ModuleInformation::new(name);
            assert(names_module(engine, *old(document), filename, used));
            info
        },
    }
}

/// Takes in the text of a document.
///
/// `filename` stands for the module where the document does not say which module it belongs to.
pub fn parse_yaml_str<E: Engine>(
    engine: &E,
    yaml_input: &str,
    filename: &str,
    nodes: &mut Nodes,
    modules: &mut Modules,
    diags: &mut Diagnostics,
) -> (result: Result<(), ParseError>)
    ensures
        came_of_text(
            engine,
            yaml_input,
            filename,
            store(*old(nodes), *old(modules), *old(diags)),
            store(*final(nodes), *final(modules), *final(diags)),
            parse_result(result),
        ),
{
    let parsed = engine.parse_documents(yaml_input);
    let ghost outcome = parsed;
    assert(call_ensures(E::parse_documents, (engine, yaml_input), outcome));
    match parsed {
        Err(failure) => {
            let said = YamlError::of(&failure);
            let result = Err(ParseError::Yaml(said.text()));
            assert(is_said_by(said@, failure));
            assert(came_of_failure(failure, parse_result(result)));
            assert(came_of_parsed(
                engine,
                outcome,
                filename,
                store(*old(nodes), *old(modules), *old(diags)),
                store(*nodes, *modules, *diags),
                parse_result(result),
            ));
            result
        },
        Ok(document) => {
            let mut elements = document;
            let info = module_information_of(engine, &mut elements, filename);
            let result = take_in_document(info, elements, filename, nodes, modules, diags);
            assert(came_of_parsed(
                engine,
                outcome,
                filename,
                store(*old(nodes), *old(modules), *old(diags)),
                store(*nodes, *modules, *diags),
                parse_result(result),
            ));
            result
        },
    }
}

/// The message about a document that did not pass: the messages that were collected, each on a
/// line of its own, after a line for the failure itself, which has no text.
pub open spec fn check_failure_text(messages: Seq<MessageView>) -> Seq<char> {
    "\n"@ + joined(message_texts(messages), "\n"@)
}

/// The message about a document that did not pass.
pub fn describe_check_failure(diags: &Diagnostics) -> (text: String)
    ensures
        text@ == check_failure_text(diags@),
{
    let lines = message_lines(diags);
    let mut text = "\n".to_owned();
    let messages = join(&lines, "\n");
    text.append(messages.as_str());
    text
}

/// Those of a list of elements whose kind is not known.
pub open spec fn untyped(
    nodes: Map<Seq<char>, GsnNodeView>,
    names: Seq<Seq<char>>,
) -> Seq<Seq<char>> {
    names.filter(|name: Seq<char>| nodes[name].node_type is None)
}

/// The message about elements whose kind is not known.
pub open spec fn untyped_text(names: Seq<Seq<char>>) -> Seq<char> {
    "Unknown node type(s): "@ + joined(names, ", "@)
        + ". Node names must start with: G (Goal), S (Strategy), Sn (Solution), C (Context), A (Assumption), J (Justification), CG (CounterGoal), CSn (CounterSolution)."@
}

/// Whether the kind of every element is known, or else the message about those for which it is not.
pub open spec fn type_check(nodes: Nodes) -> Option<Seq<char>> {
    let names = untyped(nodes@, nodes.keys());
    if names.len() == 0 {
        None
    } else {
        Some(untyped_text(names))
    }
}

/// Checks that the kind of every element is known.
pub fn check_node_types(nodes: &Nodes) -> (failure: Option<String>)
    ensures
        match failure {
            Some(text) => type_check(*nodes) == Some(text@),
            None => type_check(*nodes) is None,
        },
{
    let mut names: Vec<String> = Vec::new();
    let n = nodes.len();
    proof {
        reveal(Seq::filter);
        assert(texts(names@) =~= untyped(nodes@, nodes.keys().take(0)));
    }
    for i in 0..n
        invariant
            n == nodes.keys().len(),
            texts(names@) == untyped(nodes@, nodes.keys().take(i as int)),
    {
        let ghost before = names@;
        proof {
            reveal(Seq::filter);
            let upto = nodes.keys().take(i + 1);
            assert(upto.drop_last() == nodes.keys().take(i as int));
            assert(upto.last() == nodes.keys()[i as int]);
        }
        if nodes.value_at(i).node_type.is_none() {
            let name = nodes.name_at(i);
            names.push(name.clone());
            assert(texts(names@) =~= texts(before).push(name@));
        }
    }
    assert(nodes.keys().take(n as int) == nodes.keys());
    if names.len() == 0 {
        return None;
    }
    let mut text = "Unknown node type(s): ".to_owned();
    let list = join(&names, ", ");
    text.append(list.as_str());
    text.append(
        ". Node names must start with: G (Goal), S (Strategy), Sn (Solution), C (Context), A (Assumption), J (Justification), CG (CounterGoal), CSn (CounterSolution).",
    );
    Some(text)
}

/// What the standard library says about bytes that are not text.
pub uninterp spec fn invalid_utf8_text(bytes: Seq<u8>) -> Seq<char>;

/// Makes a text of bytes, by `String::from_utf8`.
///
/// It succeeds if and only if the bytes are valid UTF-8, and then gives the text that they encode.
/// What its error says about other bytes depends on the bytes alone and is not spelled out.
#[verifier::external_body]
fn text_from_utf8(bytes: Vec<u8>) -> (result: Result<String, String>)
    ensures
        match result {
            Ok(text) => valid_utf8(bytes@) && text@ == decode_utf8(bytes@),
            Err(reason) => !valid_utf8(bytes@) && reason@ == invalid_utf8_text(bytes@),
        },
{
    match String::from_utf8(bytes) {
        Ok(text) => Ok(text),
        Err(error) => Err(error.to_string()),
    }
}

/// What the outcome of making a text says.
pub open spec fn text_result(result: Result<String, String>) -> Result<Seq<char>, Seq<char>> {
    match result {
        Ok(text) => Ok(text@),
        Err(text) => Err(text@),
    }
}

/// The message about a rendering that is no text, for a reason.
pub open spec fn invalid_svg_text(reason: Seq<char>) -> Seq<char> {
    "SVG output was not valid UTF-8: "@ + reason
}

/// The message about a rendering that is no text.
pub fn describe_invalid_svg(reason: &str) -> (text: String)
    ensures
        text@ == invalid_svg_text(reason@),
{
    let mut text = "SVG output was not valid UTF-8: ".to_owned();
    text.append(reason);
    text
}

/// The text of a rendering, or the message that it is none.
pub open spec fn svg_text(bytes: Seq<u8>) -> Result<Seq<char>, Seq<char>> {
    if valid_utf8(bytes) {
        Ok(decode_utf8(bytes))
    } else {
        Err(invalid_svg_text(invalid_utf8_text(bytes)))
    }
}

/// Makes a text of a rendering.
pub fn read_svg(bytes: Vec<u8>) -> (result: Result<String, String>)
    ensures
        text_result(result) == svg_text(bytes@),
{
    match text_from_utf8(bytes) {
        Ok(text) => Ok(text),
        Err(reason) => Err(describe_invalid_svg(reason.as_str())),
    }
}

/// What was on the way from the text of a document to its rendering.
pub struct ProcessTrace<'a> {
    /// The modules that were taken in.
    pub modules: Modules,
    /// What was taken in besides.
    pub taken: CheckState,
    /// Why nothing was taken in, if so.
    pub error: Option<ParseErrorView>,
    /// The modules that were left out of the checks, and the layers.
    pub unused: (&'a [&'a str], &'a [&'a str]),
    /// What the checks left.
    pub checked: CheckState,
    /// Whether they passed.
    pub passed: bool,
    /// How it was rendered.
    pub options: RenderOptions,
    /// What came of rendering.
    pub rendered: Result<Vec<u8>, String>,
}

/// The checks that one document gets: no module is left out, there are no layers, and neither
/// extended checks nor warnings about dialectic elements are asked for.
pub open spec fn single_document_plan<'a>(trace: ProcessTrace<'a>) -> CheckPlan<'a> {
    CheckPlan {
        modules: &trace.modules,
        excluded_modules: trace.unused.0,
        layers: trace.unused.1,
        extended_check: false,
        warn_dialectic: false,
    }
}

/// Nothing has been taken in.
pub open spec fn nothing() -> StoreView {
    StoreView { nodes: Map::empty(), modules: Map::empty(), messages: Seq::empty() }
}

/// Whether nothing went wrong before rendering.
pub open spec fn reaches_rendering(trace: ProcessTrace) -> bool {
    &&& trace.error is None
    &&& trace.passed
    &&& type_check(trace.checked.nodes) is None
}

/// Whether the checks can have been made on what was taken in.
pub open spec fn was_checked<E: Engine>(engine: &E, trace: ProcessTrace) -> bool {
    &&& trace.unused.0@.len() == 0
    &&& trace.unused.1@.len() == 0
    &&& trace.modules.well_formed()
    &&& trace.checked.nodes.well_formed()
    &&& validated(engine, single_document_plan(trace), trace.taken, trace.checked, trace.passed)
}

/// Whether this can be the rendering of what the checks left.
pub open spec fn was_rendered<E: Engine>(
    engine: &E,
    char_wrap: Option<u32>,
    trace: ProcessTrace,
) -> bool {
    &&& trace.options@ == single_document_options(char_wrap)
    &&& call_ensures(
        E::render_complete,
        (engine, &trace.checked.nodes, &trace.options),
        trace.rendered,
    )
}

/// What is returned, given what came of each step: the first thing that went wrong, or the
/// rendering.
pub open spec fn process_result(trace: ProcessTrace) -> Result<Seq<char>, Seq<char>> {
    if trace.error is Some {
        Err(parse_error_text(trace.error->0))
    } else if !trace.passed {
        Err(check_failure_text(trace.checked.diags@))
    } else if type_check(trace.checked.nodes) is Some {
        Err(type_check(trace.checked.nodes)->0)
    } else {
        match trace.rendered {
            Ok(bytes) => svg_text(bytes@),
            Err(reason) => Err(reason@),
        }
    }
}

/// Whether this can have been the way from the text of a document to its rendering.
///
/// The text is taken in as a document named `input.gsn.yaml`. If that succeeds, it is checked; if
/// it passes and the kind of every element is known, it is rendered.
pub open spec fn was_processed<E: Engine>(
    engine: &E,
    yaml_input: &str,
    char_wrap: Option<u32>,
    trace: ProcessTrace,
) -> bool {
    &&& came_of_text(
        engine,
        yaml_input,
        "input.gsn.yaml",
        nothing(),
        store(trace.taken.nodes, trace.modules, trace.taken.diags),
        trace.error,
    )
    &&& trace.error is None ==> was_checked(engine, trace)
    &&& reaches_rendering(trace) ==> was_rendered(engine, char_wrap, trace)
}

/// Whether this can come of processing the text of a document.
pub open spec fn processed<E: Engine>(
    engine: &E,
    yaml_input: &str,
    char_wrap: Option<u32>,
    result: Result<Seq<char>, Seq<char>>,
) -> bool {
    exists|trace: ProcessTrace| #[trigger]
        was_processed(engine, yaml_input, char_wrap, trace) && result == process_result(trace)
}

fn process_gsn_internal<E: Engine>(engine: &E, yaml_input: &str, char_wrap: Option<u32>) -> (result:
    Result<String, String>)
    ensures
        processed(engine, yaml_input, char_wrap, text_result(result)),
{
    let mut diags = Diagnostics::new();
    let mut nodes = Nodes::new();
    let mut modules = Modules::new();
    let parsed = parse_yaml_str(
        engine,
        yaml_input,
        "input.gsn.yaml",
        &mut nodes,
        &mut modules,
        &mut diags,
    );
    let ghost mut trace = ProcessTrace {
        modules,
        taken: CheckState { nodes, diags },
        error: parse_result(parsed),
        unused: arbitrary(),
        checked: arbitrary(),
        passed: arbitrary(),
        options: arbitrary(),
        rendered: arbitrary(),
    };
    if let Err(error) = parsed {
        let text = error.text();
        assert(was_processed(engine, yaml_input, char_wrap, trace));
        return Err(text);
    }
    let none: [&str; 0] = [];
    let unused = none.as_slice();
    let valid = validate_and_check(
        engine,
        &mut nodes,
        &modules,
        &mut diags,
        unused,
        unused,
        false,
        false,
    );
    proof {
        use_type_invariant(&nodes);
        use_type_invariant(&modules);
        trace = ProcessTrace {
            unused: (unused, unused),
            checked: CheckState { nodes, diags },
            passed: valid is Ok,
            ..trace
        };
        assert(was_checked(engine, trace));
    }
    if valid.is_err() {
        let text = describe_check_failure(&diags);
        assert(was_processed(engine, yaml_input, char_wrap, trace));
        return Err(text);
    }
    if let Some(text) = check_node_types(&nodes) {
        assert(was_processed(engine, yaml_input, char_wrap, trace));
        return Err(text);
    }
    let options = RenderOptions::for_single_document(char_wrap);
    let rendered = engine.render_complete(&nodes, &options);
    proof {
        trace = ProcessTrace { options, rendered, ..trace };
        assert(was_checked(engine, trace));
        assert(was_rendered(engine, char_wrap, trace));
        assert(was_processed(engine, yaml_input, char_wrap, trace));
    }
    match rendered {
        Ok(bytes) => read_svg(bytes),
        Err(reason) => Err(reason),
    }
}

/// The wrapping width that a number stands for; zero stands for none.
pub open spec fn wrapping(char_wrap: u32) -> Option<u32> {
    if char_wrap == 0 {
        None
    } else {
        Some(char_wrap)
    }
}

/// Processes the text of one document and returns its rendering, or an error message.
///
/// `char_wrap` is the width at which texts are wrapped, in characters; zero stands for the usual
/// one.
pub fn process_gsn<E: Engine>(engine: &E, yaml_input: &str, char_wrap: u32) -> (result: Result<
    String,
    String,
>)
    ensures
        processed(engine, yaml_input, wrapping(char_wrap), text_result(result)),
{
    let wrap = if char_wrap == 0 {
        None
    } else {
        Some(char_wrap)
    };
    process_gsn_internal(engine, yaml_input, wrap)
}

} // verus!
