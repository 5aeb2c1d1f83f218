//! What holds of modules: which one a document belongs to, what taking it in does, and which file is
//! read next.

use vstd::prelude::*;
use crate::diagnostics::{opt_str, DiagType, Diagnostics, MessageView};
use crate::documents::{adds_elements_only, with_collision, with_document};
use crate::engine::Engine;
use crate::gsn::{
    origin_text, path_is_known, Documents, GsnDocumentView, Module, ModuleInformationView,
    ModuleView, Modules, Nodes, Origin, OriginView,
};
use crate::inputs::{
    all_forward_slashes, can_be_accepted, is_duplicate, load_failure_text, next_round, taken_from,
    with_file, with_filed_module, with_imports, LoadFailure, LoadedFile, LoadedFileView, QueueView,
};
use crate::modules::{
    can_be_added, declared_module, elements_of, module_of, store, with_module,
    with_unfiled_document, StoreView,
};
use crate::process::{
    names_module, nothing, parse_error_text, parse_result, taken_in, ParseError, ParseErrorView,
};
use crate::uses::{used_files, with_unclear_uses, UsePlace};
use crate::word_laws::slashes_are_turned;

verus! {

// ---- modules as they are shown ----

/// What is said of a module is what its fields hold, all of them.
pub proof fn modules_show_all_fields(module: Module)
    ensures
        module@.orig_file_name == module.orig_file_name@,
        module@.meta == module.meta@,
        module.origin is CommandLine <==> module@.origin is CommandLine,
        module.origin is Excluded <==> module@.origin is Excluded,
        module.origin matches Origin::File(file) ==> module@.origin == OriginView::File(file@),
        module.canonical_path is None <==> module@.canonical_path is None,
        module.canonical_path matches Some(path) ==> module@.canonical_path == Some(path@),
        module.output_path is None <==> module@.output_path is None,
        module.output_path matches Some(path) ==> module@.output_path == Some(path@),
{
}

/// What is said of a file that was read is what its fields hold, all of them.
pub proof fn loaded_files_show_all_fields(file: LoadedFile)
    ensures
        file@.info == file.info@,
        file@.elements == file.elements@,
        file@.canonical_path == file.canonical_path@,
        file.output_path is None <==> file@.output_path is None,
        file.output_path matches Some(path) ==> file@.output_path == Some(path@),
{
}

/// An origin is shown as the command line, as the file, or as excluded.
pub proof fn origins_are_shown(file: Seq<char>)
    ensures
        origin_text(OriginView::CommandLine) == "command line"@,
        origin_text(OriginView::File(file)) == file,
        origin_text(OriginView::Excluded) == "excluded"@,
{
}

/// All that has been taken in is the elements, the modules and the messages.
pub proof fn stores_show_all_parts(nodes: Nodes, modules: Modules, diags: Diagnostics)
    ensures
        store(nodes, modules, diags).nodes == nodes@,
        store(nodes, modules, diags).modules == modules@,
        store(nodes, modules, diags).messages == diags@,
{
}

/// Why a text was not taken in shows the message, or that module information was misplaced; a text
/// that was taken in has no reason.
pub proof fn outcomes_show_their_reason(result: Result<(), ParseError>)
    ensures
        result is Ok <==> parse_result(result) is None,
        result matches Err(ParseError::Yaml(text)) ==> parse_result(result) == Some(
            ParseErrorView::Yaml(text@),
        ),
        result matches Err(ParseError::Misplaced) ==> parse_result(result) == Some(
            ParseErrorView::Misplaced,
        ),
{
}

/// Adding a module puts it under its name, whatever it is, leaves every other module, and adds its
/// elements with its wrapping width; they are complained about as those of its file.
pub proof fn modules_are_added_under_their_name(
    before: StoreView,
    elements: Map<Seq<char>, GsnDocumentView>,
    module: ModuleView,
)
    ensures
        with_module(before, elements, module).modules.contains_key(module.meta.name),
        with_module(before, elements, module).modules[module.meta.name] == module,
        forall|name: Seq<char>|
            name != module.meta.name ==> (#[trigger] with_module(
                before,
                elements,
                module,
            ).modules.contains_key(name) <==> before.modules.contains_key(name)),
        forall|name: Seq<char>|
            name != module.meta.name && #[trigger] before.modules.contains_key(name)
                ==> with_module(before, elements, module).modules[name] == before.modules[name],
        with_module(before, elements, module).nodes == with_document(
            before.nodes,
            elements,
            module.meta.name,
            module.meta.char_wrap,
        ),
        with_module(before, elements, module).messages == with_collision(
            before.messages,
            elements,
            before.nodes,
            module.meta.name,
            module.orig_file_name,
        ),
{
}

// ---- documents ----

/// A document belongs to the module that it describes under the name `module`. Where nothing or an
/// element stands there, it belongs to a module of which only the name is known, the one that goes
/// with the file.
pub proof fn documents_belong_to_the_module_they_describe(
    document: Map<Seq<char>, GsnDocumentView>,
    file_module_name: Seq<char>,
)
    ensures
        ({
            let describes = document.contains_key("module"@)
                && document["module"@] is ModuleInformation;
            let info: ModuleInformationView = module_of(document, file_module_name);
            &&& declared_module(document) is Some <==> describes
            &&& describes ==> info == document["module"@]->ModuleInformation_0
            &&& describes ==> declared_module(document) == Some(
                document["module"@]->ModuleInformation_0,
            )
            &&& !describes ==> {
                &&& info.name == file_module_name
                &&& info.uses.len() == 0
                &&& info.stylesheets.len() == 0
                &&& info.char_wrap is None
                &&& info.additional.len() == 0
            }
        }),
{
}

/// The elements of a document are all that it holds, unchanged, but for what stands under the name
/// `module`.
pub proof fn elements_are_all_but_the_module(document: Map<Seq<char>, GsnDocumentView>)
    ensures
        forall|name: Seq<char>| #[trigger]
            elements_of(document).contains_key(name) <==> document.contains_key(name) && name
                != "module"@,
        forall|name: Seq<char>| #[trigger]
            elements_of(document).contains_key(name) ==> elements_of(document)[name]
                == document[name],
{
}

/// Where a document does not describe its module, the name that stands for it is what escaping the
/// name of the file gave.
pub proof fn undescribed_modules_are_named_after_the_file<E: Engine>(
    engine: &E,
    document: Documents,
    filename: &str,
    name: String,
)
    requires
        names_module(engine, document, filename, name),
        !(document@.contains_key("module"@) && document@["module"@] is ModuleInformation),
    ensures
        call_ensures(E::escape_text, (engine, filename), name),
        module_of(document@, name@).name == name@,
{
}

/// Where nothing was taken in, there is no element, no module and no message.
pub proof fn nothing_is_nothing()
    ensures
        forall|name: Seq<char>| !(#[trigger] nothing().nodes.contains_key(name)),
        forall|name: Seq<char>| !(#[trigger] nothing().modules.contains_key(name)),
        nothing().messages.len() == 0,
{
}

/// A document whose module is there already changes nothing but for one error: for the module,
/// naming the document and the file in which the module was present.
pub proof fn documents_of_known_modules_are_refused(
    before: StoreView,
    elements: Map<Seq<char>, GsnDocumentView>,
    info: ModuleInformationView,
    filename: Seq<char>,
)
    requires
        before.modules.contains_key(info.name),
    ensures
        taken_in(before, elements, info, filename).1 is None,
        taken_in(before, elements, info, filename).0.nodes == before.nodes,
        taken_in(before, elements, info, filename).0.modules == before.modules,
        taken_in(before, elements, info, filename).0.messages == before.messages.push(
            MessageView {
                diag_type: DiagType::Error,
                module: Some(info.name),
                msg: "C06: Module "@ + filename + " was already present in "@
                    + before.modules[info.name].orig_file_name + "."@,
            },
        ),
        with_unfiled_document(before, elements, info, filename) == taken_in(
            before,
            elements,
            info,
            filename,
        ).0,
{
}

/// A document of a new module adds this module, under its name and with all that is said of it, and
/// its elements, with the wrapping width of the module. Every other module stays as it was.
pub proof fn documents_of_new_modules_are_added(
    before: StoreView,
    elements: Map<Seq<char>, GsnDocumentView>,
    info: ModuleInformationView,
    filename: Seq<char>,
)
    requires
        !before.modules.contains_key(info.name),
        adds_elements_only(elements, before.nodes),
    ensures
        ({
            let (after, error) = taken_in(before, elements, info, filename);
            &&& error is None
            &&& after.modules.contains_key(info.name)
            &&& after.modules[info.name].meta == info
            &&& after.modules[info.name].orig_file_name == filename
            &&& after.modules[info.name].origin == OriginView::CommandLine
            &&& after.modules[info.name].canonical_path is None
            &&& after.modules[info.name].output_path is None
            &&& forall|name: Seq<char>|
                name != info.name ==> (#[trigger] after.modules.contains_key(name)
                    <==> before.modules.contains_key(name))
            &&& forall|name: Seq<char>|
                name != info.name && #[trigger] before.modules.contains_key(name)
                    ==> after.modules[name] == before.modules[name]
            &&& after.nodes == with_document(before.nodes, elements, info.name, info.char_wrap)
            &&& after.messages == with_collision(
                before.messages,
                elements,
                before.nodes,
                info.name,
                filename,
            )
            &&& with_unfiled_document(before, elements, info, filename) == after
        }),
{
}

/// A document of a new module that would add module information as an element changes nothing and
/// is refused.
pub proof fn misplaced_information_changes_nothing(
    before: StoreView,
    elements: Map<Seq<char>, GsnDocumentView>,
    info: ModuleInformationView,
    filename: Seq<char>,
)
    ensures
        can_be_added(before, elements, info.name) <==> before.modules.contains_key(info.name)
            || adds_elements_only(elements, before.nodes),
        !before.modules.contains_key(info.name) && !adds_elements_only(elements, before.nodes)
            ==> taken_in(before, elements, info, filename) == (
            before,
            Some(ParseErrorView::Misplaced),
        ),
        taken_in(before, elements, info, filename).1 is Some ==> !before.modules.contains_key(
            info.name,
        ) && !adds_elements_only(elements, before.nodes),
{
}

/// The message about a document that could not be parsed is that of the parser.
pub proof fn parse_errors_are_shown(text: Seq<char>)
    ensures
        parse_error_text(ParseErrorView::Yaml(text)) == text,
        parse_error_text(ParseErrorView::Misplaced)
            == "Module information is only allowed under the name module."@,
{
}

// ---- files ----

/// Whether a path is known is whether some module was read from it.
pub proof fn known_paths_belong_to_modules(modules: Map<Seq<char>, ModuleView>, path: Seq<char>)
    ensures
        path_is_known(modules, path) <==> exists|name: Seq<char>| #[trigger]
            modules.contains_key(name) && modules[name].canonical_path is Some
                && modules[name].canonical_path->0 == path,
{
    if exists|name: Seq<char>| #[trigger]
        modules.contains_key(name) && modules[name].canonical_path is Some
            && modules[name].canonical_path->0 == path {
        let name = choose|name: Seq<char>| #[trigger]
            modules.contains_key(name) && modules[name].canonical_path is Some
                && modules[name].canonical_path->0 == path;
        assert(modules[name].canonical_path == Some(path));
    }
    if path_is_known(modules, path) {
        let name = choose|name: Seq<char>| #[trigger]
            modules.contains_key(name) && modules[name].canonical_path == Some(path);
        assert(modules.contains_key(name));
    }
}

/// A file is refused as a duplicate exactly if there is a module of its name. One that is not can be
/// accepted exactly if its path is not known and all that it adds is elements.
pub proof fn files_are_refused_for_their_module(before: StoreView, file: LoadedFileView)
    ensures
        is_duplicate(before, file) <==> before.modules.contains_key(file.info.name),
        before.modules.contains_key(file.info.name) ==> can_be_accepted(before, file),
        !before.modules.contains_key(file.info.name) ==> (can_be_accepted(before, file) <==> (
        !path_is_known(before.modules, file.canonical_path) && adds_elements_only(
            file.elements,
            before.nodes,
        ))),
{
}

/// A file whose module is there already changes nothing but for one error: for the module, naming
/// the file, and the file and the origin of the module that is there. Which round it is read in and
/// which files it uses do not matter, and none of these is read.
pub proof fn files_of_known_modules_are_refused(
    before: StoreView,
    file: LoadedFileView,
    input: Seq<char>,
    first_run: bool,
    places: Seq<UsePlace>,
    queue: QueueView,
)
    requires
        before.modules.contains_key(file.info.name),
    ensures
        ({
            let present = before.modules[file.info.name];
            let after = with_filed_module(before, file, input, first_run);
            &&& after.nodes == before.nodes
            &&& after.modules == before.modules
            &&& after.messages == before.messages.push(
                MessageView {
                    diag_type: DiagType::Error,
                    module: Some(file.info.name),
                    msg: "C06: Module in "@ + input + " was already present in "@
                        + present.orig_file_name + " provided by "@ + origin_text(present.origin)
                        + "."@,
                },
            )
            &&& with_file(before, file, input, first_run, places) == after
            &&& with_imports(before, queue, file, places) == queue
        }),
{
}

/// A file of a new module adds this module, whichever round it is read in: under its name, with all
/// that is said of it, the file, its path, and the place where it is to be rendered. Its elements
/// are added with the wrapping width of the module, and every other module stays as it was.
pub proof fn files_of_new_modules_are_added(
    before: StoreView,
    file: LoadedFileView,
    input: Seq<char>,
    first_run: bool,
)
    requires
        !before.modules.contains_key(file.info.name),
    ensures
        ({
            let after = with_filed_module(before, file, input, first_run);
            let module = after.modules[file.info.name];
            &&& after.modules.contains_key(file.info.name)
            &&& module.meta == file.info
            &&& module.orig_file_name == input
            &&& module.canonical_path == Some(file.canonical_path)
            &&& module.output_path == file.output_path
            &&& first_run ==> module.origin == OriginView::CommandLine
            &&& !first_run ==> module.origin == OriginView::File(input)
            &&& forall|name: Seq<char>|
                name != file.info.name ==> (#[trigger] after.modules.contains_key(name)
                    <==> before.modules.contains_key(name))
            &&& forall|name: Seq<char>|
                name != file.info.name && #[trigger] before.modules.contains_key(name)
                    ==> after.modules[name] == before.modules[name]
            &&& after.nodes == with_document(
                before.nodes,
                file.elements,
                file.info.name,
                file.info.char_wrap,
            )
            &&& after.messages == with_collision(
                before.messages,
                file.elements,
                before.nodes,
                file.info.name,
                input,
            )
        }),
{
}

/// Which round a file is read in influences nothing but the origin of its module.
pub proof fn rounds_only_influence_the_origin(
    before: StoreView,
    file: LoadedFileView,
    input: Seq<char>,
    name: Seq<char>,
)
    ensures
        ({
            let first = with_filed_module(before, file, input, true);
            let later = with_filed_module(before, file, input, false);
            &&& first.nodes == later.nodes
            &&& first.messages == later.messages
            &&& first.modules.contains_key(name) == later.modules.contains_key(name)
            &&& name != file.info.name && first.modules.contains_key(name)
                ==> first.modules[name] == later.modules[name]
            &&& !before.modules.contains_key(file.info.name) ==> first.modules[file.info.name] == (
            ModuleView { origin: OriginView::CommandLine, ..later.modules[file.info.name] })
        }),
{
}

/// Taking in a file of a new module adds a warning for each used file that has no place, behind what
/// is said of its elements, and nothing else.
pub proof fn unclear_uses_only_warn(
    before: StoreView,
    file: LoadedFileView,
    input: Seq<char>,
    first_run: bool,
    places: Seq<UsePlace>,
)
    requires
        !before.modules.contains_key(file.info.name),
    ensures
        ({
            let added = with_filed_module(before, file, input, first_run);
            let after = with_file(before, file, input, first_run, places);
            &&& after.nodes == added.nodes
            &&& after.modules == added.modules
            &&& after.messages == with_unclear_uses(
                added.messages,
                file.info.name,
                file.info.uses,
                places,
            )
        }),
{
}

/// Used files are located one by one: one that is found beside the file that uses it is read from
/// there, one with an absolute path from this path, each with every backslash turned into a slash.
/// One without a place is left out, and exactly one that is neither relative nor absolute is warned
/// about.
pub proof fn uses_are_located_one_by_one(
    messages: Seq<MessageView>,
    module: Seq<char>,
    uses: Seq<Seq<char>>,
    places: Seq<UsePlace>,
    used: Seq<char>,
    place: UsePlace,
)
    requires
        uses.len() == places.len(),
    ensures
        used_files(Seq::empty(), Seq::empty()) == Seq::<Seq<char>>::empty(),
        with_unclear_uses(messages, module, Seq::empty(), Seq::empty()) == messages,
        ({
            let before = used_files(uses, places);
            let after = used_files(uses.push(used), places.push(place));
            let found = match place {
                UsePlace::Relative(Some(path)) => Some(path@),
                UsePlace::Relative(None) => None,
                UsePlace::Absolute => Some(used),
                UsePlace::Unclear => None,
            };
            &&& found is None ==> after == before
            &&& found is Some ==> {
                &&& after.len() == before.len() + 1
                &&& after.drop_last() == before
                &&& after.last().len() == (found->0).len()
                &&& forall|i: int|
                    0 <= i < (found->0).len() && (found->0)[i] != '\\' ==> #[trigger] after.last()[i]
                        == (found->0)[i]
                &&& forall|i: int|
                    0 <= i < (found->0).len() && (found->0)[i] == '\\' ==> #[trigger] after.last()[i]
                        == '/'
            }
        }),
        ({
            let before = with_unclear_uses(messages, module, uses, places);
            let after = with_unclear_uses(messages, module, uses.push(used), places.push(place));
            &&& !(place is Unclear) ==> after == before
            &&& place is Unclear ==> after == before.push(
                MessageView {
                    diag_type: DiagType::Warning,
                    module: Some(module),
                    msg: "Could not identify used file "@ + used + " in module; ignoring it."@,
                },
            )
        }),
{
    assert(uses.push(used).drop_last() =~= uses);
    assert(places.push(place).drop_last() =~= places);
    let after = used_files(uses.push(used), places.push(place));
    let before = used_files(uses, places);
    if after.len() > before.len() {
        assert(after.drop_last() =~= before);
    }
}

/// A file of a new module has the files that it uses read after all others, in their order.
pub proof fn used_files_are_read_last(
    before: StoreView,
    queue: QueueView,
    file: LoadedFileView,
    places: Seq<UsePlace>,
)
    requires
        !before.modules.contains_key(file.info.name),
    ensures
        with_imports(before, queue, file, places).pending == queue.pending,
        with_imports(before, queue, file, places).first_run == queue.first_run,
        with_imports(before, queue, file, places).found == queue.found + used_files(
            file.info.uses,
            places,
        ),
{
}

/// The files that were asked for are read in their order, each with every backslash turned into a
/// slash.
pub proof fn asked_files_are_read_in_order(inputs: Seq<Seq<char>>)
    ensures
        all_forward_slashes(inputs).len() == inputs.len(),
        forall|i: int|
            0 <= i < inputs.len() ==> (#[trigger] all_forward_slashes(inputs)[i]).len()
                == inputs[i].len(),
        forall|i: int, j: int|
            0 <= i < inputs.len() && 0 <= j < inputs[i].len() && inputs[i][j] != '\\'
                ==> #[trigger] all_forward_slashes(inputs)[i][j] == inputs[i][j],
        forall|i: int, j: int|
            0 <= i < inputs.len() && 0 <= j < inputs[i].len() && inputs[i][j] == '\\'
                ==> #[trigger] all_forward_slashes(inputs)[i][j] == '/',
{
    assert forall|i: int| 0 <= i < inputs.len() implies (#[trigger] all_forward_slashes(
        inputs,
    )[i]).len() == inputs[i].len() by {
        slashes_are_turned(inputs[i]);
    }
}

/// The next file is the first that is left of its round, or else the first of the next round, which
/// is no first round. It is taken out, and the rest stays in its order.
pub proof fn rounds_follow_each_other(queue: QueueView)
    ensures
        queue.pending.len() > 0 ==> {
            &&& next_round(queue) == queue
            &&& taken_from(queue).pending == queue.pending.drop_first()
            &&& taken_from(queue).found == queue.found
            &&& taken_from(queue).first_run == queue.first_run
        },
        queue.pending.len() == 0 && queue.found.len() > 0 ==> {
            &&& next_round(queue).pending == queue.found
            &&& next_round(queue).found.len() == 0
            &&& !next_round(queue).first_run
            &&& taken_from(queue).pending == queue.found.drop_first()
            &&& taken_from(queue).found.len() == 0
            &&& !taken_from(queue).first_run
        },
        queue.pending.len() == 0 && queue.found.len() == 0 ==> next_round(queue) == queue,
{
}

/// What is said of a file that was not read names the file and what failed.
pub proof fn load_failures_name_the_file(input: Seq<char>)
    ensures
        load_failure_text(input, LoadFailure::Open) == "Failed to open file "@ + input,
        load_failure_text(input, LoadFailure::Parse) == "Failed to parse YAML from file "@ + input,
        load_failure_text(input, LoadFailure::Locate) == "Failed to open file "@ + input + "."@,
{
}

/// What an optional string slice says is what the slice says.
pub proof fn optional_slices_say_what_they_hold(text: Option<&str>)
    ensures
        text is Some <==> opt_str(text) is Some,
        text matches Some(t) ==> opt_str(text) == Some(t@),
{
}

} // verus!
