//! Reading files: which one to read next, and what a file that was read adds.

use vstd::prelude::*;
use vstd::string::*;
use crate::checks::ValidationOrCheckError;
use crate::diagnostics::{error_message, opt_text, Diagnostics, MessageView};
use crate::documents::{adds_elements_only, elements_only};
use crate::engine::Engine;
use crate::gsn::{
    find_module_by_path, origin_text, path_is_known, Documents, GsnDocumentView, Module,
    ModuleInformation, ModuleInformationView, ModuleView, Modules, Nodes, Origin, OriginView,
};
use crate::modules::{
    add_module, elements_of, module_of, store, take_module_information, with_module, StoreView,
};
use crate::process::{module_information_of, names_module};
use crate::text::{replace_char, texts};
use crate::uses::{
    are_places_of, forward_slashes, locate_uses, located_uses_are_not_warned_about, resolve_uses,
    used_files, with_unclear_uses, UsePlace,
};

verus! {

/// The files that are still to be read.
///
/// Files are read in rounds: first those that were asked for, then those that they use, and so on.
#[derive(Debug)]
pub struct InputQueue {
    pending: Vec<String>,
    found: Vec<String>,
    first_run: bool,
}

/// The files that are still to be read: in this round, in the next one, and whether this is the
/// first round.
#[verifier::ext_equal]
pub struct QueueView {
    pub pending: Seq<Seq<char>>,
    pub found: Seq<Seq<char>>,
    pub first_run: bool,
}

impl View for InputQueue {
    type V = QueueView;

    closed spec fn view(&self) -> QueueView {
        QueueView {
            pending: texts(self.pending@),
            found: texts(self.found@),
            first_run: self.first_run,
        }
    }
}

/// The files of a list, each with `/` as separator.
pub open spec fn all_forward_slashes(inputs: Seq<Seq<char>>) -> Seq<Seq<char>> {
    inputs.map_values(|input: Seq<char>| forward_slashes(input))
}

/// The queue once a finished round has given way to the next one.
pub open spec fn next_round(queue: QueueView) -> QueueView {
    if queue.pending.len() == 0 && queue.found.len() > 0 {
        QueueView { pending: queue.found, found: Seq::empty(), first_run: false }
    } else {
        queue
    }
}

/// The queue once the file that comes next has been taken from it.
pub open spec fn taken_from(queue: QueueView) -> QueueView {
    let round = next_round(queue);
    QueueView { pending: round.pending.drop_first(), ..round }
}

impl InputQueue {
    /// A queue of files that were asked for.
    pub fn new(inputs: &Vec<String>) -> (queue: InputQueue)
        ensures
            queue@ == (QueueView {
                pending: all_forward_slashes(texts(inputs@)),
                found: Seq::empty(),
                first_run: true,
            }),
    {
        let mut pending: Vec<String> = Vec::new();
        for i in 0..inputs.len()
            invariant
                texts(pending@) == all_forward_slashes(texts(inputs@).take(i as int)),
        {
            let ghost before = pending@;
            pending.push(replace_char(inputs[i].as_str(), '\\', '/'));
            proof {
                assert(texts(pending@) == texts(before).push(forward_slashes(inputs@[i as int]@)));
                assert(texts(inputs@).take(i + 1) == texts(inputs@).take(i as int).push(
                    inputs@[i as int]@,
                ));
                assert(texts(pending@) =~= all_forward_slashes(texts(inputs@).take(i + 1)));
            }
        }
        assert(texts(inputs@).take(inputs@.len() as int) == texts(inputs@));
        let queue = InputQueue { pending, found: Vec::new(), first_run: true };
        assert(queue@.found =~= Seq::<Seq<char>>::empty());
        queue
    }

    /// The file to read next; none when all have been read.
    pub fn next_input(&mut self) -> (input: Option<String>)
        ensures
            match input {
                Some(input) => {
                    let round = next_round(old(self)@);
                    &&& round.pending.len() > 0
                    &&& input@ == round.pending[0]
                    &&& final(self)@ == taken_from(old(self)@)
                },
                None => {
                    &&& old(self)@.pending.len() == 0
                    &&& old(self)@.found.len() == 0
                    &&& final(self)@ == old(self)@
                },
            },
    {
        if self.pending.len() == 0 {
            if self.found.len() == 0 {
                return None;
            }
            std::mem::swap(&mut self.pending, &mut self.found);
            self.first_run = false;
            assert(self@ =~= next_round(old(self)@));
        }
        let ghost before = self.pending@;
        let input = self.pending.remove(0);
        assert(texts(self.pending@) =~= texts(before).drop_first());
        Some(input)
    }

    /// Whether the files of the first round are being read.
    pub fn is_first_run(&self) -> (first_run: bool)
        ensures
            first_run == self@.first_run,
    {
        self.first_run
    }

    /// Notes files for the next round.
    pub fn note_imports(&mut self, files: Vec<String>)
        ensures
            final(self)@ == (QueueView { found: old(self)@.found + texts(files@), ..old(self)@ }),
    {
        let mut files = files;
        let ghost found = self.found@;
        let ghost more = files@;
        self.found.append(&mut files);
        assert(texts(self.found@) =~= texts(found) + texts(more));
    }
}

/// A file that was read.
#[derive(Debug)]
pub struct LoadedFile {
    /// The module that it belongs to.
    pub info: ModuleInformation,
    /// What it holds besides.
    pub elements: Documents,
    /// Where the file is, however it was named.
    pub canonical_path: String,
    /// Where the rendered module goes.
    pub output_path: Option<String>,
}

/// A file that was read, as a value of specifications.
#[verifier::ext_equal]
pub struct LoadedFileView {
    pub info: ModuleInformationView,
    pub elements: Map<Seq<char>, GsnDocumentView>,
    pub canonical_path: Seq<char>,
    pub output_path: Option<Seq<char>>,
}

impl View for LoadedFile {
    type V = LoadedFileView;

    open spec fn view(&self) -> LoadedFileView {
        LoadedFileView {
            info: self.info@,
            elements: self.elements@,
            canonical_path: self.canonical_path@,
            output_path: opt_text(self.output_path),
        }
    }
}

impl LoadedFile {
    /// A file that was read, from what it holds, the module name that goes with the name of the
    /// file, where it is and where the rendered module goes.
    pub fn new(
        documents: Documents,
        module_name: String,
        canonical_path: String,
        output_path: Option<String>,
    ) -> (file: LoadedFile)
        ensures
            file@ == (LoadedFileView {
                info: module_of(documents@, module_name@),
                elements: elements_of(documents@),
                canonical_path: canonical_path@,
                output_path: opt_text(output_path),
            }),
    {
        let mut elements = documents;
        let info = match take_module_information(&mut elements) {
            Some(info) => info,
            None => ModuleInformation::new(module_name),
        };
        LoadedFile { info, elements, canonical_path, output_path }
    }

    /// A file that was read under a name, from what it holds, where it is and where the rendered
    /// module goes. Where it does not say which module it belongs to, the escaped name of the file
    /// stands for the module.
    pub fn of_input<E: Engine>(
        engine: &E,
        documents: Documents,
        input: &str,
        canonical_path: String,
        output_path: Option<String>,
    ) -> (file: LoadedFile)
        ensures
            exists|name: String| #[trigger]
                names_module(engine, documents, input, name) && file@ == (LoadedFileView {
                    info: module_of(documents@, name@),
                    elements: elements_of(documents@),
                    canonical_path: canonical_path@,
                    output_path: opt_text(output_path),
                }),
    {
        let mut elements = documents;
        let info = module_information_of(engine, &mut elements, input);
        LoadedFile { info, elements, canonical_path, output_path }
    }
}

/// The module of a file that was read.
pub open spec fn filed_module(
    file: LoadedFileView,
    input: Seq<char>,
    first_run: bool,
) -> ModuleView {
    ModuleView {
        orig_file_name: input,
        meta: file.info,
        origin: if first_run {
            OriginView::CommandLine
        } else {
            OriginView::File(input)
        },
        canonical_path: Some(file.canonical_path),
        output_path: file.output_path,
    }
}

/// Whether the module of a file is there already.
pub open spec fn is_duplicate(before: StoreView, file: LoadedFileView) -> bool {
    before.modules.contains_key(file.info.name)
}

/// Whether a file can be accepted: its module is there already, or it is a file that was not read
/// before and all that it would add is an element.
pub open spec fn can_be_accepted(before: StoreView, file: LoadedFileView) -> bool {
    is_duplicate(before, file) || {
        &&& !path_is_known(before.modules, file.canonical_path)
        &&& adds_elements_only(file.elements, before.nodes)
    }
}

/// Whether a file can be accepted.
pub fn is_acceptable(file: &LoadedFile, nodes: &Nodes, modules: &Modules) -> (acceptable: bool)
    ensures
        forall|messages: Seq<MessageView>|
            acceptable == #[trigger] can_be_accepted(
                StoreView { nodes: nodes@, modules: modules@, messages },
                file@,
            ),
{
    modules.contains_key(file.info.name.as_str()) || (!find_module_by_path(
        modules,
        file.canonical_path.as_str(),
    ) && elements_only(&file.elements, nodes))
}

/// The complaint about a file whose module was read before.
pub open spec fn duplicate_file_text(input: Seq<char>, present: ModuleView) -> Seq<char> {
    "C06: Module in "@ + input + " was already present in "@ + present.orig_file_name
        + " provided by "@ + origin_text(present.origin) + "."@
}

/// What is taken in after a file was read, but for the files that it uses: its module and elements,
/// or a complaint if there is a module of that name.
pub open spec fn with_filed_module(
    before: StoreView,
    file: LoadedFileView,
    input: Seq<char>,
    first_run: bool,
) -> StoreView {
    if is_duplicate(before, file) {
        StoreView {
            messages: before.messages.push(
                error_message(
                    Some(file.info.name),
                    duplicate_file_text(input, before.modules[file.info.name]),
                ),
            ),
            ..before
        }
    } else {
        with_module(before, file.elements, filed_module(file, input, first_run))
    }
}

/// What is taken in after a file was read: its module and elements, with a warning for each used
/// file that has no place; or a complaint if there is a module of that name.
pub open spec fn with_file(
    before: StoreView,
    file: LoadedFileView,
    input: Seq<char>,
    first_run: bool,
    places: Seq<UsePlace>,
) -> StoreView {
    let added = with_filed_module(before, file, input, first_run);
    if is_duplicate(before, file) {
        added
    } else {
        StoreView {
            messages: with_unclear_uses(
                added.messages,
                file.info.name,
                file.info.uses,
                places,
            ),
            ..added
        }
    }
}

/// There is no warning about a file whose used files are where they are to be found.
pub proof fn located_files_are_not_warned_about(
    before: StoreView,
    file: LoadedFileView,
    input: Seq<char>,
    first_run: bool,
    places: Seq<UsePlace>,
)
    requires
        are_places_of(input, file.info.uses, places),
    ensures
        with_file(before, file, input, first_run, places) == with_filed_module(
            before,
            file,
            input,
            first_run,
        ),
{
    let added = with_filed_module(before, file, input, first_run);
    located_uses_are_not_warned_about(
        added.messages,
        file.info.name,
        input,
        file.info.uses,
        places,
    );
}

/// The queue after a file was read: the files that it uses are read in the next round.
pub open spec fn with_imports(
    before: StoreView,
    queue: QueueView,
    file: LoadedFileView,
    places: Seq<UsePlace>,
) -> QueueView {
    if is_duplicate(before, file) {
        queue
    } else {
        QueueView { found: queue.found + used_files(file.info.uses, places), ..queue }
    }
}

impl InputQueue {
    /// Takes in a file that was read, given where the files that it uses are to be found.
    pub fn accept_with(
        &mut self,
        input: &String,
        file: LoadedFile,
        places: &Vec<UsePlace>,
        nodes: &mut Nodes,
        modules: &mut Modules,
        diags: &mut Diagnostics,
    ) -> (result: Result<(), ValidationOrCheckError>)
        requires
            can_be_accepted(store(*old(nodes), *old(modules), *old(diags)), file@),
            places@.len() == file@.info.uses.len(),
        ensures
            result is Err <==> is_duplicate(store(*old(nodes), *old(modules), *old(diags)), file@),
            result is Err <==> old(modules)@.contains_key(file@.info.name),
            !old(modules)@.contains_key(file@.info.name) ==> {
                let module = final(modules)@[file@.info.name];
                &&& final(modules)@.contains_key(file@.info.name)
                &&& module.meta == file@.info
                &&& module.orig_file_name == input@
                &&& module.canonical_path == Some(file@.canonical_path)
                &&& module.output_path == file@.output_path
                &&& old(self)@.first_run ==> module.origin == OriginView::CommandLine
                &&& !old(self)@.first_run ==> module.origin == OriginView::File(input@)
            },
            store(*final(nodes), *final(modules), *final(diags)) == with_file(
                store(*old(nodes), *old(modules), *old(diags)),
                file@,
                input@,
                old(self)@.first_run,
                places@,
            ),
            final(self)@ == with_imports(
                store(*old(nodes), *old(modules), *old(diags)),
                old(self)@,
                file@,
                places@,
            ),
    {
        let info = file.info.copy();
        if let Some(present) = modules.get(info.name.as_str()) {
            let mut text = "C06: Module in ".to_owned();
            text.append(input.as_str());
            text.append(" was already present in ");
            text.append(present.orig_file_name.as_str());
            text.append(" provided by ");
            let origin = present.origin.text();
            text.append(origin.as_str());
            text.append(".");
            diags.add_error(Some(info.name.as_str()), text);
            return Err(ValidationOrCheckError {  });
        }
        let module = Module {
            orig_file_name: input.clone(),
            meta: file.info,
            origin: if self.first_run {
                Origin::CommandLine
            } else {
                Origin::File(input.clone())
            },
            canonical_path: Some(file.canonical_path),
            output_path: file.output_path,
        };
        add_module(module, file.elements, nodes, modules, diags);
        let files = resolve_uses(&info, places, diags);
        self.note_imports(files);
        Ok(())
    }

    /// Takes in a file that was read.
    ///
    /// Where the files that it uses are to be found is up to the operating system;
    /// [`InputQueue::accept_with`] says what follows from that. Every path is relative or absolute,
    /// so there is never a warning about one.
    pub fn accept(
        &mut self,
        input: &String,
        file: LoadedFile,
        nodes: &mut Nodes,
        modules: &mut Modules,
        diags: &mut Diagnostics,
    ) -> (result: Result<(), ValidationOrCheckError>)
        requires
            can_be_accepted(store(*old(nodes), *old(modules), *old(diags)), file@),
        ensures
            result is Err <==> is_duplicate(store(*old(nodes), *old(modules), *old(diags)), file@),
            result is Err <==> old(modules)@.contains_key(file@.info.name),
            !old(modules)@.contains_key(file@.info.name) ==> {
                let module = final(modules)@[file@.info.name];
                &&& final(modules)@.contains_key(file@.info.name)
                &&& module.meta == file@.info
                &&& module.orig_file_name == input@
                &&& module.canonical_path == Some(file@.canonical_path)
                &&& module.output_path == file@.output_path
                &&& old(self)@.first_run ==> module.origin == OriginView::CommandLine
                &&& !old(self)@.first_run ==> module.origin == OriginView::File(input@)
            },
            store(*final(nodes), *final(modules), *final(diags)) == with_filed_module(
                store(*old(nodes), *old(modules), *old(diags)),
                file@,
                input@,
                old(self)@.first_run,
            ),
            exists|places: Seq<UsePlace>| #[trigger]
                are_places_of(input@, file@.info.uses, places) && final(self)@ == with_imports(
                    store(*old(nodes), *old(modules), *old(diags)),
                    old(self)@,
                    file@,
                    places,
                ),
    {
        let places = locate_uses(&file.info, input);
        proof {
            located_files_are_not_warned_about(
                store(*nodes, *modules, *diags),
                file@,
                input@,
                self@.first_run,
                places@,
            );
        }
        self.accept_with(input, file, &places, nodes, modules, diags)
    }
}

/// What can keep a file from being read.
#[derive(Clone, Copy, Debug, PartialEq, Eq, Structural)]
pub enum LoadFailure {
    /// It cannot be opened.
    Open,
    /// Its contents are not a document.
    Parse,
    /// It cannot be said where it is.
    Locate,
}

/// What is said of a file that was not read.
pub open spec fn load_failure_text(input: Seq<char>, failure: LoadFailure) -> Seq<char> {
    match failure {
        LoadFailure::Open => "Failed to open file "@ + input,
        LoadFailure::Parse => "Failed to parse YAML from file "@ + input,
        LoadFailure::Locate => "Failed to open file "@ + input + "."@,
    }
}

/// What is said of a file that was not read.
pub fn describe_load_failure(input: &str, failure: LoadFailure) -> (text: String)
    ensures
        text@ == load_failure_text(input@, failure),
{
    let mut text = match failure {
        LoadFailure::Open => "Failed to open file ".to_owned(),
        LoadFailure::Parse => "Failed to parse YAML from file ".to_owned(),
        LoadFailure::Locate => "Failed to open file ".to_owned(),
    };
    text.append(input);
    if let LoadFailure::Locate = failure {
        text.append(".");
    }
    text
}

} // verus!
