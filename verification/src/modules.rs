//! Taking modules in: which module a document belongs to, and adding it with its elements.

use vstd::prelude::*;
use vstd::string::*;
use crate::diagnostics::{error_message, Diagnostics, MessageView};
use crate::documents::{
    adds_elements_only, check_and_add_nodes, with_collision, with_document,
};
use crate::gsn::{
    named_module, Documents, GsnDocument, GsnDocumentView, GsnNodeView, Module, ModuleInformation,
    ModuleInformationView, ModuleView, Modules, Nodes, Origin, OriginView, MODULE_INFORMATION_NODE,
};

verus! {

/// All that has been taken in: the elements, the modules and the messages.
#[verifier::ext_equal]
pub struct StoreView {
    pub nodes: Map<Seq<char>, GsnNodeView>,
    pub modules: Map<Seq<char>, ModuleView>,
    pub messages: Seq<MessageView>,
}

/// All that has been taken in, from its parts.
pub open spec fn store(nodes: Nodes, modules: Modules, diags: Diagnostics) -> StoreView {
    StoreView { nodes: nodes@, modules: modules@, messages: diags@ }
}

/// What a document says about its module, if it does.
pub open spec fn declared_module(document: Map<Seq<char>, GsnDocumentView>) -> Option<
    ModuleInformationView,
> {
    if document.contains_key(MODULE_INFORMATION_NODE@) {
        match document[MODULE_INFORMATION_NODE@] {
            GsnDocumentView::ModuleInformation(info) => Some(info),
            GsnDocumentView::GsnNode(_) => None,
        }
    } else {
        None
    }
}

/// The module of a document: what the document says about it, or else a module that is named
/// after the file.
pub open spec fn module_of(
    document: Map<Seq<char>, GsnDocumentView>,
    file_module_name: Seq<char>,
) -> ModuleInformationView {
    match declared_module(document) {
        Some(info) => info,
        None => named_module(file_module_name),
    }
}

/// What a document holds besides the entry about its module.
pub open spec fn elements_of(document: Map<Seq<char>, GsnDocumentView>) -> Map<
    Seq<char>,
    GsnDocumentView,
> {
    document.remove(MODULE_INFORMATION_NODE@)
}

/// Takes what a document says about its module out of it.
///
/// An entry under that name which is an element is dropped.
pub fn take_module_information(n: &mut Documents) -> (info: Option<ModuleInformation>)
    ensures
        final(n)@ == elements_of(old(n)@),
        match info {
            Some(info) => declared_module(old(n)@) == Some(info@),
            None => declared_module(old(n)@) is None,
        },
{
    match n.remove(MODULE_INFORMATION_NODE) {
        Some(GsnDocument::ModuleInformation(info)) => Some(info),
        _ => None,
    }
}

/// What is taken in after a module and its elements were added.
pub open spec fn with_module(
    before: StoreView,
    elements: Map<Seq<char>, GsnDocumentView>,
    module: ModuleView,
) -> StoreView {
    StoreView {
        nodes: with_document(before.nodes, elements, module.meta.name, module.meta.char_wrap),
        modules: before.modules.insert(module.meta.name, module),
        messages: with_collision(
            before.messages,
            elements,
            before.nodes,
            module.meta.name,
            module.orig_file_name,
        ),
    }
}

/// Adds a module and its elements.
pub fn add_module(
    module: Module,
    elements: Documents,
    nodes: &mut Nodes,
    modules: &mut Modules,
    diags: &mut Diagnostics,
)
    requires
        adds_elements_only(elements@, old(nodes)@),
    ensures
        store(*final(nodes), *final(modules), *final(diags)) == with_module(
            store(*old(nodes), *old(modules), *old(diags)),
            elements@,
            module@,
        ),
{
    let name = module.meta.name.clone();
    let file_name = module.orig_file_name.clone();
    let char_wrap = module.meta.char_wrap;
    modules.insert(name.clone(), module);
    check_and_add_nodes(elements, nodes, &name, diags, &file_name, char_wrap);
}

/// A module whose document did not come from a file.
pub open spec fn unfiled_module(info: ModuleInformationView, filename: Seq<char>) -> ModuleView {
    ModuleView {
        orig_file_name: filename,
        meta: info,
        origin: OriginView::CommandLine,
        canonical_path: None,
        output_path: None,
    }
}

/// The complaint about a document whose module was read before.
pub open spec fn duplicate_document_text(filename: Seq<char>, present_in: Seq<char>) -> Seq<char> {
    "C06: Module "@ + filename + " was already present in "@ + present_in + "."@
}

/// What is taken in after a document that did not come from a file: its module and elements, or a
/// complaint if there is a module of that name.
pub open spec fn with_unfiled_document(
    before: StoreView,
    elements: Map<Seq<char>, GsnDocumentView>,
    info: ModuleInformationView,
    filename: Seq<char>,
) -> StoreView {
    if before.modules.contains_key(info.name) {
        StoreView {
            messages: before.messages.push(
                error_message(
                    Some(info.name),
                    duplicate_document_text(filename, before.modules[info.name].orig_file_name),
                ),
            ),
            ..before
        }
    } else {
        with_module(before, elements, unfiled_module(info, filename))
    }
}

/// Whether a document can be added: its module is there already, or all that would be added is an
/// element.
pub open spec fn can_be_added(
    before: StoreView,
    elements: Map<Seq<char>, GsnDocumentView>,
    module: Seq<char>,
) -> bool {
    before.modules.contains_key(module) || adds_elements_only(elements, before.nodes)
}

/// Takes in a document that did not come from a file.
pub fn add_unfiled_document(
    info: ModuleInformation,
    elements: Documents,
    filename: &str,
    nodes: &mut Nodes,
    modules: &mut Modules,
    diags: &mut Diagnostics,
)
    requires
        can_be_added(store(*old(nodes), *old(modules), *old(diags)), elements@, info@.name),
    ensures
        store(*final(nodes), *final(modules), *final(diags)) == with_unfiled_document(
            store(*old(nodes), *old(modules), *old(diags)),
            elements@,
            info@,
            filename@,
        ),
{
    match modules.get(info.name.as_str()) {
        Some(present) => {
            let mut text = "C06: Module ".to_owned();
            text.append(filename);
            text.append(" was already present in ");
            text.append(present.orig_file_name.as_str());
            text.append(".");
            diags.add_error(Some(info.name.as_str()), text);
        },
        None => {
            let module = Module {
                orig_file_name: filename.to_owned(),
                meta: info,
                origin: Origin::CommandLine,
                canonical_path: None,
                output_path: None,
            };
            add_module(module, elements, nodes, modules, diags);
        },
    }
}

} // verus!
