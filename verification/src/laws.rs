//! What holds of the library as a whole.

use vstd::prelude::*;
use vstd::seq_lib::*;
use vstd::utf8::*;
use crate::checks::{
    came_out, check_count, empty_modules, is_empty_module, is_run, validated, CheckPlan,
};
use crate::completion::{unknown_module, with_stand_ins};
use crate::diagnostics::{count_of, error_message, DiagType, MessageView};
use crate::documents::{
    duplicate_element_text, first_collision, first_collision_is_unique, is_added, no_collision,
    prepared_node, with_collision, with_document,
};
use crate::engine::{CheckState, Engine};
use crate::gsn::{
    named_module, node_type_of, path_is_known, GsnDocumentView, GsnNodeView, ModuleInformationView,
    ModuleView, Nodes, UNKNOWN_MODULE,
};
use crate::inputs::{
    can_be_accepted, filed_module, is_duplicate, with_file, with_imports,
    LoadedFileView, QueueView,
};
use crate::modules::{
    can_be_added, declared_module, module_of, unfiled_module, with_module, with_unfiled_document,
    StoreView,
};
use crate::order::{not_after, not_after_is_total, sorted_texts, text_before, text_before_total};
use crate::outputs::{copy_outcome, direct_name, known_modules, output_tasks, OutputTaskView};
use crate::process::{nothing, process_result, taken_in, type_check, untyped, ProcessTrace};
use crate::render::RenderOptionsView;
use crate::text_map::{lemma_entry, lemma_place};
use crate::uses::{used_files, with_unclear_uses, UsePlace};

verus! {

// ---- elements ----

/// The kind of an element is known from its name exactly if the name starts with `G`, `S`, `C`,
/// `A` or `J`.
pub proof fn kinds_by_first_letter(name: Seq<char>)
    ensures
        node_type_of(name) is Some <==> name.len() > 0 && (name[0] == 'G' || name[0] == 'S'
            || name[0] == 'C' || name[0] == 'A' || name[0] == 'J'),
{
    reveal_strlit("CSn");
    reveal_strlit("CG");
    reveal_strlit("Sn");
    reveal_strlit("G");
    reveal_strlit("S");
    reveal_strlit("C");
    reveal_strlit("A");
    reveal_strlit("J");
    if name.len() > 0 {
        let first = name.subrange(0, 1);
        assert(first[0] == name[0]);
        assert("G"@ =~= first <==> name[0] == 'G');
        assert("S"@ =~= first <==> name[0] == 'S');
        assert("C"@ =~= first <==> name[0] == 'C');
        assert("A"@ =~= first <==> name[0] == 'A');
        assert("J"@ =~= first <==> name[0] == 'J');
        if "CSn"@.is_prefix_of(name) {
            assert(name[0] == "CSn"@[0]);
        }
        if "CG"@.is_prefix_of(name) {
            assert(name[0] == "CG"@[0]);
        }
        if "Sn"@.is_prefix_of(name) {
            assert(name[0] == "Sn"@[0]);
        }
    }
}

/// Sorting the elements that an element refers to loses none and adds none, and sorts them.
pub proof fn sorting_keeps_references(names: Seq<Seq<char>>)
    ensures
        sorted_texts(names).to_multiset() == names.to_multiset(),
        forall|i: int, j: int|
            0 <= i < j < names.len() ==> !text_before(
                #[trigger] sorted_texts(names)[j],
                #[trigger] sorted_texts(names)[i],
            ),
        sorted_texts(names).len() == names.len(),
{
    not_after_is_total();
    names.lemma_sort_by_ensures(not_after());
    let sorted = sorted_texts(names);
    assert(sorted.len() == names.len()) by {
        broadcast use group_to_multiset_ensures;

        assert(sorted.to_multiset().len() == names.to_multiset().len());
    }
    let leq = not_after();
    assert forall|i: int, j: int| 0 <= i < j < names.len() implies !text_before(
        #[trigger] sorted[j],
        #[trigger] sorted[i],
    ) by {
        assert(leq(sorted[i], sorted[j]));
    }
}

/// To prepare an element that was prepared before, under the same name and module, changes nothing.
pub proof fn preparing_twice(
    node: GsnNodeView,
    name: Seq<char>,
    module: Seq<char>,
    char_wrap: Option<u32>,
)
    ensures
        ({
            let once = prepared_node(node, name, module, char_wrap);
            prepared_node(once, name, module, char_wrap) == once
        }),
{
    not_after_is_total();
    let once = prepared_node(node, name, module, char_wrap);
    let twice = prepared_node(once, name, module, char_wrap);
    node.supported_by.lemma_sort_by_ensures(not_after());
    once.supported_by.lemma_sort_by_ensures(not_after());
    lemma_sorted_unique(twice.supported_by, once.supported_by, not_after());
    node.in_context_of.lemma_sort_by_ensures(not_after());
    once.in_context_of.lemma_sort_by_ensures(not_after());
    lemma_sorted_unique(twice.in_context_of, once.in_context_of, not_after());
}

// ---- documents ----

/// Adding a document changes no element that was there before.
pub proof fn known_elements_stay(
    nodes: Map<Seq<char>, GsnNodeView>,
    documents: Map<Seq<char>, GsnDocumentView>,
    module: Seq<char>,
    char_wrap: Option<u32>,
)
    ensures
        forall|name: Seq<char>| #[trigger]
            nodes.contains_key(name) ==> {
                &&& with_document(nodes, documents, module, char_wrap).contains_key(name)
                &&& with_document(nodes, documents, module, char_wrap)[name] == nodes[name]
            },
{
}

/// A document none of whose names is taken already is added as a whole, and without a complaint.
pub proof fn fresh_document_is_added(
    messages: Seq<MessageView>,
    nodes: Map<Seq<char>, GsnNodeView>,
    documents: Map<Seq<char>, GsnDocumentView>,
    module: Seq<char>,
    input: Seq<char>,
    char_wrap: Option<u32>,
)
    requires
        no_collision(documents, nodes),
    ensures
        with_collision(messages, documents, nodes, module, input) == messages,
        forall|name: Seq<char>| #[trigger]
            documents.contains_key(name) ==> {
                &&& with_document(nodes, documents, module, char_wrap).contains_key(name)
                &&& with_document(nodes, documents, module, char_wrap)[name] == prepared_node(
                    documents[name]->GsnNode_0,
                    name,
                    module,
                    char_wrap,
                )
            },
{
    assert forall|name: Seq<char>| #[trigger] documents.contains_key(name) implies is_added(
        documents,
        nodes,
        name,
    ) by {}
}

/// A document one of whose names is taken already is complained about exactly once, with the first
/// such name, and neither this name nor any after it is added.
pub proof fn first_collision_ends_the_document(
    messages: Seq<MessageView>,
    nodes: Map<Seq<char>, GsnNodeView>,
    documents: Map<Seq<char>, GsnDocumentView>,
    module: Seq<char>,
    input: Seq<char>,
    char_wrap: Option<u32>,
    taken: Seq<char>,
)
    requires
        first_collision(documents, nodes, taken),
    ensures
        with_collision(messages, documents, nodes, module, input) == messages.push(
            error_message(
                Some(module),
                duplicate_element_text(taken, input, nodes[taken].module),
            ),
        ),
        forall|name: Seq<char>| #[trigger]
            with_document(nodes, documents, module, char_wrap).contains_key(name)
                && !nodes.contains_key(name) ==> text_before(name, taken),
{
    let chosen = choose|name: Seq<char>| first_collision(documents, nodes, name);
    first_collision_is_unique(documents, nodes, chosen, taken);
    assert(documents.contains_key(taken) && nodes.contains_key(taken));
    assert forall|name: Seq<char>| is_added(documents, nodes, name) implies text_before(
        name,
        taken,
    ) by {
        text_before_total(name, taken);
    }
}

/// Where a document says which module it belongs to, the name of its file does not matter. Where it
/// does not, all that is known of its module is the name that goes with the file.
pub proof fn file_name_stands_in_for_the_module(
    document: Map<Seq<char>, GsnDocumentView>,
    a: Seq<char>,
    b: Seq<char>,
)
    ensures
        declared_module(document) is Some ==> module_of(document, a) == module_of(document, b),
        declared_module(document) is None ==> module_of(document, a) == named_module(a),
{
}

// ---- modules ----

/// What holds of all that has been taken in: every module stands under its name, every element
/// belongs to a module that is there, and no file was read twice.
pub open spec fn is_consistent(store: StoreView) -> bool {
    &&& forall|name: Seq<char>| #[trigger]
        store.modules.contains_key(name) ==> store.modules[name].meta.name == name
    &&& forall|name: Seq<char>| #[trigger]
        store.nodes.contains_key(name) ==> store.modules.contains_key(store.nodes[name].module)
    &&& forall|a: Seq<char>, b: Seq<char>|
        #![trigger store.modules.contains_key(a), store.modules.contains_key(b)]
        store.modules.contains_key(a) && store.modules.contains_key(b)
            && store.modules[a].canonical_path is Some && store.modules[a].canonical_path
            == store.modules[b].canonical_path ==> a == b
}

/// At the beginning all is consistent.
pub proof fn nothing_is_consistent()
    ensures
        is_consistent(nothing()),
{
}

proof fn adding_a_module_keeps_consistent(
    before: StoreView,
    elements: Map<Seq<char>, GsnDocumentView>,
    module: ModuleView,
)
    requires
        is_consistent(before),
        !before.modules.contains_key(module.meta.name),
        module.canonical_path is Some ==> !path_is_known(
            before.modules,
            module.canonical_path->0,
        ),
    ensures
        is_consistent(with_module(before, elements, module)),
{
    let after = with_module(before, elements, module);
    assert forall|a: Seq<char>, b: Seq<char>|
        #![trigger after.modules.contains_key(a), after.modules.contains_key(b)]
        after.modules.contains_key(a) && after.modules.contains_key(b)
            && after.modules[a].canonical_path is Some && after.modules[a].canonical_path
            == after.modules[b].canonical_path implies a == b by {
        if a != module.meta.name {
            assert(before.modules.contains_key(a));
        }
        if b != module.meta.name {
            assert(before.modules.contains_key(b));
        }
    }
    assert forall|name: Seq<char>| #[trigger]
        after.nodes.contains_key(name) implies after.modules.contains_key(
        after.nodes[name].module,
    ) by {
        if before.nodes.contains_key(name) {
            assert(before.modules.contains_key(before.nodes[name].module));
        }
    }
    assert forall|name: Seq<char>| #[trigger]
        after.modules.contains_key(name) implies after.modules[name].meta.name == name by {
        if name != module.meta.name {
            assert(before.modules.contains_key(name));
        }
    }
}

/// Taking in a document that did not come from a file keeps all consistent.
pub proof fn unfiled_documents_keep_consistent(
    before: StoreView,
    elements: Map<Seq<char>, GsnDocumentView>,
    info: ModuleInformationView,
    filename: Seq<char>,
)
    requires
        is_consistent(before),
    ensures
        is_consistent(taken_in(before, elements, info, filename).0),
        is_consistent(with_unfiled_document(before, elements, info, filename)),
{
    if !before.modules.contains_key(info.name) {
        adding_a_module_keeps_consistent(before, elements, unfiled_module(info, filename));
    }
}

/// Taking in a file keeps all consistent.
pub proof fn files_keep_consistent(
    before: StoreView,
    file: LoadedFileView,
    input: Seq<char>,
    first_run: bool,
    places: Seq<UsePlace>,
)
    requires
        is_consistent(before),
        can_be_accepted(before, file),
    ensures
        is_consistent(with_file(before, file, input, first_run, places)),
{
    if !is_duplicate(before, file) {
        adding_a_module_keeps_consistent(
            before,
            file.elements,
            filed_module(file, input, first_run),
        );
    }
}

/// Adding stand-ins, with their module, keeps all consistent.
pub proof fn stand_ins_keep_consistent(before: StoreView, names: Seq<Seq<char>>)
    requires
        is_consistent(before),
    ensures
        is_consistent(
            StoreView {
                nodes: with_stand_ins(before.nodes, names),
                modules: before.modules.insert(UNKNOWN_MODULE@, unknown_module()),
                messages: before.messages,
            },
        ),
{
    let after = StoreView {
        nodes: with_stand_ins(before.nodes, names),
        modules: before.modules.insert(UNKNOWN_MODULE@, unknown_module()),
        messages: before.messages,
    };
    assert forall|a: Seq<char>, b: Seq<char>|
        #![trigger after.modules.contains_key(a), after.modules.contains_key(b)]
        after.modules.contains_key(a) && after.modules.contains_key(b)
            && after.modules[a].canonical_path is Some && after.modules[a].canonical_path
            == after.modules[b].canonical_path implies a == b by {
        assert(before.modules.contains_key(a));
        assert(before.modules.contains_key(b));
    }
    assert forall|name: Seq<char>| #[trigger]
        after.nodes.contains_key(name) implies after.modules.contains_key(
        after.nodes[name].module,
    ) by {
        if before.nodes.contains_key(name) {
            assert(before.modules.contains_key(before.nodes[name].module));
        }
    }
    assert forall|name: Seq<char>| #[trigger]
        after.modules.contains_key(name) implies after.modules[name].meta.name == name by {
        if name != UNKNOWN_MODULE@ {
            assert(before.modules.contains_key(name));
        }
    }
}

/// Whether one state goes on from another: every module, element and message that was there is
/// still there, unchanged.
pub open spec fn goes_on_from(after: StoreView, before: StoreView) -> bool {
    &&& forall|name: Seq<char>| #[trigger]
        before.modules.contains_key(name) ==> after.modules.contains_key(name)
            && after.modules[name] == before.modules[name]
    &&& forall|name: Seq<char>| #[trigger]
        before.nodes.contains_key(name) ==> after.nodes.contains_key(name) && after.nodes[name]
            == before.nodes[name]
    &&& before.messages.is_prefix_of(after.messages)
}

/// What goes on from a state that goes on from another goes on from that one.
pub proof fn going_on_is_transitive(a: StoreView, b: StoreView, c: StoreView)
    requires
        goes_on_from(b, a),
        goes_on_from(c, b),
    ensures
        goes_on_from(c, a),
{
    let n = a.messages.len() as int;
    assert(c.messages.subrange(0, n) =~= c.messages.subrange(
        0,
        b.messages.len() as int,
    ).subrange(0, n));
    assert forall|name: Seq<char>| #[trigger] a.modules.contains_key(name) implies {
        &&& c.modules.contains_key(name)
        &&& c.modules[name] == a.modules[name]
    } by {
        assert(b.modules.contains_key(name));
    }
    assert forall|name: Seq<char>| #[trigger] a.nodes.contains_key(name) implies {
        &&& c.nodes.contains_key(name)
        &&& c.nodes[name] == a.nodes[name]
    } by {
        assert(b.nodes.contains_key(name));
    }
}

proof fn warnings_go_on(
    messages: Seq<MessageView>,
    module: Seq<char>,
    uses: Seq<Seq<char>>,
    places: Seq<UsePlace>,
)
    ensures
        messages.is_prefix_of(with_unclear_uses(messages, module, uses, places)),
    decreases uses.len(),
{
    if uses.len() > 0 {
        warnings_go_on(messages, module, uses.drop_last(), places.drop_last());
        let before = with_unclear_uses(messages, module, uses.drop_last(), places.drop_last());
        let after = with_unclear_uses(messages, module, uses, places);
        assert(after.subrange(0, messages.len() as int) =~= before.subrange(
            0,
            messages.len() as int,
        ));
    } else {
        assert(messages.subrange(0, messages.len() as int) =~= messages);
    }
}

/// Taking in a document that did not come from a file only adds to what is there.
pub proof fn unfiled_documents_only_add(
    before: StoreView,
    elements: Map<Seq<char>, GsnDocumentView>,
    info: ModuleInformationView,
    filename: Seq<char>,
)
    ensures
        goes_on_from(taken_in(before, elements, info, filename).0, before),
{
    let after = taken_in(before, elements, info, filename).0;
    assert(before.messages =~= after.messages.subrange(0, before.messages.len() as int));
}

/// Taking in a file only adds to what is there.
pub proof fn files_only_add(
    before: StoreView,
    file: LoadedFileView,
    input: Seq<char>,
    first_run: bool,
    places: Seq<UsePlace>,
)
    ensures
        goes_on_from(with_file(before, file, input, first_run, places), before),
{
    let after = with_file(before, file, input, first_run, places);
    let n = before.messages.len() as int;
    if is_duplicate(before, file) {
        assert(before.messages =~= after.messages.subrange(0, n));
    } else {
        let added = with_module(before, file.elements, filed_module(file, input, first_run));
        warnings_go_on(added.messages, file.info.name, file.info.uses, places);
        assert(before.messages =~= added.messages.subrange(0, n));
        assert(after.messages.subrange(0, n) =~= after.messages.subrange(
            0,
            added.messages.len() as int,
        ).subrange(0, n));
    }
}

/// A document whose module is there already adds nothing but one error.
pub proof fn duplicate_module_adds_one_error(
    before: StoreView,
    elements: Map<Seq<char>, GsnDocumentView>,
    info: ModuleInformationView,
    filename: Seq<char>,
)
    requires
        before.modules.contains_key(info.name),
    ensures
        ({
            let (after, error) = taken_in(before, elements, info, filename);
            &&& error is None
            &&& after.nodes == before.nodes
            &&& after.modules == before.modules
            &&& after.messages.len() == before.messages.len() + 1
            &&& after.messages.drop_last() == before.messages
            &&& after.messages.last().diag_type == DiagType::Error
        }),
{
    let (after, error) = taken_in(before, elements, info, filename);
    assert(after.messages.drop_last() =~= before.messages);
}

/// A module is taken in once: after a document was taken in that did not come from a file, a file
/// of the same module is refused, whatever it holds. All that it adds is one error.
pub proof fn module_is_taken_in_once(
    before: StoreView,
    elements: Map<Seq<char>, GsnDocumentView>,
    info: ModuleInformationView,
    filename: Seq<char>,
    again: LoadedFileView,
    input: Seq<char>,
    first_run: bool,
    places: Seq<UsePlace>,
)
    requires
        can_be_added(before, elements, info.name),
        again.info.name == info.name,
    ensures
        ({
            let once = taken_in(before, elements, info, filename).0;
            let twice = with_file(once, again, input, first_run, places);
            &&& is_duplicate(once, again)
            &&& twice.nodes == once.nodes
            &&& twice.modules == once.modules
            &&& count_of(twice.messages, DiagType::Error) == count_of(
                once.messages,
                DiagType::Error,
            ) + 1
        }),
{
    let once = taken_in(before, elements, info, filename).0;
    let twice = with_file(once, again, input, first_run, places);
    reveal(Seq::filter);
    assert(twice.messages.drop_last() =~= once.messages);
}

/// A file is taken in once: after a file was taken in, another one of the same module is refused,
/// whatever it holds and whichever round it is read in. All that it adds is one error, and no file
/// that it uses is read.
pub proof fn file_is_taken_in_once(
    before: StoreView,
    file: LoadedFileView,
    input: Seq<char>,
    first_run: bool,
    places: Seq<UsePlace>,
    queue: QueueView,
    again: LoadedFileView,
    next_input: Seq<char>,
    next_places: Seq<UsePlace>,
)
    requires
        can_be_accepted(before, file),
        again.info.name == file.info.name,
    ensures
        ({
            let once = with_file(before, file, input, first_run, places);
            let twice = with_file(once, again, next_input, queue.first_run, next_places);
            &&& can_be_accepted(once, again)
            &&& is_duplicate(once, again)
            &&& twice.nodes == once.nodes
            &&& twice.modules == once.modules
            &&& count_of(twice.messages, DiagType::Error) == count_of(
                once.messages,
                DiagType::Error,
            ) + 1
            &&& with_imports(once, queue, again, next_places) == queue
        }),
{
    let once = with_file(before, file, input, first_run, places);
    let twice = with_file(once, again, next_input, queue.first_run, next_places);
    reveal(Seq::filter);
    assert(twice.messages.drop_last() =~= once.messages);
}

/// A document that is taken in by itself is not complained about: neither its module nor any of its
/// names can be taken already. All of its elements belong to its module.
pub proof fn single_document_is_not_complained_about(
    elements: Map<Seq<char>, GsnDocumentView>,
    info: ModuleInformationView,
    filename: Seq<char>,
)
    requires
        can_be_added(nothing(), elements, info.name),
    ensures
        ({
            let (after, error) = taken_in(nothing(), elements, info, filename);
            &&& error is None
            &&& after.messages == Seq::<MessageView>::empty()
            &&& after.nodes.dom() == elements.dom()
            &&& forall|name: Seq<char>| #[trigger]
                after.nodes.contains_key(name) ==> after.nodes[name].module == info.name
        }),
{
    let (after, error) = taken_in(nothing(), elements, info, filename);
    assert(no_collision(elements, nothing().nodes));
    assert forall|name: Seq<char>| elements.contains_key(name) implies is_added(
        elements,
        nothing().nodes,
        name,
    ) by {}
    assert(after.nodes.dom() =~= elements.dom());
}

// ---- reading ----

/// No path of a file that is used holds a backslash.
pub proof fn used_files_have_no_backslash(uses: Seq<Seq<char>>, places: Seq<UsePlace>)
    requires
        places.len() == uses.len(),
    ensures
        forall|i: int|
            0 <= i < used_files(uses, places).len() ==> !(#[trigger] used_files(
                uses,
                places,
            )[i]).contains('\\'),
        used_files(uses, places).len() <= uses.len(),
    decreases uses.len(),
{
    if uses.len() > 0 {
        used_files_have_no_backslash(uses.drop_last(), places.drop_last());
        let before = used_files(uses.drop_last(), places.drop_last());
        let files = used_files(uses, places);
        assert forall|i: int| 0 <= i < files.len() implies !(#[trigger] files[i]).contains(
            '\\',
        ) by {
            if i < before.len() {
                assert(files[i] == before[i]);
            }
        }
    }
}

// ---- checks ----

/// Checks only pass if there is an element, no module is without elements, and every check was made
/// and passed.
pub proof fn passing_means_all_checks<E: Engine>(
    engine: &E,
    plan: CheckPlan,
    before: CheckState,
    after: CheckState,
)
    requires
        validated(engine, plan, before, after, true),
    ensures
        before.nodes@ != Map::<Seq<char>, GsnNodeView>::empty(),
        forall|i: int|
            0 <= i < plan.modules.keys().len() ==> !is_empty_module(
                before.nodes@,
                #[trigger] plan.modules.keys()[i],
            ),
        exists|states: Seq<CheckState>|
            {
                &&& #[trigger] is_run(engine, plan, states, true)
                &&& states.len() == check_count(plan) + 1
                &&& states[0] == before
                &&& states.last() == after
                &&& forall|check: int|
                    0 <= check < check_count(plan) ==> came_out(
                        engine,
                        plan,
                        check,
                        #[trigger] states[check],
                        states[check + 1],
                        true,
                    )
            },
{
    let keys = plan.modules.keys();
    let empty = empty_modules(before.nodes@, keys);
    let is_empty = |module: Seq<char>| is_empty_module(before.nodes@, module);
    assert forall|i: int| 0 <= i < keys.len() implies !is_empty_module(
        before.nodes@,
        #[trigger] keys[i],
    ) by {
        if is_empty(keys[i]) {
            keys.lemma_filter_contains(is_empty, i);
            assert(empty == keys.filter(is_empty));
        }
    }
    let states = choose|states: Seq<CheckState>| #[trigger]
        is_run(engine, plan, states, true) && states[0] == before && states.last() == after;
    assert(is_run(engine, plan, states, true));
}

// ---- processing ----

/// A rendering is only returned if the document was taken in and passed, the kind of every element
/// is known, and what was rendered is text. It is then that text.
pub proof fn success_means_no_step_failed(trace: ProcessTrace)
    ensures
        process_result(trace) is Ok <==> {
            &&& trace.error is None
            &&& trace.passed
            &&& type_check(trace.checked.nodes) is None
            &&& trace.rendered is Ok
            &&& valid_utf8(trace.rendered->Ok_0@)
        },
        process_result(trace) is Ok ==> process_result(trace) == Ok::<Seq<char>, Seq<char>>(
            decode_utf8(trace.rendered->Ok_0@),
        ),
{
}

/// The kinds of elements are complained about exactly if one of them is not known.
pub proof fn type_check_finds_untyped(nodes: Nodes)
    requires
        nodes.well_formed(),
    ensures
        type_check(nodes) is Some <==> exists|name: Seq<char>| #[trigger]
            nodes@.contains_key(name) && nodes@[name].node_type is None,
{
    let keys = nodes.keys();
    let is_untyped = |name: Seq<char>| nodes@[name].node_type is None;
    let found = untyped(nodes@, keys);
    assert(found == keys.filter(is_untyped));
    if type_check(nodes) is Some {
        keys.lemma_filter_pred(is_untyped, 0);
        keys.lemma_filter_contains_rev(is_untyped, found[0]);
        let i = keys.index_of(found[0]);
        lemma_entry(nodes, i);
        assert(nodes@.contains_key(found[0]));
    }
    if exists|name: Seq<char>| #[trigger]
        nodes@.contains_key(name) && nodes@[name].node_type is None {
        let name = choose|name: Seq<char>| #[trigger]
            nodes@.contains_key(name) && nodes@[name].node_type is None;
        let i = lemma_place(nodes, name);
        keys.lemma_filter_contains(is_untyped, i);
    }
}

// ---- output ----

/// The module of the stand-ins is not rendered, and every other module is rendered once, in order,
/// unless arguments are skipped.
pub proof fn every_known_module_is_rendered(
    modules: Map<Seq<char>, ModuleView>,
    names: Seq<Seq<char>>,
    options: RenderOptionsView,
)
    requires
        !options.skip_argument,
    ensures
        ({
            let known = known_modules(names);
            let tasks = output_tasks(modules, names, options);
            &&& !known.contains(UNKNOWN_MODULE@)
            &&& known.len() <= tasks.len()
            &&& forall|i: int|
                0 <= i < known.len() ==> #[trigger] tasks[i] == (OutputTaskView::Argument {
                    module: modules[known[i]].meta.name,
                    path: modules[known[i]].output_path,
                })
            &&& forall|i: int|
                known.len() <= i < tasks.len() ==> !(#[trigger] tasks[i] is Argument)
        }),
{
    let is_known = |name: Seq<char>| name != UNKNOWN_MODULE@;
    let known = known_modules(names);
    assert(known == names.filter(is_known));
    if known.contains(UNKNOWN_MODULE@) {
        let i = known.index_of(UNKNOWN_MODULE@);
        names.lemma_filter_pred(is_known, i);
    }
}

/// With at most one module there are no overviews over modules, whatever is asked for.
pub proof fn one_module_has_no_overview(
    modules: Map<Seq<char>, ModuleView>,
    names: Seq<Seq<char>>,
    options: RenderOptionsView,
)
    requires
        known_modules(names).len() <= 1,
    ensures
        forall|i: int|
            0 <= i < output_tasks(modules, names, options).len() ==> {
                let task = #[trigger] output_tasks(modules, names, options)[i];
                task is Argument || task is Evidence
            },
{
}

/// To prepare a stylesheet again changes nothing: one that is where its copy goes is not copied onto
/// itself and is referred to by that place, and one that is embedded keeps its name.
pub proof fn preparing_stylesheets_again(stylesheet: Seq<char>, path: Seq<char>)
    ensures
        copy_outcome(stylesheet, path, Some(path)) == Ok::<(Seq<char>, bool), Seq<char>>(
            (path, false),
        ),
        direct_name(stylesheet, false, true) == Some(stylesheet),
{
}

} // verus!
