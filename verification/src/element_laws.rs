//! What holds of elements: their kinds, how they are kept, and what stands in for missing ones.

use vstd::prelude::*;
use crate::completion::{
    contained_in_either, refers_to, undefined, undefined_references, undefined_references_member,
    unknown_module, with_stand_ins,
};
use crate::diagnostics::{DiagType, MessageView};
use crate::documents::{
    adds_elements_only, first_collision, first_collision_is_unique, is_added, no_collision,
    prepared_node, with_collision, with_document,
};
use crate::gsn::{
    empty_node, fixed_node_type, named_module, node_type_of, unknown_node, GsnDocument,
    GsnDocumentView, GsnNode, GsnNodeType, GsnNodeView, ModuleInformation, ModuleView, Nodes,
    OriginView,
};
use crate::order::text_before;
use crate::text_map::{lemma_entry, lemma_place};
use crate::word_laws::sorting_orders;

verus! {

// ---- kinds ----

/// Whether a kind is the one that the letters at the beginning of a name give away.
pub open spec fn is_kind_by_letters(name: Seq<char>, kind: Option<GsnNodeType>) -> bool {
    let c0 = if name.len() > 0 {
        name[0]
    } else {
        ' '
    };
    let c1 = if name.len() > 1 {
        name[1]
    } else {
        ' '
    };
    let c2 = if name.len() > 2 {
        name[2]
    } else {
        ' '
    };
    &&& kind == Some(GsnNodeType::Goal) <==> c0 == 'G'
    &&& kind == Some(GsnNodeType::Solution) <==> c0 == 'S' && c1 == 'n'
    &&& kind == Some(GsnNodeType::Strategy) <==> c0 == 'S' && c1 != 'n'
    &&& kind == Some(GsnNodeType::CounterGoal) <==> c0 == 'C' && c1 == 'G'
    &&& kind == Some(GsnNodeType::CounterSolution) <==> c0 == 'C' && c1 == 'S' && c2 == 'n'
    &&& kind == Some(GsnNodeType::Context) <==> c0 == 'C' && c1 != 'G' && !(c1 == 'S' && c2
        == 'n')
    &&& kind == Some(GsnNodeType::Assumption) <==> c0 == 'A'
    &&& kind == Some(GsnNodeType::Justification) <==> c0 == 'J'
    &&& kind is None <==> c0 != 'G' && c0 != 'S' && c0 != 'C' && c0 != 'A' && c0 != 'J'
}

proof fn prefix_by_letters(prefix: Seq<char>, name: Seq<char>)
    ensures
        prefix.is_prefix_of(name) <==> prefix.len() <= name.len() && forall|i: int|
            0 <= i < prefix.len() ==> #[trigger] prefix[i] == name[i],
{
    if prefix.len() <= name.len() && (forall|i: int|
        0 <= i < prefix.len() ==> #[trigger] prefix[i] == name[i]) {
        assert(prefix =~= name.subrange(0, prefix.len() as int));
    }
    if prefix.is_prefix_of(name) {
        assert forall|i: int| 0 <= i < prefix.len() implies #[trigger] prefix[i] == name[i] by {
            assert(prefix[i] == name.subrange(0, prefix.len() as int)[i]);
        }
    }
}

/// The kind that a name stands for is the one that its letters give away.
pub proof fn kinds_go_by_letters(name: Seq<char>)
    ensures
        is_kind_by_letters(name, node_type_of(name)),
{
    reveal_strlit("CSn");
    reveal_strlit("CG");
    reveal_strlit("Sn");
    reveal_strlit("G");
    reveal_strlit("S");
    reveal_strlit("C");
    reveal_strlit("A");
    reveal_strlit("J");
    prefix_by_letters("CSn"@, name);
    prefix_by_letters("CG"@, name);
    prefix_by_letters("Sn"@, name);
    prefix_by_letters("G"@, name);
    prefix_by_letters("S"@, name);
    prefix_by_letters("C"@, name);
    prefix_by_letters("A"@, name);
    prefix_by_letters("J"@, name);
    if "CSn"@.is_prefix_of(name) {
        assert("CSn"@[0] == name[0] && "CSn"@[1] == name[1] && "CSn"@[2] == name[2]);
    }
    if "CG"@.is_prefix_of(name) {
        assert("CG"@[0] == name[0] && "CG"@[1] == name[1]);
    }
    if "Sn"@.is_prefix_of(name) {
        assert("Sn"@[0] == name[0] && "Sn"@[1] == name[1]);
    }
    if name.len() > 0 {
        assert("G"@.is_prefix_of(name) <==> name[0] == 'G') by {
            if "G"@.is_prefix_of(name) {
                assert("G"@[0] == name[0]);
            }
        }
        assert("S"@.is_prefix_of(name) <==> name[0] == 'S') by {
            if "S"@.is_prefix_of(name) {
                assert("S"@[0] == name[0]);
            }
        }
        assert("C"@.is_prefix_of(name) <==> name[0] == 'C') by {
            if "C"@.is_prefix_of(name) {
                assert("C"@[0] == name[0]);
            }
        }
        assert("A"@.is_prefix_of(name) <==> name[0] == 'A') by {
            if "A"@.is_prefix_of(name) {
                assert("A"@[0] == name[0]);
            }
        }
        assert("J"@.is_prefix_of(name) <==> name[0] == 'J') by {
            if "J"@.is_prefix_of(name) {
                assert("J"@[0] == name[0]);
            }
        }
    }
}

/// A kind that is given stays; otherwise the letters of the name decide.
pub proof fn given_kinds_stay(given: Option<GsnNodeType>, name: Seq<char>)
    ensures
        given is Some ==> fixed_node_type(given, name) == given,
        given is None ==> is_kind_by_letters(name, fixed_node_type(given, name)),
{
    kinds_go_by_letters(name);
}

// ---- elements as they are shown ----

/// What is said of an element is what its fields hold, all of them.
pub proof fn elements_show_all_fields(node: GsnNode)
    ensures
        node@.node_type == node.node_type,
        node@.text == node.text@,
        node@.module == node.module@,
        node@.char_wrap == node.char_wrap,
        node@.additional == node.additional@,
        node@.supported_by.len() == node.supported_by@.len(),
        forall|i: int|
            0 <= i < node.supported_by@.len() ==> #[trigger] node@.supported_by[i]
                == node.supported_by@[i]@,
        node@.in_context_of.len() == node.in_context_of@.len(),
        forall|i: int|
            0 <= i < node.in_context_of@.len() ==> #[trigger] node@.in_context_of[i]
                == node.in_context_of@[i]@,
{
}

/// What is said of a module's information is what its fields hold, all of them.
pub proof fn module_information_shows_all_fields(info: ModuleInformation)
    ensures
        info@.name == info.name@,
        info@.char_wrap == info.char_wrap,
        info@.additional == info.additional@,
        info@.uses.len() == info.uses@.len(),
        forall|i: int|
            0 <= i < info.uses@.len() ==> #[trigger] info@.uses[i] == info.uses@[i]@,
        info@.stylesheets.len() == info.stylesheets@.len(),
        forall|i: int|
            0 <= i < info.stylesheets@.len() ==> #[trigger] info@.stylesheets[i]
                == info.stylesheets@[i]@,
{
}

/// An entry of a document shows the element or the module information that it is.
pub proof fn entries_show_what_they_are(entry: GsnDocument)
    ensures
        entry matches GsnDocument::GsnNode(node) ==> entry@ == GsnDocumentView::GsnNode(node@),
        entry matches GsnDocument::ModuleInformation(info) ==> entry@
            == GsnDocumentView::ModuleInformation(info@),
{
}

/// A new element, and a module of which only the name is known, say nothing else.
pub proof fn empty_ones_say_nothing(name: Seq<char>)
    ensures
        empty_node().node_type is None,
        empty_node().text.len() == 0,
        empty_node().module.len() == 0,
        empty_node().supported_by.len() == 0,
        empty_node().in_context_of.len() == 0,
        empty_node().char_wrap is None,
        empty_node().additional.len() == 0,
        named_module(name).name == name,
        named_module(name).uses.len() == 0,
        named_module(name).stylesheets.len() == 0,
        named_module(name).char_wrap is None,
        named_module(name).additional.len() == 0,
{
}

// ---- keeping ----

/// Whether an element is kept as a document gives it, under a name and for a module: its
/// references are all there, as often as they are given, and in order; its kind is the given one or
/// else that of its name; its wrapping width is its own or else that of the module; and its text
/// and all else that is said of it are unchanged.
pub open spec fn is_kept_from(
    kept: GsnNodeView,
    given: GsnNodeView,
    name: Seq<char>,
    module: Seq<char>,
    char_wrap: Option<u32>,
) -> bool {
    &&& kept.supported_by.to_multiset() == given.supported_by.to_multiset()
    &&& kept.supported_by.len() == given.supported_by.len()
    &&& forall|i: int, j: int|
        0 <= i < j < kept.supported_by.len() ==> !text_before(
            #[trigger] kept.supported_by[j],
            #[trigger] kept.supported_by[i],
        )
    &&& kept.in_context_of.to_multiset() == given.in_context_of.to_multiset()
    &&& kept.in_context_of.len() == given.in_context_of.len()
    &&& forall|i: int, j: int|
        0 <= i < j < kept.in_context_of.len() ==> !text_before(
            #[trigger] kept.in_context_of[j],
            #[trigger] kept.in_context_of[i],
        )
    &&& given.node_type is Some ==> kept.node_type == given.node_type
    &&& given.node_type is None ==> is_kind_by_letters(name, kept.node_type)
    &&& kept.text == given.text
    &&& kept.module == module
    &&& given.char_wrap is Some ==> kept.char_wrap == given.char_wrap
    &&& given.char_wrap is None ==> kept.char_wrap == char_wrap
    &&& kept.additional == given.additional
}

/// A prepared element is kept as it is given.
pub proof fn prepared_elements_are_kept(
    node: GsnNodeView,
    name: Seq<char>,
    module: Seq<char>,
    char_wrap: Option<u32>,
)
    ensures
        is_kept_from(prepared_node(node, name, module, char_wrap), node, name, module, char_wrap),
{
    sorting_orders(node.supported_by);
    sorting_orders(node.in_context_of);
    given_kinds_stay(node.node_type, name);
}

/// After a document was added, the elements are those from before, unchanged, and those of the
/// document that come before the first name of the document that was taken, each kept as the
/// document gives it.
pub proof fn documents_add_their_elements(
    nodes: Map<Seq<char>, GsnNodeView>,
    documents: Map<Seq<char>, GsnDocumentView>,
    module: Seq<char>,
    char_wrap: Option<u32>,
)
    ensures
        ({
            let after = with_document(nodes, documents, module, char_wrap);
            &&& forall|name: Seq<char>| #[trigger]
                after.contains_key(name) <==> {
                    ||| nodes.contains_key(name)
                    ||| documents.contains_key(name) && forall|other: Seq<char>| #[trigger]
                        documents.contains_key(other) && text_before(other, name)
                            ==> !nodes.contains_key(other)
                }
            &&& forall|name: Seq<char>| #[trigger]
                nodes.contains_key(name) ==> after[name] == nodes[name]
            &&& forall|name: Seq<char>| #[trigger]
                after.contains_key(name) && !nodes.contains_key(name) && documents[name] is GsnNode
                    ==> is_kept_from(
                    after[name],
                    documents[name]->GsnNode_0,
                    name,
                    module,
                    char_wrap,
                )
        }),
{
    let after = with_document(nodes, documents, module, char_wrap);
    assert forall|name: Seq<char>| #[trigger]
        after.contains_key(name) && !nodes.contains_key(name)
            && documents[name] is GsnNode implies is_kept_from(
        after[name],
        documents[name]->GsnNode_0,
        name,
        module,
        char_wrap,
    ) by {
        prepared_elements_are_kept(documents[name]->GsnNode_0, name, module, char_wrap);
    }
    assert forall|name: Seq<char>| #[trigger]
        after.contains_key(name) <==> {
            ||| nodes.contains_key(name)
            ||| documents.contains_key(name) && forall|other: Seq<char>| #[trigger]
                documents.contains_key(other) && text_before(other, name)
                    ==> !nodes.contains_key(other)
        } by {
        assert(after.contains_key(name) <==> nodes.contains_key(name) || is_added(
            documents,
            nodes,
            name,
        ));
    }
}

/// After a document that adds elements only was added, the elements from before are unchanged, and
/// every other one is in the document and kept as the document gives it.
pub proof fn added_elements_are_kept(
    nodes: Map<Seq<char>, GsnNodeView>,
    documents: Map<Seq<char>, GsnDocumentView>,
    module: Seq<char>,
    char_wrap: Option<u32>,
)
    requires
        adds_elements_only(documents, nodes),
    ensures
        ({
            let after = with_document(nodes, documents, module, char_wrap);
            &&& forall|name: Seq<char>| #[trigger]
                nodes.contains_key(name) ==> after.contains_key(name) && after[name] == nodes[name]
            &&& forall|name: Seq<char>| #[trigger]
                after.contains_key(name) && !nodes.contains_key(name) ==> {
                    &&& documents.contains_key(name)
                    &&& documents[name] is GsnNode
                    &&& is_kept_from(
                        after[name],
                        documents[name]->GsnNode_0,
                        name,
                        module,
                        char_wrap,
                    )
                }
        }),
{
    let after = with_document(nodes, documents, module, char_wrap);
    documents_add_their_elements(nodes, documents, module, char_wrap);
    assert forall|name: Seq<char>| #[trigger]
        after.contains_key(name) && !nodes.contains_key(name) implies is_added(
        documents,
        nodes,
        name,
    ) by {}
}

/// An element that a document adds keeps every reference that the document gives it, as often as it
/// is given, and in order, whatever else is said of it.
pub proof fn references_of_added_elements_are_kept(
    nodes: Map<Seq<char>, GsnNodeView>,
    documents: Map<Seq<char>, GsnDocumentView>,
    module: Seq<char>,
    char_wrap: Option<u32>,
    name: Seq<char>,
)
    requires
        with_document(nodes, documents, module, char_wrap).contains_key(name),
        !nodes.contains_key(name),
        documents[name] is GsnNode,
    ensures
        ({
            let kept = with_document(nodes, documents, module, char_wrap)[name];
            let given = documents[name]->GsnNode_0;
            &&& kept.supported_by.to_multiset() == given.supported_by.to_multiset()
            &&& kept.in_context_of.to_multiset() == given.in_context_of.to_multiset()
            &&& forall|i: int, j: int|
                0 <= i < j < kept.supported_by.len() ==> !text_before(
                    #[trigger] kept.supported_by[j],
                    #[trigger] kept.supported_by[i],
                )
            &&& forall|i: int, j: int|
                0 <= i < j < kept.in_context_of.len() ==> !text_before(
                    #[trigger] kept.in_context_of[j],
                    #[trigger] kept.in_context_of[i],
                )
            &&& kept.text == given.text
            &&& kept.module == module
            &&& kept.additional == given.additional
        }),
{
    prepared_elements_are_kept(documents[name]->GsnNode_0, name, module, char_wrap);
}

/// Where no name of a document is taken, adding it says nothing. Where one is, one error is added,
/// for the module, about the first such name: it names the document and the module that has the
/// element already.
pub proof fn first_taken_name_is_complained_about(
    messages: Seq<MessageView>,
    documents: Map<Seq<char>, GsnDocumentView>,
    nodes: Map<Seq<char>, GsnNodeView>,
    module: Seq<char>,
    input: Seq<char>,
)
    ensures
        (forall|name: Seq<char>| #[trigger]
            documents.contains_key(name) ==> !nodes.contains_key(name)) ==> with_collision(
            messages,
            documents,
            nodes,
            module,
            input,
        ) == messages,
        forall|name: Seq<char>|
            {
                &&& #[trigger] documents.contains_key(name)
                &&& nodes.contains_key(name)
                &&& forall|other: Seq<char>| #[trigger]
                    documents.contains_key(other) && text_before(other, name)
                        ==> !nodes.contains_key(other)
            } ==> with_collision(messages, documents, nodes, module, input) == messages.push(
                MessageView {
                    diag_type: DiagType::Error,
                    module: Some(module),
                    msg: "C07: Element "@ + name + " in "@ + input + " was already present in "@
                        + nodes[name].module + "."@,
                },
            ),
{
    assert forall|name: Seq<char>|
        {
            &&& #[trigger] documents.contains_key(name)
            &&& nodes.contains_key(name)
            &&& forall|other: Seq<char>| #[trigger]
                documents.contains_key(other) && text_before(other, name) ==> !nodes.contains_key(
                    other,
                )
        } implies with_collision(messages, documents, nodes, module, input) == messages.push(
        MessageView {
            diag_type: DiagType::Error,
            module: Some(module),
            msg: "C07: Element "@ + name + " in "@ + input + " was already present in "@
                + nodes[name].module + "."@,
        },
    ) by {
        assert(first_collision(documents, nodes, name));
        let first = choose|first: Seq<char>| first_collision(documents, nodes, first);
        first_collision_is_unique(documents, nodes, first, name);
        assert(!no_collision(documents, nodes));
    }
}

/// All that a document adds is an element exactly if every entry before the first name that is taken
/// is one.
pub proof fn elements_are_all_that_is_added(
    documents: Map<Seq<char>, GsnDocumentView>,
    nodes: Map<Seq<char>, GsnNodeView>,
)
    ensures
        adds_elements_only(documents, nodes) <==> forall|name: Seq<char>|
            {
                &&& #[trigger] documents.contains_key(name)
                &&& !nodes.contains_key(name)
                &&& forall|other: Seq<char>| #[trigger]
                    documents.contains_key(other) && text_before(other, name)
                        ==> !nodes.contains_key(other)
            } ==> documents[name] is GsnNode,
{
    if adds_elements_only(documents, nodes) {
        assert forall|name: Seq<char>|
            {
                &&& #[trigger] documents.contains_key(name)
                &&& !nodes.contains_key(name)
                &&& forall|other: Seq<char>| #[trigger]
                    documents.contains_key(other) && text_before(other, name)
                        ==> !nodes.contains_key(other)
            } implies documents[name] is GsnNode by {
            assert(is_added(documents, nodes, name));
        }
    }
}

// ---- stand-ins ----

/// Whether an element is the stand-in for a name: it belongs to the unknown module, its kind is the
/// one that the letters of the name give away, and it says nothing else.
pub open spec fn stands_in_for(node: GsnNodeView, name: Seq<char>) -> bool {
    &&& is_kind_by_letters(name, node.node_type)
    &&& node.module == "Unknown"@
    &&& node.text.len() == 0
    &&& node.supported_by.len() == 0
    &&& node.in_context_of.len() == 0
    &&& node.char_wrap is None
    &&& node.additional.len() == 0
}

/// A stand-in is one for its name.
pub proof fn stand_ins_go_by_their_name(name: Seq<char>)
    ensures
        stands_in_for(unknown_node(name), name),
{
    kinds_go_by_letters(name);
}

/// The kind of a stand-in, as it is added for a name that no element has, is the one that the name
/// begins with.
pub proof fn kinds_of_stand_ins(
    nodes: Map<Seq<char>, GsnNodeView>,
    names: Seq<Seq<char>>,
    name: Seq<char>,
)
    requires
        names.contains(name),
        !nodes.contains_key(name),
    ensures
        ({
            let stand_in = with_stand_ins(nodes, names)[name];
            let kind = stand_in.node_type;
            let begins = |c: char| name.len() > 0 && name[0] == c;
            let goes_on = |i: int, c: char| name.len() > i && name[i] == c;
            &&& with_stand_ins(nodes, names).contains_key(name)
            &&& stand_in.module == "Unknown"@
            &&& stand_in.supported_by.len() == 0
            &&& stand_in.in_context_of.len() == 0
            &&& begins('G') ==> kind == Some(GsnNodeType::Goal)
            &&& begins('S') && goes_on(1, 'n') ==> kind == Some(GsnNodeType::Solution)
            &&& begins('S') && !goes_on(1, 'n') ==> kind == Some(GsnNodeType::Strategy)
            &&& begins('C') && goes_on(1, 'G') ==> kind == Some(GsnNodeType::CounterGoal)
            &&& begins('C') && goes_on(1, 'S') && goes_on(2, 'n') ==> kind == Some(
                GsnNodeType::CounterSolution,
            )
            &&& begins('C') && !goes_on(1, 'G') && !(goes_on(1, 'S') && goes_on(2, 'n')) ==> kind
                == Some(GsnNodeType::Context)
            &&& begins('A') ==> kind == Some(GsnNodeType::Assumption)
            &&& begins('J') ==> kind == Some(GsnNodeType::Justification)
            &&& !begins('G') && !begins('S') && !begins('C') && !begins('A') && !begins('J')
                ==> kind is None
        }),
{
    stand_ins_go_by_their_name(name);
}

/// What elements refer to and no element is, is found element by element: first among those that
/// support it, then among those in whose context it stands, as often as it is referred to.
pub proof fn references_are_found_one_by_one(
    nodes: Map<Seq<char>, GsnNodeView>,
    names: Seq<Seq<char>>,
    next: Seq<char>,
)
    ensures
        undefined_references(nodes, Seq::empty()) == Seq::<Seq<char>>::empty(),
        undefined_references(nodes, names.push(next)) == undefined_references(nodes, names) + (
        nodes[next].supported_by + nodes[next].in_context_of).filter(
            |name: Seq<char>| !nodes.contains_key(name),
        ),
{
    assert(names.push(next).drop_last() =~= names);
    let is_undefined = |name: Seq<char>| !nodes.contains_key(name);
    assert(undefined(nodes, nodes[next].supported_by + nodes[next].in_context_of) == (
    nodes[next].supported_by + nodes[next].in_context_of).filter(is_undefined));
}

/// After stand-ins were added, the elements are those from before, unchanged, and a stand-in for
/// each name that one of them refers to and that none of them has.
pub proof fn stand_ins_are_added(nodes: Nodes)
    requires
        nodes.well_formed(),
    ensures
        ({
            let missing = undefined_references(nodes@, nodes.keys());
            let after = with_stand_ins(nodes@, missing);
            &&& forall|name: Seq<char>| #[trigger]
                after.contains_key(name) <==> {
                    ||| nodes@.contains_key(name)
                    ||| exists|other: Seq<char>| #[trigger]
                        nodes@.contains_key(other) && (nodes@[other].supported_by.contains(name)
                            || nodes@[other].in_context_of.contains(name))
                }
            &&& forall|name: Seq<char>| #[trigger]
                nodes@.contains_key(name) ==> after[name] == nodes@[name]
            &&& forall|name: Seq<char>| #[trigger]
                after.contains_key(name) && !nodes@.contains_key(name) ==> stands_in_for(
                    after[name],
                    name,
                )
            &&& forall|name: Seq<char>| #[trigger]
                missing.contains(name) <==> after.contains_key(name) && !nodes@.contains_key(name)
        }),
{
    let missing = undefined_references(nodes@, nodes.keys());
    let after = with_stand_ins(nodes@, missing);
    assert forall|name: Seq<char>| #[trigger]
        after.contains_key(name) && !nodes@.contains_key(name) implies stands_in_for(
        after[name],
        name,
    ) by {
        stand_ins_go_by_their_name(name);
    }
    assert forall|name: Seq<char>| #[trigger] missing.contains(name) implies !nodes@.contains_key(
        name,
    ) by {
        undefined_references_member(nodes@, nodes.keys(), name);
    }
    assert forall|name: Seq<char>| #[trigger]
        after.contains_key(name) <==> {
            ||| nodes@.contains_key(name)
            ||| exists|other: Seq<char>| #[trigger]
                nodes@.contains_key(other) && (nodes@[other].supported_by.contains(name)
                    || nodes@[other].in_context_of.contains(name))
        } by {
        undefined_references_member(nodes@, nodes.keys(), name);
        if exists|other: Seq<char>| #[trigger]
            nodes@.contains_key(other) && (nodes@[other].supported_by.contains(name)
                || nodes@[other].in_context_of.contains(name)) {
            let other = choose|other: Seq<char>| #[trigger]
                nodes@.contains_key(other) && (nodes@[other].supported_by.contains(name)
                    || nodes@[other].in_context_of.contains(name));
            let i = lemma_place(nodes, other);
            contained_in_either(
                nodes@[other].supported_by,
                nodes@[other].in_context_of,
                name,
            );
            assert(refers_to(nodes@, nodes.keys(), i, name));
        }
        if missing.contains(name) {
            let i = choose|i: int| refers_to(nodes@, nodes.keys(), i, name);
            lemma_entry(nodes, i);
            let other = nodes.keys()[i];
            contained_in_either(
                nodes@[other].supported_by,
                nodes@[other].in_context_of,
                name,
            );
            assert(nodes@.contains_key(other));
        }
    }
}

/// The module of the stand-ins is named so, comes from no file, and is not rendered to one.
pub proof fn unknown_module_is_no_file()
    ensures
        ({
            let module: ModuleView = unknown_module();
            &&& module.meta.name == "Unknown"@
            &&& module.meta.uses.len() == 0
            &&& module.meta.stylesheets.len() == 0
            &&& module.meta.char_wrap is None
            &&& module.meta.additional.len() == 0
            &&& module.orig_file_name.len() == 0
            &&& module.origin == OriginView::Excluded
            &&& module.canonical_path is None
            &&& module.output_path is None
        }),
{
}

} // verus!
