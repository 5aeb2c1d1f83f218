//! Taking the elements of documents in.

use vstd::prelude::*;
use vstd::string::*;
use crate::diagnostics::{error_message, Diagnostics, MessageView};
use crate::element_laws::{added_elements_are_kept, is_kept_from};
use crate::gsn::{
    fixed_node_type, Documents, GsnDocument, GsnDocumentView, GsnNode, GsnNodeView, Nodes,
};
use crate::order::{sort_texts, sorted_texts, text_before, text_before_total};
use crate::text_map::{increasing_place, lemma_entry, lemma_place};

verus! {

/// An element as it is kept: assigned to its module, its kind settled by its name, the elements
/// that it refers to in order, and with the wrapping width of its module if it has none itself.
pub open spec fn prepared_node(
    node: GsnNodeView,
    name: Seq<char>,
    module: Seq<char>,
    char_wrap: Option<u32>,
) -> GsnNodeView {
    GsnNodeView {
        node_type: fixed_node_type(node.node_type, name),
        text: node.text,
        module,
        supported_by: sorted_texts(node.supported_by),
        in_context_of: sorted_texts(node.in_context_of),
        char_wrap: if node.char_wrap is None {
            char_wrap
        } else {
            node.char_wrap
        },
        additional: node.additional,
    }
}

/// Whether a name is the first one in a document that is taken already.
pub open spec fn first_collision(
    documents: Map<Seq<char>, GsnDocumentView>,
    nodes: Map<Seq<char>, GsnNodeView>,
    name: Seq<char>,
) -> bool {
    &&& documents.contains_key(name)
    &&& nodes.contains_key(name)
    &&& forall|other: Seq<char>| #[trigger]
        documents.contains_key(other) && text_before(other, name) ==> !nodes.contains_key(other)
}

/// Whether no name in a document is taken already.
pub open spec fn no_collision(
    documents: Map<Seq<char>, GsnDocumentView>,
    nodes: Map<Seq<char>, GsnNodeView>,
) -> bool {
    forall|name: Seq<char>| #[trigger]
        documents.contains_key(name) ==> !nodes.contains_key(name)
}

/// Whether what stands under a name in a document gets added to the elements: it does as long as
/// neither this name nor one before it is taken already.
pub open spec fn is_added(
    documents: Map<Seq<char>, GsnDocumentView>,
    nodes: Map<Seq<char>, GsnNodeView>,
    name: Seq<char>,
) -> bool {
    &&& documents.contains_key(name)
    &&& !nodes.contains_key(name)
    &&& forall|other: Seq<char>| #[trigger]
        documents.contains_key(other) && text_before(other, name) ==> !nodes.contains_key(other)
}

/// Whether all that gets added to the elements is an element.
pub open spec fn adds_elements_only(
    documents: Map<Seq<char>, GsnDocumentView>,
    nodes: Map<Seq<char>, GsnNodeView>,
) -> bool {
    forall|name: Seq<char>| #[trigger]
        is_added(documents, nodes, name) ==> documents[name] is GsnNode
}

/// The elements after those of a document were added.
pub open spec fn with_document(
    nodes: Map<Seq<char>, GsnNodeView>,
    documents: Map<Seq<char>, GsnDocumentView>,
    module: Seq<char>,
    char_wrap: Option<u32>,
) -> Map<Seq<char>, GsnNodeView> {
    Map::new(
        |name: Seq<char>| nodes.contains_key(name) || is_added(documents, nodes, name),
        |name: Seq<char>|
            if nodes.contains_key(name) {
                nodes[name]
            } else {
                prepared_node(documents[name]->GsnNode_0, name, module, char_wrap)
            },
    )
}

/// The complaint about an element that is defined twice.
pub open spec fn duplicate_element_text(
    name: Seq<char>,
    input: Seq<char>,
    module: Seq<char>,
) -> Seq<char> {
    "C07: Element "@ + name + " in "@ + input + " was already present in "@ + module + "."@
}

/// The messages after a document was added: the first name that is taken already is complained
/// about, and no other.
pub open spec fn with_collision(
    messages: Seq<MessageView>,
    documents: Map<Seq<char>, GsnDocumentView>,
    nodes: Map<Seq<char>, GsnNodeView>,
    module: Seq<char>,
    input: Seq<char>,
) -> Seq<MessageView> {
    if no_collision(documents, nodes) {
        messages
    } else {
        let name = choose|name: Seq<char>| first_collision(documents, nodes, name);
        messages.push(
            error_message(Some(module), duplicate_element_text(name, input, nodes[name].module)),
        )
    }
}

/// Only one name can be the first that is taken already.
pub proof fn first_collision_is_unique(
    documents: Map<Seq<char>, GsnDocumentView>,
    nodes: Map<Seq<char>, GsnNodeView>,
    a: Seq<char>,
    b: Seq<char>,
)
    requires
        first_collision(documents, nodes, a),
        first_collision(documents, nodes, b),
    ensures
        a == b,
{
    text_before_total(a, b);
}

/// The complaint about an element that is defined twice, as a string.
fn duplicate_element(name: &str, input: &str, module: &str) -> (text: String)
    ensures
        text@ == duplicate_element_text(name@, input@, module@),
{
    let mut text = "C07: Element ".to_owned();
    text.append(name);
    text.append(" in ");
    text.append(input);
    text.append(" was already present in ");
    text.append(module);
    text.append(".");
    text
}

/// What is added before a place in the document: the names before that place.
proof fn added_before(documents: Documents, nodes: Map<Seq<char>, GsnNodeView>, i: int)
    requires
        documents.well_formed(),
        0 <= i <= documents.keys().len(),
        forall|j: int| 0 <= j < i ==> !nodes.contains_key(#[trigger] documents.keys()[j]),
    ensures
        forall|j: int| 0 <= j < i ==> is_added(documents@, nodes, #[trigger] documents.keys()[j]),
        i < documents.keys().len() ==> (is_added(documents@, nodes, documents.keys()[i])
            <==> !nodes.contains_key(documents.keys()[i])),
        i < documents.keys().len() && nodes.contains_key(documents.keys()[i]) ==> {
            &&& first_collision(documents@, nodes, documents.keys()[i])
            &&& forall|name: Seq<char>|
                is_added(documents@, nodes, name) ==> exists|j: int|
                    0 <= j < i && #[trigger] documents.keys()[j] == name
        },
        i == documents.keys().len() ==> no_collision(documents@, nodes),
{
    let keys = documents.keys();
    assert forall|j: int, other: Seq<char>|
        0 <= j < keys.len() && j <= i && documents@.contains_key(other) && text_before(
            other,
            keys[j],
        ) implies !nodes.contains_key(other) by {
        let k = lemma_place(documents, other);
        if k >= j {
            text_before_total(keys[k], keys[j]);
        }
    }
    assert forall|j: int| 0 <= j < i implies is_added(documents@, nodes, #[trigger] keys[j]) by {
        lemma_entry(documents, j);
    }
    if i < keys.len() {
        lemma_entry(documents, i);
        if nodes.contains_key(keys[i]) {
            assert forall|name: Seq<char>| is_added(documents@, nodes, name) implies exists|j: int|
                0 <= j < i && #[trigger] keys[j] == name by {
                let k = lemma_place(documents, name);
                if k > i {
                    assert(text_before(keys[i], keys[k]));
                }
            }
        }
    } else {
        assert forall|name: Seq<char>| #[trigger]
            documents@.contains_key(name) implies !nodes.contains_key(name) by {
            let k = lemma_place(documents, name);
        }
    }
}

/// Whether all that [`check_and_add_nodes`] would add is an element.
pub fn elements_only(documents: &Documents, nodes: &Nodes) -> (only: bool)
    ensures
        only == adds_elements_only(documents@, nodes@),
{
    let n = documents.len();
    for i in 0..n
        invariant
            n == documents.keys().len(),
            documents.well_formed(),
            forall|j: int| 0 <= j < i ==> !nodes@.contains_key(#[trigger] documents.keys()[j]),
            forall|j: int|
                0 <= j < i ==> documents@[#[trigger] documents.keys()[j]] is GsnNode,
    {
        proof {
            added_before(*documents, nodes@, i as int);
        }
        if nodes.contains_key(documents.name_at(i).as_str()) {
            return true;
        }
        match documents.value_at(i) {
            GsnDocument::GsnNode(_) => {},
            GsnDocument::ModuleInformation(_) => {
                assert(is_added(documents@, nodes@, documents.keys()[i as int]));
                return false;
            },
        }
    }
    proof {
        assert forall|name: Seq<char>| #[trigger]
            is_added(documents@, nodes@, name) implies documents@[name] is GsnNode by {
            let k = lemma_place(*documents, name);
        }
    }
    true
}

/// Adds the elements of a document to those that are known already.
///
/// The names of the document are taken in order, up to the first that is taken already. That one
/// is complained about, and it and the names after it are left out.
pub fn check_and_add_nodes(
    n: Documents,
    nodes: &mut Nodes,
    module: &String,
    diags: &mut Diagnostics,
    input: &String,
    char_wrap: Option<u32>,
)
    requires
        adds_elements_only(n@, old(nodes)@),
    ensures
        final(nodes)@ == with_document(old(nodes)@, n@, module@, char_wrap),
        final(diags)@ == with_collision(old(diags)@, n@, old(nodes)@, module@, input@),
        forall|name: Seq<char>| #[trigger]
            old(nodes)@.contains_key(name) ==> final(nodes)@.contains_key(name)
                && final(nodes)@[name] == old(nodes)@[name],
        forall|name: Seq<char>| #[trigger]
            final(nodes)@.contains_key(name) && !old(nodes)@.contains_key(name) ==> {
                &&& n@.contains_key(name)
                &&& n@[name] is GsnNode
                &&& is_kept_from(
                    final(nodes)@[name],
                    n@[name]->GsnNode_0,
                    name,
                    module@,
                    char_wrap,
                )
            },
{
    let ghost all = n;
    let ghost known = nodes@;
    let mut rest = n;
    let mut i: usize = 0;
    let count = rest.len();
    proof {
        assert(rest.keys().skip(0) == rest.keys());
        assert(nodes@ =~= with_names(known, all@, Seq::empty(), module@, char_wrap));
        assert(all.keys().take(0) == Seq::<Seq<char>>::empty());
    }
    while i < count
        invariant
            i <= count,
            all == n,
            known == old(nodes)@,
            count == all.keys().len(),
            all.well_formed(),
            adds_elements_only(all@, known),
            rest.keys() == all.keys().skip(i as int),
            forall|j: int|
                i <= j < count ==> #[trigger] rest@.contains_key(all.keys()[j])
                    && rest@[all.keys()[j]] == all@[all.keys()[j]],
            forall|j: int| 0 <= j < i ==> !known.contains_key(#[trigger] all.keys()[j]),
            nodes@ == with_names(known, all@, all.keys().take(i as int), module@, char_wrap),
            diags@ == old(diags)@,
        decreases count - i,
    {
        let ghost names = all.keys();
        proof {
            added_before(all, known, i as int);
            lemma_entry(all, i as int);
            assert(rest@.contains_key(names[i as int]));
        }
        if let Some((name, document)) = rest.pop_first() {
            assert(name@ == names[i as int]);
            assert forall|j: int| i < j < count implies #[trigger] rest@.contains_key(names[j])
                && rest@[names[j]] == all@[names[j]] by {
                text_before_total(names[i as int], names[j]);
            }
            assert(nodes@.contains_key(name@) == known.contains_key(name@)) by {
                if names.take(i as int).contains(name@) {
                    let j = names.take(i as int).index_of(name@);
                    increasing_place(names, j);
                    increasing_place(names, i as int);
                }
            }
            if let Some(present) = nodes.get(name.as_str()) {
                diags.add_error(
                    Some(module.as_str()),
                    duplicate_element(name.as_str(), input.as_str(), present.module.as_str()),
                );
                proof {
                    let first = choose|first: Seq<char>| first_collision(all@, known, first);
                    first_collision_is_unique(all@, known, first, name@);
                    let before = names.take(i as int);
                    assert forall|other: Seq<char>| is_added(all@, known, other)
                        == before.contains(other) by {
                        if is_added(all@, known, other) {
                            let j = choose|j: int| 0 <= j < i && #[trigger] names[j] == other;
                            assert(before[j] == other);
                        }
                        if before.contains(other) {
                            assert(names[before.index_of(other)] == other);
                        }
                    }
                    assert(nodes@ =~= with_document(known, all@, module@, char_wrap));
                    added_elements_are_kept(known, all@, module@, char_wrap);
                }
                return ;
            }
            match document {
                GsnDocument::GsnNode(node) => {
                    let ghost before = nodes@;
                    let node = prepare_node(node, name.as_str(), module, char_wrap);
                    let ghost text = name@;
                    nodes.insert(name, node);
                    proof {
                        let more = names.take(i + 1);
                        assert(more == names.take(i as int).push(text));
                        assert(more[i as int] == text);
                        assert forall|other: Seq<char>| more.contains(other) <==> (names.take(
                            i as int,
                        ).contains(other) || other == text) by {
                            if names.take(i as int).contains(other) {
                                let j = names.take(i as int).index_of(other);
                                assert(more[j] == other);
                            }
                        }
                        assert(nodes@ =~= with_names(known, all@, more, module@, char_wrap));
                    }
                },
                GsnDocument::ModuleInformation(_) => {
                    assert(false);
                },
            }
        }
        i += 1;
    }
    proof {
        added_before(all, known, i as int);
        assert forall|name: Seq<char>| is_added(all@, known, name) implies all.keys().contains(
            name,
        ) by {
            let j = lemma_place(all, name);
        }
        assert forall|name: Seq<char>| all.keys().contains(name) implies is_added(
            all@,
            known,
            name,
        ) by {
            let j = all.keys().index_of(name);
        }
        assert(all.keys().take(count as int) == all.keys());
        assert(nodes@ =~= with_document(known, all@, module@, char_wrap));
        added_elements_are_kept(known, all@, module@, char_wrap);
    }
}

/// Prepares an element for being kept.
fn prepare_node(node: GsnNode, name: &str, module: &String, char_wrap: Option<u32>) -> (kept:
    GsnNode)
    ensures
        kept@ == prepared_node(node@, name@, module@, char_wrap),
{
    let mut kept = node;
    kept.fix_node_type(name);
    GsnNode {
        node_type: kept.node_type,
        text: kept.text,
        module: module.clone(),
        supported_by: sort_texts(kept.supported_by),
        in_context_of: sort_texts(kept.in_context_of),
        char_wrap: if kept.char_wrap.is_none() {
            char_wrap
        } else {
            kept.char_wrap
        },
        additional: kept.additional,
    }
}

/// The elements after those under some names of a document were added.
spec fn with_names(
    nodes: Map<Seq<char>, GsnNodeView>,
    documents: Map<Seq<char>, GsnDocumentView>,
    names: Seq<Seq<char>>,
    module: Seq<char>,
    char_wrap: Option<u32>,
) -> Map<Seq<char>, GsnNodeView> {
    Map::new(
        |name: Seq<char>| nodes.contains_key(name) || names.contains(name),
        |name: Seq<char>|
            if nodes.contains_key(name) {
                nodes[name]
            } else {
                prepared_node(documents[name]->GsnNode_0, name, module, char_wrap)
            },
    )
}

} // verus!
