//! Standing in for elements that are referred to and not defined.

use vstd::prelude::*;
use crate::element_laws::{stand_ins_are_added, stands_in_for};
use crate::gsn::{
    make_unknown_node_for, named_module, unknown_node, GsnNodeView, Module, ModuleInformation,
    ModuleView, Modules, Nodes, Origin, OriginView, UNKNOWN_MODULE,
};
use crate::render::{RenderOptions, RenderOptionsView};
use crate::text::texts;
use crate::text_map::{lemma_entry, lemma_place};

verus! {

/// The elements that an element refers to: those that support it, then those in whose context it
/// stands.
pub open spec fn references(node: GsnNodeView) -> Seq<Seq<char>> {
    node.supported_by + node.in_context_of
}

/// Those of a list of names that no element has.
pub open spec fn undefined(
    nodes: Map<Seq<char>, GsnNodeView>,
    names: Seq<Seq<char>>,
) -> Seq<Seq<char>> {
    names.filter(|name: Seq<char>| !nodes.contains_key(name))
}

/// The undefined elements that a list of elements refers to, in the order of the references.
pub open spec fn undefined_references(
    nodes: Map<Seq<char>, GsnNodeView>,
    names: Seq<Seq<char>>,
) -> Seq<Seq<char>>
    decreases names.len(),
{
    if names.len() == 0 {
        Seq::empty()
    } else {
        undefined_references(nodes, names.drop_last()) + undefined(
            nodes,
            references(nodes[names.last()]),
        )
    }
}

/// The elements together with stand-ins under some other names.
pub open spec fn with_stand_ins(
    nodes: Map<Seq<char>, GsnNodeView>,
    names: Seq<Seq<char>>,
) -> Map<Seq<char>, GsnNodeView> {
    Map::new(
        |name: Seq<char>| nodes.contains_key(name) || names.contains(name),
        |name: Seq<char>|
            if nodes.contains_key(name) {
                nodes[name]
            } else {
                unknown_node(name)
            },
    )
}

/// The module of the stand-ins.
pub open spec fn unknown_module() -> ModuleView {
    ModuleView {
        orig_file_name: Seq::empty(),
        meta: named_module(UNKNOWN_MODULE@),
        origin: OriginView::Excluded,
        canonical_path: None,
        output_path: None,
    }
}

/// Appends those of a list of names that no element has.
fn note_undefined(nodes: &Nodes, names: &Vec<String>, missing: &mut Vec<String>)
    ensures
        texts(final(missing)@) == texts(old(missing)@) + undefined(nodes@, texts(names@)),
{
    let ghost all = texts(names@);
    proof {
        reveal(Seq::filter);
        assert(texts(missing@) =~= texts(old(missing)@) + undefined(nodes@, all.take(0)));
    }
    for i in 0..names.len()
        invariant
            all == texts(names@),
            texts(missing@) == texts(old(missing)@) + undefined(nodes@, all.take(i as int)),
    {
        let ghost before = missing@;
        proof {
            reveal(Seq::filter);
            assert(all.take(i + 1).drop_last() == all.take(i as int));
            assert(all.take(i + 1).last() == names@[i as int]@);
        }
        if !nodes.contains_key(names[i].as_str()) {
            missing.push(names[i].clone());
            proof {
                assert(texts(missing@) =~= texts(before).push(names@[i as int]@));
                assert(texts(missing@) =~= texts(old(missing)@) + undefined(
                    nodes@,
                    all.take(i + 1),
                ));
            }
        }
    }
    assert(all.take(names@.len() as int) == all);
}

proof fn undefined_of_both(
    nodes: Map<Seq<char>, GsnNodeView>,
    a: Seq<Seq<char>>,
    b: Seq<Seq<char>>,
)
    ensures
        undefined(nodes, a + b) == undefined(nodes, a) + undefined(nodes, b),
    decreases b.len(),
{
    reveal(Seq::filter);
    if b.len() == 0 {
        assert(a + b == a);
        assert(undefined(nodes, b) =~= Seq::<Seq<char>>::empty());
        assert(undefined(nodes, a) + undefined(nodes, b) =~= undefined(nodes, a));
    } else {
        undefined_of_both(nodes, a, b.drop_last());
        assert((a + b).drop_last() == a + b.drop_last());
        assert((a + b).last() == b.last());
        assert(undefined(nodes, a + b) =~= undefined(nodes, a) + undefined(nodes, b));
    }
}

/// The undefined elements that the elements refer to, in the order of the references.
pub fn find_undefined(nodes: &Nodes) -> (missing: Vec<String>)
    ensures
        texts(missing@) == undefined_references(nodes@, nodes.keys()),
{
    let mut missing: Vec<String> = Vec::new();
    let n = nodes.len();
    for i in 0..n
        invariant
            n == nodes.keys().len(),
            texts(missing@) == undefined_references(nodes@, nodes.keys().take(i as int)),
    {
        let node = nodes.value_at(i);
        note_undefined(nodes, &node.supported_by, &mut missing);
        note_undefined(nodes, &node.in_context_of, &mut missing);
        proof {
            let upto = nodes.keys().take(i + 1);
            assert(upto.drop_last() == nodes.keys().take(i as int));
            assert(upto.last() == nodes.keys()[i as int]);
            undefined_of_both(nodes@, node@.supported_by, node@.in_context_of);
            assert(texts(missing@) =~= undefined_references(nodes@, upto));
        }
    }
    assert(nodes.keys().take(n as int) == nodes.keys());
    missing
}

proof fn undefined_member(
    nodes: Map<Seq<char>, GsnNodeView>,
    names: Seq<Seq<char>>,
    name: Seq<char>,
)
    ensures
        undefined(nodes, names).contains(name) <==> names.contains(name) && !nodes.contains_key(
            name,
        ),
    decreases names.len(),
{
    reveal(Seq::filter);
    let all = undefined(nodes, names);
    if names.len() > 0 {
        let some = undefined(nodes, names.drop_last());
        undefined_member(nodes, names.drop_last(), name);
        if names.contains(name) {
            let i = names.index_of(name);
            if i < names.len() - 1 {
                assert(names.drop_last()[i] == name);
            }
        }
        if names.drop_last().contains(name) {
            assert(names[names.drop_last().index_of(name)] == name);
        }
        assert(names[names.len() - 1] == names.last());
        if !nodes.contains_key(names.last()) {
            assert(all == some.push(names.last()));
            assert(all[some.len() as int] == names.last());
            if some.contains(name) {
                assert(all[some.index_of(name)] == name);
            }
            if all.contains(name) && all.index_of(name) < some.len() {
                assert(some[all.index_of(name)] == name);
            }
        }
    }
}

/// Whether the element at a place in a list refers to a name.
pub open spec fn refers_to(
    nodes: Map<Seq<char>, GsnNodeView>,
    names: Seq<Seq<char>>,
    i: int,
    name: Seq<char>,
) -> bool {
    0 <= i < names.len() && references(nodes[names[i]]).contains(name)
}

/// The undefined references of some elements are the names that one of them refers to and that no
/// element has.
pub proof fn undefined_references_member(
    nodes: Map<Seq<char>, GsnNodeView>,
    names: Seq<Seq<char>>,
    name: Seq<char>,
)
    ensures
        undefined_references(nodes, names).contains(name) <==> {
            &&& !nodes.contains_key(name)
            &&& exists|i: int| refers_to(nodes, names, i, name)
        },
    decreases names.len(),
{
    if names.len() > 0 {
        let fewer = names.drop_last();
        let some = undefined_references(nodes, fewer);
        let last = undefined(nodes, references(nodes[names.last()]));
        undefined_references_member(nodes, fewer, name);
        undefined_member(nodes, references(nodes[names.last()]), name);
        contained_in_either(some, last, name);
        if exists|i: int| refers_to(nodes, fewer, i, name) {
            let i = choose|i: int| refers_to(nodes, fewer, i, name);
            assert(refers_to(nodes, names, i, name));
        }
        if references(nodes[names.last()]).contains(name) {
            assert(refers_to(nodes, names, names.len() - 1, name));
        }
        if exists|i: int| refers_to(nodes, names, i, name) {
            let i = choose|i: int| refers_to(nodes, names, i, name);
            if i < names.len() - 1 {
                assert(refers_to(nodes, fewer, i, name));
            }
        }
    } else {
        assert(undefined_references(nodes, names) =~= Seq::<Seq<char>>::empty());
    }
}

/// Two lists behind each other hold what one of them holds.
pub proof fn contained_in_either(a: Seq<Seq<char>>, b: Seq<Seq<char>>, name: Seq<char>)
    ensures
        (a + b).contains(name) <==> a.contains(name) || b.contains(name),
{
    if a.contains(name) {
        assert((a + b)[a.index_of(name)] == name);
    }
    if b.contains(name) {
        assert((a + b)[a.len() + b.index_of(name)] == name);
    }
    if (a + b).contains(name) {
        let i = (a + b).index_of(name);
        if i < a.len() {
            assert(a[i] == name);
        } else {
            assert(b[i - a.len()] == name);
        }
    }
}

/// Whether every element that is referred to is defined.
pub open spec fn is_closed(nodes: Map<Seq<char>, GsnNodeView>) -> bool {
    forall|name: Seq<char>, other: Seq<char>|
        #![trigger nodes.contains_key(name), references(nodes[name]).contains(other)]
        nodes.contains_key(name) && references(nodes[name]).contains(other)
            ==> nodes.contains_key(other)
}

/// With the stand-ins, every element that is referred to is defined, and no element that was
/// defined before has changed.
pub proof fn stand_ins_close(nodes: Nodes)
    requires
        nodes.well_formed(),
    ensures
        ({
            let completed = with_stand_ins(
                nodes@,
                undefined_references(nodes@, nodes.keys()),
            );
            &&& is_closed(completed)
            &&& forall|name: Seq<char>| #[trigger]
                nodes@.contains_key(name) ==> completed.contains_key(name) && completed[name]
                    == nodes@[name]
        }),
{
    let missing = undefined_references(nodes@, nodes.keys());
    let completed = with_stand_ins(nodes@, missing);
    assert forall|name: Seq<char>, other: Seq<char>|
        #![trigger completed.contains_key(name), references(completed[name]).contains(other)]
        completed.contains_key(name) && references(completed[name]).contains(
            other,
        ) implies completed.contains_key(other) by {
        if nodes@.contains_key(name) {
            let i = lemma_place(nodes, name);
            undefined_references_member(nodes@, nodes.keys(), other);
            assert(refers_to(nodes@, nodes.keys(), i, other));
        }
    }
}

/// Where every element that is referred to is defined, there is nothing to stand in for. So to add
/// stand-ins a second time changes no element and masks none.
pub proof fn closed_needs_no_stand_ins(nodes: Nodes)
    requires
        nodes.well_formed(),
        is_closed(nodes@),
    ensures
        undefined_references(nodes@, nodes.keys()) == Seq::<Seq<char>>::empty(),
        with_stand_ins(nodes@, undefined_references(nodes@, nodes.keys())) == nodes@,
{
    let missing = undefined_references(nodes@, nodes.keys());
    if missing.len() > 0 {
        assert(missing.contains(missing[0]));
        undefined_references_member(nodes@, nodes.keys(), missing[0]);
        let i = choose|i: int| refers_to(nodes@, nodes.keys(), i, missing[0]);
        lemma_entry(nodes, i);
    }
    assert(missing =~= Seq::<Seq<char>>::empty());
    assert(with_stand_ins(nodes@, missing) =~= nodes@);
}

/// Adds a stand-in for every element that is referred to and not defined, and a module for them.
///
/// The stand-ins are masked when elements are rendered, once for each reference.
pub fn add_missing_nodes_and_modules(
    nodes: &mut Nodes,
    modules: &mut Modules,
    render_options: &mut RenderOptions,
)
    ensures
        ({
            let missing = undefined_references(old(nodes)@, old(nodes).keys());
            &&& final(nodes)@ == with_stand_ins(old(nodes)@, missing)
            &&& final(modules)@ == old(modules)@.insert(UNKNOWN_MODULE@, unknown_module())
            &&& final(render_options)@ == (RenderOptionsView {
                masked_elements: old(render_options)@.masked_elements + missing,
                ..old(render_options)@
            })
        }),
        forall|name: Seq<char>| #[trigger]
            old(nodes)@.contains_key(name) ==> final(nodes)@.contains_key(name)
                && final(nodes)@[name] == old(nodes)@[name],
        forall|name: Seq<char>| #[trigger]
            final(nodes)@.contains_key(name) && !old(nodes)@.contains_key(name) ==> stands_in_for(
                final(nodes)@[name],
                name,
            ),
{
    proof {
        use_type_invariant(&*nodes);
        stand_ins_are_added(*nodes);
    }
    let missing = find_undefined(nodes);
    let ghost names = texts(missing@);
    let ghost known = nodes@;
    let mut masked: Vec<String> = Vec::new();
    std::mem::swap(&mut masked, &mut render_options.masked_elements);
    let ghost masked_before = texts(masked@);
    proof {
        assert(nodes@ =~= with_stand_ins(known, names.take(0)));
        assert forall|j: int| 0 <= j < names.len() implies !known.contains_key(
            #[trigger] names[j],
        ) by {
            assert(names.contains(names[j]));
            undefined_references_member(known, nodes.keys(), names[j]);
        }
        assert(texts(masked@) =~= masked_before + names.take(0));
    }
    for i in 0..missing.len()
        invariant
            names == texts(missing@),
            forall|j: int| 0 <= j < names.len() ==> !known.contains_key(#[trigger] names[j]),
            nodes@ == with_stand_ins(known, names.take(i as int)),
            texts(masked@) == masked_before + names.take(i as int),
    {
        let name = &missing[i];
        let ghost before = masked@;
        nodes.insert(name.clone(), make_unknown_node_for(name.as_str()));
        masked.push(name.clone());
        proof {
            let some = names.take(i as int);
            let more = names.take(i + 1);
            assert(more == some.push(name@));
            assert(more[i as int] == name@);
            assert forall|other: Seq<char>| more.contains(other) == (some.contains(other) || other
                == name@) by {
                if some.contains(other) {
                    assert(more[some.index_of(other)] == other);
                }
            }
            assert(nodes@ =~= with_stand_ins(known, more));
            assert(texts(masked@) =~= texts(before).push(name@));
            assert(texts(masked@) =~= masked_before + more);
        }
    }
    assert(names.take(missing@.len() as int) == names);
    render_options.masked_elements = masked;
    let meta = ModuleInformation::new(UNKNOWN_MODULE.to_owned());
    let module = Module {
        orig_file_name: String::new(),
        meta,
        origin: Origin::Excluded,
        canonical_path: None,
        output_path: None,
    };
    modules.insert(UNKNOWN_MODULE.to_owned(), module);
}

} // verus!
