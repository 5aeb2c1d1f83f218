//! Validation and checks: what is checked, in which order, and when checking ends.

use vstd::prelude::*;
use crate::diagnostics::{error_message, Diagnostics, MessageView};
use crate::engine::{CheckState, Engine};
use crate::gsn::{GsnNodeView, Modules, Nodes};
use crate::text::{same_text, texts};
use crate::text_map::lemma_place;

verus! {

/// Validation or a check has failed; what is wrong stands in the messages.
#[derive(Debug, PartialEq, Eq, Structural)]
pub struct ValidationOrCheckError {}

/// Whether a module has no element.
pub open spec fn is_empty_module(nodes: Map<Seq<char>, GsnNodeView>, module: Seq<char>) -> bool {
    forall|name: Seq<char>| #[trigger] nodes.contains_key(name) ==> nodes[name].module != module
}

/// Those of a list of modules that have no element.
pub open spec fn empty_modules(
    nodes: Map<Seq<char>, GsnNodeView>,
    modules: Seq<Seq<char>>,
) -> Seq<Seq<char>> {
    modules.filter(|module: Seq<char>| is_empty_module(nodes, module))
}

/// The complaints about modules without elements.
pub open spec fn empty_module_messages(modules: Seq<Seq<char>>) -> Seq<MessageView> {
    modules.map_values(
        |module: Seq<char>|
            error_message(Some(module), "The module does not contain elements."@),
    )
}

/// Whether a module has an element.
fn has_elements(nodes: &Nodes, module: &str) -> (has: bool)
    ensures
        has == !is_empty_module(nodes@, module@),
{
    let n = nodes.len();
    for i in 0..n
        invariant
            n == nodes.keys().len(),
            nodes.well_formed(),
            forall|j: int| 0 <= j < i ==> nodes@[#[trigger] nodes.keys()[j]].module != module@,
    {
        if same_text(nodes.value_at(i).module.as_str(), module) {
            return true;
        }
    }
    proof {
        assert forall|name: Seq<char>| #[trigger] nodes@.contains_key(name) implies nodes@[name].module
            != module@ by {
            let i = lemma_place(*nodes, name);
        }
    }
    false
}

/// The modules that have no element, in order.
fn find_empty_modules(nodes: &Nodes, modules: &Modules) -> (empty: Vec<String>)
    ensures
        texts(empty@) == empty_modules(nodes@, modules.keys()),
{
    let mut empty: Vec<String> = Vec::new();
    let n = modules.len();
    proof {
        reveal(Seq::filter);
        assert(texts(empty@) =~= empty_modules(nodes@, modules.keys().take(0)));
    }
    for i in 0..n
        invariant
            n == modules.keys().len(),
            texts(empty@) == empty_modules(nodes@, modules.keys().take(i as int)),
    {
        let name = modules.name_at(i);
        let ghost before = empty@;
        proof {
            reveal(Seq::filter);
            let upto = modules.keys().take(i + 1);
            assert(upto.drop_last() == modules.keys().take(i as int));
            assert(upto.last() == name@);
        }
        if !has_elements(nodes, name.as_str()) {
            empty.push(name.clone());
            assert(texts(empty@) =~= texts(before).push(name@));
        }
    }
    assert(modules.keys().take(n as int) == modules.keys());
    empty
}

/// All that a run of checks depends on besides the elements and messages.
pub struct CheckPlan<'a> {
    pub modules: &'a Modules,
    pub excluded_modules: &'a [&'a str],
    pub layers: &'a [&'a str],
    pub extended_check: bool,
    pub warn_dialectic: bool,
}

/// How many checks there are: one for each module, and three for all of them together.
pub open spec fn check_count(plan: CheckPlan) -> nat {
    plan.modules.keys().len() + 3
}

/// Whether a check, given some elements and messages, came out as said.
///
/// First the modules are validated one by one, in the order of their names. Then modules are
/// extended, all elements are checked, and the layers are checked.
pub open spec fn came_out<E: Engine>(
    engine: &E,
    plan: CheckPlan,
    check: int,
    before: CheckState,
    after: CheckState,
    passed: bool,
) -> bool {
    let n = plan.modules.keys().len();
    if check < n {
        call_ensures(
            E::validate_module,
            (
                engine,
                before,
                &plan.modules.values()[check],
                plan.extended_check,
                plan.warn_dialectic,
            ),
            (after, passed),
        )
    } else if check == n {
        call_ensures(E::extend_modules, (engine, before, plan.modules), (after, passed))
    } else if check == n + 1 {
        call_ensures(E::check_nodes, (engine, before, plan.excluded_modules), (after, passed))
    } else {
        call_ensures(E::check_layers, (engine, before, plan.layers), (after, passed))
    }
}

/// Whether a run of checks went through these states and came to this end.
///
/// Each check works on what the one before it left. Checks are made as long as they pass, and the
/// run passes if all of them do.
pub open spec fn is_run<E: Engine>(
    engine: &E,
    plan: CheckPlan,
    states: Seq<CheckState>,
    passed: bool,
) -> bool {
    let made = states.len() - 1;
    &&& 1 <= made <= check_count(plan)
    &&& forall|check: int|
        0 <= check < made - 1 ==> came_out(
            engine,
            plan,
            check,
            #[trigger] states[check],
            states[check + 1],
            true,
        )
    &&& came_out(engine, plan, made - 1, states[made - 1], states[made], passed)
    &&& passed ==> made == check_count(plan)
}

/// Whether a run of checks can have turned one state into another and come to this end.
pub open spec fn checked<E: Engine>(
    engine: &E,
    plan: CheckPlan,
    before: CheckState,
    after: CheckState,
    passed: bool,
) -> bool {
    exists|states: Seq<CheckState>| #[trigger]
        is_run(engine, plan, states, passed) && states[0] == before && states.last() == after
}

/// One more check that passed makes a longer run.
proof fn run_goes_on<E: Engine>(
    engine: &E,
    plan: CheckPlan,
    states: Seq<CheckState>,
    next: CheckState,
    passed: bool,
)
    requires
        states.len() >= 1,
        states.len() <= check_count(plan),
        forall|check: int|
            0 <= check < states.len() - 1 ==> came_out(
                engine,
                plan,
                check,
                #[trigger] states[check],
                states[check + 1],
                true,
            ),
        came_out(engine, plan, states.len() - 1, states.last(), next, passed),
        passed ==> states.len() == check_count(plan),
    ensures
        is_run(engine, plan, states.push(next), passed),
{
    let longer = states.push(next);
    assert forall|check: int| 0 <= check < longer.len() - 2 implies came_out(
        engine,
        plan,
        check,
        #[trigger] longer[check],
        longer[check + 1],
        true,
    ) by {
        assert(longer[check] == states[check]);
        assert(longer[check + 1] == states[check + 1]);
    }
}

/// Makes the checks, one after the other, until one of them fails or all are made.
pub fn run_checks<'a, E: Engine>(engine: &E, plan: &CheckPlan<'a>, state: CheckState) -> (result: (
    CheckState,
    bool,
))
    ensures
        checked(engine, *plan, state, result.0, result.1),
{
    let n = plan.modules.len();
    let mut current = state;
    let ghost mut states = seq![state];
    for i in 0..n
        invariant
            n == plan.modules.keys().len(),
            states.len() == i + 1,
            states[0] == state,
            states.last() == current,
            forall|check: int|
                0 <= check < i ==> came_out(
                    engine,
                    *plan,
                    check,
                    #[trigger] states[check],
                    states[check + 1],
                    true,
                ),
    {
        let (next, passed) = engine.validate_module(
            current,
            plan.modules.value_at(i),
            plan.extended_check,
            plan.warn_dialectic,
        );
        if !passed {
            proof {
                run_goes_on(engine, *plan, states, next, passed);
            }
            return (next, false);
        }
        proof {
            let longer = states.push(next);
            assert(longer[i as int] == states[i as int]);
            assert forall|check: int| 0 <= check < i + 1 implies came_out(
                engine,
                *plan,
                check,
                #[trigger] longer[check],
                longer[check + 1],
                true,
            ) by {
                if check < i {
                    assert(longer[check] == states[check]);
                    assert(longer[check + 1] == states[check + 1]);
                }
            }
            states = longer;
        }
        current = next;
    }
    let (extended, passed) = engine.extend_modules(current, plan.modules);
    if !passed {
        proof {
            run_goes_on(engine, *plan, states, extended, passed);
        }
        return (extended, false);
    }
    let ghost until_extended = states.push(extended);
    let (checked, passed) = engine.check_nodes(extended, plan.excluded_modules);
    proof {
        assert forall|check: int| 0 <= check < until_extended.len() - 1 implies came_out(
            engine,
            *plan,
            check,
            #[trigger] until_extended[check],
            until_extended[check + 1],
            true,
        ) by {
            assert(until_extended[check] == states[check]);
            if check < n {
                assert(until_extended[check + 1] == states[check + 1]);
            }
        }
    }
    if !passed {
        proof {
            run_goes_on(engine, *plan, until_extended, checked, passed);
        }
        return (checked, false);
    }
    let ghost until_checked = until_extended.push(checked);
    let (done, passed) = engine.check_layers(checked, plan.layers);
    proof {
        assert forall|check: int| 0 <= check < until_checked.len() - 1 implies came_out(
            engine,
            *plan,
            check,
            #[trigger] until_checked[check],
            until_checked[check + 1],
            true,
        ) by {
            assert(until_checked[check] == until_extended[check]);
            if check < n + 1 {
                assert(until_checked[check + 1] == until_extended[check + 1]);
            }
        }
        run_goes_on(engine, *plan, until_checked, done, passed);
    }
    (done, passed)
}

/// Whether validation and checks can have turned one state into another and come to this end.
///
/// Without any element, or with a module that has none, there is nothing to check and this is
/// complained about. Otherwise it is the run of checks that decides.
pub open spec fn validated<E: Engine>(
    engine: &E,
    plan: CheckPlan,
    before: CheckState,
    after: CheckState,
    passed: bool,
) -> bool {
    let empty = empty_modules(before.nodes@, plan.modules.keys());
    if before.nodes@ == Map::<Seq<char>, GsnNodeView>::empty() {
        &&& !passed
        &&& after.nodes == before.nodes
        &&& after.diags@ == before.diags@.push(
            error_message(None, "No input elements are found."@),
        )
    } else if empty.len() > 0 {
        &&& !passed
        &&& after.nodes == before.nodes
        &&& after.diags@ == before.diags@ + empty_module_messages(empty)
    } else {
        checked(engine, plan, before, after, passed)
    }
}

/// Validates and checks what has been taken in.
///
/// Without any element, or with a module that has none, there is nothing to check and this is
/// complained about. Otherwise the checks are made, one after the other, until one of them fails.
pub fn validate_and_check<E: Engine>(
    engine: &E,
    nodes: &mut Nodes,
    modules: &Modules,
    diags: &mut Diagnostics,
    excluded_modules: &[&str],
    layers: &[&str],
    extended_check: bool,
    warn_dialectic: bool,
) -> (result: Result<(), ValidationOrCheckError>)
    ensures
        validated(
            engine,
            CheckPlan { modules, excluded_modules, layers, extended_check, warn_dialectic },
            CheckState { nodes: *old(nodes), diags: *old(diags) },
            CheckState { nodes: *final(nodes), diags: *final(diags) },
            result is Ok,
        ),
{
    if nodes.is_empty() {
        diags.add_error(None, "No input elements are found.".to_owned());
        return Err(ValidationOrCheckError {  });
    }
    let empty = find_empty_modules(nodes, modules);
    if empty.len() > 0 {
        let ghost names = texts(empty@);
        for i in 0..empty.len()
            invariant
                names == texts(empty@),
                diags@ == old(diags)@ + empty_module_messages(names.take(i as int)),
        {
            let ghost before = diags@;
            diags.add_error(
                Some(empty[i].as_str()),
                "The module does not contain elements.".to_owned(),
            );
            proof {
                assert(names.take(i + 1) == names.take(i as int).push(names[i as int]));
                assert(empty_module_messages(names.take(i + 1)) =~= empty_module_messages(
                    names.take(i as int),
                ).push(error_message(Some(names[i as int]), "The module does not contain elements."@)));
                assert(diags@ =~= old(diags)@ + empty_module_messages(names.take(i + 1)));
            }
        }
        assert(names.take(empty@.len() as int) == names);
        return Err(ValidationOrCheckError {  });
    }
    let mut state = CheckState { nodes: Nodes::new(), diags: Diagnostics::new() };
    std::mem::swap(nodes, &mut state.nodes);
    std::mem::swap(diags, &mut state.diags);
    let plan = CheckPlan { modules, excluded_modules, layers, extended_check, warn_dialectic };
    let (after, passed) = run_checks(engine, &plan, state);
    *nodes = after.nodes;
    *diags = after.diags;
    if passed {
        Ok(())
    } else {
        Err(ValidationOrCheckError {  })
    }
}

} // verus!
