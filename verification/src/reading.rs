//! A whole run of reading: which files it reads, how often, and that it ends.

use vstd::prelude::*;
use vstd::set_lib::*;
use crate::inputs::{
    can_be_accepted, is_duplicate, located_files_are_not_warned_about, next_round, taken_from,
    with_filed_module, with_imports, LoadedFileView, QueueView,
};
use crate::laws::{
    files_keep_consistent, files_only_add, goes_on_from, going_on_is_transitive, is_consistent,
};
use crate::modules::StoreView;
use crate::uses::{are_places_of, used_files, UsePlace};

verus! {

/// The files that are still to be read, in the order in which they are.
pub open spec fn upcoming(queue: QueueView) -> Seq<Seq<char>> {
    queue.pending + queue.found
}

/// Files are read in the order in which they were asked for or found: going on to the next round
/// changes nothing about it, the file that comes next is the first of them, and the rest stays.
pub proof fn files_are_read_in_order(queue: QueueView)
    requires
        upcoming(queue).len() > 0,
    ensures
        upcoming(next_round(queue)) == upcoming(queue),
        next_round(queue).pending.len() > 0,
        next_round(queue).pending[0] == upcoming(queue)[0],
        upcoming(taken_from(queue)) == upcoming(queue).drop_first(),
{
    assert(upcoming(next_round(queue)) =~= upcoming(queue));
    assert(upcoming(taken_from(queue)) =~= upcoming(queue).drop_first());
}

/// One file that is read: its name, what it holds, and where the files that it uses are to be found.
pub struct ReadStep {
    pub input: Seq<char>,
    pub file: LoadedFileView,
    pub places: Seq<UsePlace>,
}

/// How far reading has come: what is still to be read, and what has been taken in.
#[verifier::ext_equal]
pub struct ReadState {
    pub queue: QueueView,
    pub store: StoreView,
}

/// The files that a file uses.
pub open spec fn files_used(step: ReadStep) -> Seq<Seq<char>> {
    used_files(step.file.info.uses, step.places)
}

/// Whether this can be the next file that is read: it is the one that comes next, and it can be
/// accepted.
pub open spec fn is_step(state: ReadState, step: ReadStep) -> bool {
    &&& upcoming(state.queue).len() > 0
    &&& step.input == next_round(state.queue).pending[0]
    &&& are_places_of(step.input, step.file.info.uses, step.places)
    &&& can_be_accepted(state.store, step.file)
}

/// Whether a file is refused because its module is there already. This ends the run.
pub open spec fn is_refused(state: ReadState, step: ReadStep) -> bool {
    is_duplicate(state.store, step.file)
}

/// How far reading has come after one more file.
pub open spec fn after_step(state: ReadState, step: ReadStep) -> ReadState {
    let queue = taken_from(state.queue);
    ReadState {
        queue: with_imports(state.store, queue, step.file, step.places),
        store: with_filed_module(state.store, step.file, step.input, queue.first_run),
    }
}

/// How far reading has come after some files.
pub open spec fn after_steps(start: ReadState, steps: Seq<ReadStep>) -> ReadState
    decreases steps.len(),
{
    if steps.len() == 0 {
        start
    } else {
        after_step(after_steps(start, steps.drop_last()), steps.last())
    }
}

/// Whether these can be the files that are read one after the other, none of them refused.
pub open spec fn all_accepted(start: ReadState, steps: Seq<ReadStep>) -> bool
    decreases steps.len(),
{
    steps.len() > 0 ==> {
        let before = after_steps(start, steps.drop_last());
        &&& all_accepted(start, steps.drop_last())
        &&& is_step(before, steps.last())
        &&& !is_refused(before, steps.last())
    }
}

/// Whether this can be a run of reading that came to a good end: no file was refused, and none is
/// left to be read.
pub open spec fn is_complete(start: ReadState, steps: Seq<ReadStep>) -> bool {
    &&& all_accepted(start, steps)
    &&& upcoming(after_steps(start, steps).queue).len() == 0
}

/// The names of the files that are read, in order.
pub open spec fn inputs_of(steps: Seq<ReadStep>) -> Seq<Seq<char>> {
    steps.map_values(|step: ReadStep| step.input)
}

/// The modules of the files that are read, in order.
pub open spec fn modules_of(steps: Seq<ReadStep>) -> Seq<Seq<char>> {
    steps.map_values(|step: ReadStep| step.file.info.name)
}

/// The files that some files use, one after the other.
pub open spec fn all_used(steps: Seq<ReadStep>) -> Seq<Seq<char>>
    decreases steps.len(),
{
    if steps.len() == 0 {
        Seq::empty()
    } else {
        all_used(steps.drop_last()) + files_used(steps.last())
    }
}

/// At every point of a run, the files that were asked for, and behind them the files that those
/// which were read use, are the files that were read, and behind them those that are still to be
/// read.
pub proof fn reading_goes_by_mention(start: ReadState, steps: Seq<ReadStep>)
    requires
        all_accepted(start, steps),
    ensures
        upcoming(start.queue) + all_used(steps) == inputs_of(steps) + upcoming(
            after_steps(start, steps).queue,
        ),
    decreases steps.len(),
{
    if steps.len() == 0 {
        assert(upcoming(start.queue) + all_used(steps) =~= inputs_of(steps) + upcoming(
            after_steps(start, steps).queue,
        ));
    } else {
        let some = steps.drop_last();
        let last = steps.last();
        let before = after_steps(start, some);
        reading_goes_by_mention(start, some);
        files_are_read_in_order(before.queue);
        assert(inputs_of(steps) =~= inputs_of(some).push(last.input));
        let after = after_steps(start, steps);
        assert(upcoming(after.queue) =~= upcoming(before.queue).drop_first() + files_used(last));
        assert(seq![last.input] + upcoming(before.queue).drop_first() =~= upcoming(before.queue));
        assert(upcoming(start.queue) + all_used(steps) =~= (upcoming(start.queue) + all_used(some))
            + files_used(last));
        assert(inputs_of(steps) + upcoming(after.queue) =~= inputs_of(some) + (seq![last.input]
            + upcoming(before.queue).drop_first()) + files_used(last));
    }
}

/// A run that came to a good end has read the files that were asked for, and behind them every file
/// that one of those which were read uses, as often as it is mentioned.
pub proof fn complete_reading_reads_all(start: ReadState, steps: Seq<ReadStep>)
    requires
        is_complete(start, steps),
    ensures
        inputs_of(steps) == upcoming(start.queue) + all_used(steps),
{
    reading_goes_by_mention(start, steps);
    assert(inputs_of(steps) + upcoming(after_steps(start, steps).queue) =~= inputs_of(steps));
}

/// A run without its last files is a run, and the file after it is the next one.
proof fn earlier_steps_are_accepted(start: ReadState, steps: Seq<ReadStep>, i: int)
    requires
        all_accepted(start, steps),
        0 <= i <= steps.len(),
    ensures
        all_accepted(start, steps.take(i)),
        i < steps.len() ==> {
            &&& is_step(after_steps(start, steps.take(i)), steps[i])
            &&& !is_refused(after_steps(start, steps.take(i)), steps[i])
        },
    decreases steps.len(),
{
    if i == steps.len() {
        assert(steps.take(i) =~= steps);
    } else if i == steps.len() - 1 {
        assert(steps.take(i) =~= steps.drop_last());
    } else {
        earlier_steps_are_accepted(start, steps.drop_last(), i);
        assert(steps.drop_last().take(i) =~= steps.take(i));
    }
}

/// After a run, the modules are those that were there before and those of the files that were read.
pub proof fn modules_after_reading(start: ReadState, steps: Seq<ReadStep>, name: Seq<char>)
    requires
        all_accepted(start, steps),
    ensures
        after_steps(start, steps).store.modules.contains_key(name) <==> {
            ||| start.store.modules.contains_key(name)
            ||| modules_of(steps).contains(name)
        },
    decreases steps.len(),
{
    if steps.len() > 0 {
        let some = steps.drop_last();
        let added = steps.last().file.info.name;
        modules_after_reading(start, some, name);
        assert(modules_of(steps) =~= modules_of(some).push(added));
        assert(modules_of(steps)[some.len() as int] == added);
        if modules_of(some).contains(name) {
            assert(modules_of(steps)[modules_of(some).index_of(name)] == name);
        }
    }
}

/// No module is read twice in a run, nor one that was there before.
pub proof fn no_module_is_read_twice(start: ReadState, steps: Seq<ReadStep>)
    requires
        all_accepted(start, steps),
    ensures
        modules_of(steps).no_duplicates(),
        forall|i: int|
            0 <= i < steps.len() ==> !start.store.modules.contains_key(
                #[trigger] modules_of(steps)[i],
            ),
{
    assert forall|i: int, j: int| 0 <= i < j < steps.len() implies modules_of(steps)[i]
        != modules_of(steps)[j] by {
        earlier_steps_are_accepted(start, steps, j);
        modules_after_reading(start, steps.take(j), modules_of(steps)[i]);
        assert(modules_of(steps.take(j))[i] == modules_of(steps)[i]);
    }
    assert forall|i: int| 0 <= i < steps.len() implies !start.store.modules.contains_key(
        #[trigger] modules_of(steps)[i],
    ) by {
        earlier_steps_are_accepted(start, steps, i);
        modules_after_reading(start, steps.take(i), modules_of(steps)[i]);
    }
}

/// Whether these can be the files that are read one after the other. The last of them may be
/// refused.
pub open spec fn is_reading(start: ReadState, steps: Seq<ReadStep>) -> bool {
    steps.len() > 0 ==> {
        &&& all_accepted(start, steps.drop_last())
        &&& is_step(after_steps(start, steps.drop_last()), steps.last())
    }
}

/// A run of reading keeps all consistent, whether or not its last file is refused.
pub proof fn reading_keeps_consistent(start: ReadState, steps: Seq<ReadStep>)
    requires
        is_consistent(start.store),
        is_reading(start, steps),
    ensures
        is_consistent(after_steps(start, steps).store),
    decreases steps.len(),
{
    if steps.len() > 0 {
        let before = after_steps(start, steps.drop_last());
        let step = steps.last();
        let first_run = taken_from(before.queue).first_run;
        reading_keeps_consistent(start, steps.drop_last());
        files_keep_consistent(before.store, step.file, step.input, first_run, step.places);
        located_files_are_not_warned_about(
            before.store,
            step.file,
            step.input,
            first_run,
            step.places,
        );
    }
}

/// A run of reading only adds to what is there, whether or not its last file is refused.
pub proof fn reading_only_adds(start: ReadState, steps: Seq<ReadStep>)
    requires
        is_reading(start, steps),
    ensures
        goes_on_from(after_steps(start, steps).store, start.store),
    decreases steps.len(),
{
    if steps.len() == 0 {
        assert(start.store.messages =~= start.store.messages.subrange(
            0,
            start.store.messages.len() as int,
        ));
    } else {
        let before = after_steps(start, steps.drop_last());
        let step = steps.last();
        let first_run = taken_from(before.queue).first_run;
        reading_only_adds(start, steps.drop_last());
        files_only_add(before.store, step.file, step.input, first_run, step.places);
        located_files_are_not_warned_about(
            before.store,
            step.file,
            step.input,
            first_run,
            step.places,
        );
        going_on_is_transitive(start.store, before.store, after_steps(start, steps).store);
    }
}

/// A run of reading ends: where the modules of all files are among finitely many, at most that many
/// files are read before one is refused.
pub proof fn reading_ends(start: ReadState, steps: Seq<ReadStep>, names: Set<Seq<char>>)
    requires
        all_accepted(start, steps),
        names.finite(),
        forall|i: int| 0 <= i < steps.len() ==> names.contains(#[trigger] modules_of(steps)[i]),
    ensures
        steps.len() <= names.len(),
{
    no_module_is_read_twice(start, steps);
    let read = modules_of(steps);
    read.unique_seq_to_set();
    assert(read.to_set().subset_of(names));
    lemma_len_subset(read.to_set(), names);
}

/// Once as many files were read as there are modules, the next file is refused.
pub proof fn nothing_more_is_accepted(
    start: ReadState,
    steps: Seq<ReadStep>,
    names: Set<Seq<char>>,
    next: ReadStep,
)
    requires
        all_accepted(start, steps),
        names.finite(),
        forall|i: int| 0 <= i < steps.len() ==> names.contains(#[trigger] modules_of(steps)[i]),
        steps.len() == names.len(),
        is_step(after_steps(start, steps), next),
        names.contains(next.file.info.name),
    ensures
        is_refused(after_steps(start, steps), next),
{
    if !is_refused(after_steps(start, steps), next) {
        let longer = steps.push(next);
        assert(longer.drop_last() =~= steps);
        assert forall|i: int| 0 <= i < longer.len() implies names.contains(
            #[trigger] modules_of(longer)[i],
        ) by {
            if i < steps.len() {
                assert(modules_of(longer)[i] == modules_of(steps)[i]);
            }
        }
        reading_ends(start, longer, names);
    }
}

/// Whether a run found what reading files gives, the same for the same name each time.
pub open spec fn is_reading_of(found: spec_fn(Seq<char>) -> ReadStep, steps: Seq<ReadStep>) -> bool {
    forall|i: int| 0 <= i < steps.len() ==> #[trigger] steps[i] == found(steps[i].input)
}

/// Whether files lead from one that was asked for on to others, each used by the one before it.
pub open spec fn is_chain(
    asked: Seq<Seq<char>>,
    found: spec_fn(Seq<char>) -> ReadStep,
    chain: Seq<Seq<char>>,
) -> bool {
    &&& chain.len() > 0
    &&& asked.contains(chain[0])
    &&& forall|i: int|
        0 < i < chain.len() ==> files_used(found(chain[i - 1])).contains(#[trigger] chain[i])
}

/// Whether a file was asked for, or is used by one that is reachable.
pub open spec fn is_reachable(
    asked: Seq<Seq<char>>,
    found: spec_fn(Seq<char>) -> ReadStep,
    name: Seq<char>,
) -> bool {
    exists|chain: Seq<Seq<char>>| #[trigger]
        is_chain(asked, found, chain) && chain.last() == name
}

/// What some files use is used by one of them.
proof fn used_by_one(steps: Seq<ReadStep>, name: Seq<char>)
    ensures
        all_used(steps).contains(name) <==> exists|i: int|
            0 <= i < steps.len() && files_used(#[trigger] steps[i]).contains(name),
    decreases steps.len(),
{
    if steps.len() > 0 {
        let some = steps.drop_last();
        let last = files_used(steps.last());
        used_by_one(some, name);
        let all = all_used(steps);
        assert(all == all_used(some) + last);
        if all.contains(name) {
            let k = all.index_of(name);
            if k < all_used(some).len() {
                assert(all_used(some)[k] == name);
                let i = choose|i: int|
                    0 <= i < some.len() && files_used(#[trigger] some[i]).contains(name);
                assert(files_used(steps[i]).contains(name));
            } else {
                assert(last[k - all_used(some).len()] == name);
                assert(files_used(steps[steps.len() - 1]).contains(name));
            }
        }
        if exists|i: int| 0 <= i < steps.len() && files_used(#[trigger] steps[i]).contains(name) {
            let i = choose|i: int|
                0 <= i < steps.len() && files_used(#[trigger] steps[i]).contains(name);
            if i < some.len() {
                assert(files_used(some[i]).contains(name));
                assert(all[all_used(some).index_of(name)] == name);
            } else {
                assert(all[all_used(some).len() + last.index_of(name)] == name);
            }
        }
    }
}

/// Every file that is read is reachable.
proof fn read_files_are_reachable(
    start: ReadState,
    found: spec_fn(Seq<char>) -> ReadStep,
    steps: Seq<ReadStep>,
    i: int,
)
    requires
        all_accepted(start, steps),
        is_reading_of(found, steps),
        0 <= i < steps.len(),
    ensures
        is_reachable(upcoming(start.queue), found, steps[i].input),
    decreases i,
{
    let asked = upcoming(start.queue);
    let name = steps[i].input;
    let some = steps.take(i);
    earlier_steps_are_accepted(start, steps, i);
    reading_goes_by_mention(start, some);
    let before = after_steps(start, some);
    files_are_read_in_order(before.queue);
    let mentioned = asked + all_used(some);
    assert(some.len() == i);
    assert(mentioned.len() > i);
    assert(mentioned[i] == name);
    if i < asked.len() {
        let chain = seq![name];
        assert(is_chain(asked, found, chain));
        assert(chain.last() == name);
    } else {
        assert(all_used(some)[i - asked.len()] == name);
        used_by_one(some, name);
        let j = choose|j: int| 0 <= j < some.len() && files_used(#[trigger] some[j]).contains(name);
        assert(some[j] == steps[j]);
        read_files_are_reachable(start, found, steps, j);
        let chain = choose|chain: Seq<Seq<char>>| #[trigger]
            is_chain(asked, found, chain) && chain.last() == steps[j].input;
        let longer = chain.push(name);
        assert forall|k: int| 0 < k < longer.len() implies files_used(
            found(longer[k - 1]),
        ).contains(#[trigger] longer[k]) by {
            if k < chain.len() {
                assert(longer[k] == chain[k]);
                assert(longer[k - 1] == chain[k - 1]);
            } else {
                assert(longer[k - 1] == chain.last());
                assert(steps[j] == found(steps[j].input));
            }
        }
        assert(longer[0] == chain[0]);
        assert(is_chain(asked, found, longer));
        assert(longer.last() == name);
    }
}

/// Every file at the end of a chain is read.
proof fn chains_are_read(
    start: ReadState,
    found: spec_fn(Seq<char>) -> ReadStep,
    steps: Seq<ReadStep>,
    chain: Seq<Seq<char>>,
)
    requires
        is_complete(start, steps),
        is_reading_of(found, steps),
        is_chain(upcoming(start.queue), found, chain),
    ensures
        inputs_of(steps).contains(chain.last()),
    decreases chain.len(),
{
    let asked = upcoming(start.queue);
    let all = asked + all_used(steps);
    complete_reading_reads_all(start, steps);
    if chain.len() == 1 {
        assert(all[asked.index_of(chain[0])] == chain[0]);
    } else {
        let shorter = chain.drop_last();
        assert forall|k: int| 0 < k < shorter.len() implies files_used(
            found(shorter[k - 1]),
        ).contains(#[trigger] shorter[k]) by {
            assert(shorter[k] == chain[k]);
            assert(shorter[k - 1] == chain[k - 1]);
        }
        assert(shorter[0] == chain[0]);
        assert(is_chain(asked, found, shorter));
        chains_are_read(start, found, steps, shorter);
        let j = inputs_of(steps).index_of(shorter.last());
        assert(steps[j].input == chain[chain.len() - 2]);
        assert(steps[j] == found(steps[j].input));
        assert(files_used(found(chain[chain.len() - 2])).contains(chain[chain.len() - 1]));
        assert(files_used(steps[j]).contains(chain.last()));
        used_by_one(steps, chain.last());
        assert(all[asked.len() + all_used(steps).index_of(chain.last())] == chain.last());
    }
}

/// A run that came to a good end has read exactly the files that are reachable from those that were
/// asked for through the files that they use, each of them once.
pub proof fn reading_finds_what_is_reachable(
    start: ReadState,
    found: spec_fn(Seq<char>) -> ReadStep,
    steps: Seq<ReadStep>,
)
    requires
        is_complete(start, steps),
        is_reading_of(found, steps),
    ensures
        forall|name: Seq<char>| #[trigger]
            inputs_of(steps).contains(name) <==> is_reachable(upcoming(start.queue), found, name),
        inputs_of(steps).no_duplicates(),
{
    assert forall|name: Seq<char>| #[trigger]
        inputs_of(steps).contains(name) <==> is_reachable(
            upcoming(start.queue),
            found,
            name,
        ) by {
        if inputs_of(steps).contains(name) {
            read_files_are_reachable(start, found, steps, inputs_of(steps).index_of(name));
        }
        if is_reachable(upcoming(start.queue), found, name) {
            let chain = choose|chain: Seq<Seq<char>>| #[trigger]
                is_chain(upcoming(start.queue), found, chain) && chain.last() == name;
            chains_are_read(start, found, steps, chain);
        }
    }
    no_module_is_read_twice(start, steps);
    assert forall|i: int, j: int| 0 <= i < j < steps.len() implies inputs_of(steps)[i]
        != inputs_of(steps)[j] by {
        assert(steps[i] == found(steps[i].input));
        assert(steps[j] == found(steps[j].input));
        assert(modules_of(steps)[i] != modules_of(steps)[j]);
    }
}

/// The files that were asked for are mentioned once, and so is every file that one of those which
/// were read uses, if the run came to a good end. A file that is mentioned twice, or files that use
/// each other in a circle, keep it from that.
pub proof fn nothing_is_mentioned_twice(
    start: ReadState,
    found: spec_fn(Seq<char>) -> ReadStep,
    steps: Seq<ReadStep>,
)
    requires
        is_complete(start, steps),
        is_reading_of(found, steps),
    ensures
        (upcoming(start.queue) + all_used(steps)).no_duplicates(),
{
    complete_reading_reads_all(start, steps);
    reading_finds_what_is_reachable(start, found, steps);
}

} // verus!
