//! What holds of strings, their order, and maps from strings, character by character.

use vstd::prelude::*;
use vstd::seq_lib::*;
use crate::diagnostics::opt_text;
use crate::order::{
    not_after, not_after_is_total, sorted_texts, text_before, text_before_irreflexive,
};
use crate::text::{decimal, joined, replaced, texts};
use crate::text_map::{lemma_entry, lemma_place, TextMap};
use crate::uses::forward_slashes;

verus! {

/// What a list of strings says is what each of its strings says, in the same order.
pub proof fn lists_say_what_their_strings_say(list: Seq<String>)
    ensures
        texts(list).len() == list.len(),
        forall|i: int| 0 <= i < list.len() ==> #[trigger] texts(list)[i] == list[i]@,
{
}

/// What an optional string says is what the string says.
pub proof fn options_say_what_their_string_says(text: Option<String>)
    ensures
        text is Some <==> opt_text(text) is Some,
        text is Some ==> opt_text(text)->0 == text->0@,
{
}

/// Turning one character into another keeps the length, turns exactly the places with the one
/// character, and leaves every other place as it is.
pub proof fn replacing_changes_one_character(text: Seq<char>, from: char, to: char)
    ensures
        replaced(text, from, to).len() == text.len(),
        forall|i: int|
            0 <= i < text.len() && text[i] == from ==> #[trigger] replaced(text, from, to)[i] == to,
        forall|i: int|
            0 <= i < text.len() && text[i] != from ==> #[trigger] replaced(text, from, to)[i]
                == text[i],
{
}

/// A path with forward slashes has one wherever there was a slash of either kind, and is otherwise
/// the path.
pub proof fn slashes_are_turned(path: Seq<char>)
    ensures
        forward_slashes(path).len() == path.len(),
        forall|i: int|
            0 <= i < path.len() ==> ((#[trigger] forward_slashes(path)[i] == '/') <==> (path[i]
                == '/' || path[i] == '\\')),
        forall|i: int|
            0 <= i < path.len() && path[i] != '\\' ==> #[trigger] forward_slashes(path)[i]
                == path[i],
        !forward_slashes(path).contains('\\'),
{
}

/// Which of two names comes first is decided where they first differ: there the smaller code point
/// comes first, and a name that ends comes before one that goes on.
pub proof fn first_difference_decides(a: Seq<char>, b: Seq<char>, k: int)
    requires
        0 <= k <= a.len(),
        k <= b.len(),
        forall|j: int| 0 <= j < k ==> a[j] == b[j],
        k < a.len() && k < b.len() ==> a[k] != b[k],
    ensures
        text_before(a, b) <==> k < b.len() && (k == a.len() || (k < a.len() && (a[k] as int) < (
        b[k] as int))),
    decreases k,
{
    if k > 0 {
        let (p, q) = (a.drop_first(), b.drop_first());
        assert(a[0] == b[0]);
        assert forall|j: int| 0 <= j < k - 1 implies p[j] == q[j] by {
            assert(a[j + 1] == b[j + 1]);
        }
        first_difference_decides(p, q, k - 1);
    }
}

/// The decimal form of a number below ten is its digit. That of a larger number is the form of its
/// tenth, followed by the digit that is left over.
pub proof fn decimal_digits(n: nat)
    ensures
        decimal(n).len() > 0,
        decimal(n).last() as int == 48 + n % 10,
        n < 10 ==> decimal(n).len() == 1,
        n >= 10 ==> decimal(n).drop_last() == decimal(n / 10),
{
    if n >= 10 {
        assert(decimal(n).drop_last() =~= decimal(n / 10));
    }
}

/// Joining nothing gives nothing, joining one part gives this part, and one more part comes at the
/// end, behind a separator.
pub proof fn joining_part_by_part(parts: Seq<Seq<char>>, separator: Seq<char>, next: Seq<char>)
    ensures
        joined(Seq::empty(), separator) == Seq::<char>::empty(),
        joined(seq![next], separator) == next,
        parts.len() > 0 ==> joined(parts.push(next), separator) == joined(parts, separator)
            + separator + next,
{
    assert(parts.push(next).drop_last() =~= parts);
}

/// A sorted list holds each name as often as the list, and no name before one that comes first.
pub proof fn sorting_orders(list: Seq<Seq<char>>)
    ensures
        sorted_texts(list).to_multiset() == list.to_multiset(),
        sorted_texts(list).len() == list.len(),
        forall|i: int, j: int|
            0 <= i < j < list.len() ==> !text_before(
                #[trigger] sorted_texts(list)[j],
                #[trigger] sorted_texts(list)[i],
            ),
{
    not_after_is_total();
    list.lemma_sort_by_ensures(not_after());
    let sorted = sorted_texts(list);
    assert(sorted.len() == list.len()) by {
        broadcast use group_to_multiset_ensures;

        assert(sorted.to_multiset().len() == list.to_multiset().len());
    }
    let leq = not_after();
    assert forall|i: int, j: int| 0 <= i < j < list.len() implies !text_before(
        #[trigger] sorted[j],
        #[trigger] sorted[i],
    ) by {
        assert(leq(sorted[i], sorted[j]));
    }
}

/// A list that is in order is what sorting gives for every list of the same names.
pub proof fn sorting_does_not_depend_on_the_order(list: Seq<Seq<char>>, other: Seq<Seq<char>>)
    requires
        list.to_multiset() == other.to_multiset(),
    ensures
        sorted_texts(list) == sorted_texts(other),
{
    not_after_is_total();
    list.lemma_sort_by_ensures(not_after());
    other.lemma_sort_by_ensures(not_after());
    lemma_sorted_unique(sorted_texts(list), sorted_texts(other), not_after());
}

/// A map is walked through every name that it holds, each once, one that comes before another
/// first, and at each name the value under it is met.
pub proof fn maps_are_walked_in_order<V: View>(map: TextMap<V>)
    requires
        map.well_formed(),
    ensures
        map.values().len() == map.keys().len(),
        forall|i: int, j: int|
            0 <= i < j < map.keys().len() ==> text_before(
                #[trigger] map.keys()[i],
                #[trigger] map.keys()[j],
            ),
        map.keys().no_duplicates(),
        forall|i: int|
            0 <= i < map.keys().len() ==> map@.contains_key(#[trigger] map.keys()[i]),
        forall|i: int|
            0 <= i < map.keys().len() ==> map@[map.keys()[i]] == (#[trigger] map.values()[i])@,
        forall|name: Seq<char>| #[trigger]
            map@.contains_key(name) ==> map.keys().contains(name),
        map@.dom() == map.keys().to_set(),
{
    let keys = map.keys();
    assert forall|i: int| 0 <= i < keys.len() implies map@.contains_key(#[trigger] keys[i]) by {
        lemma_entry(map, i);
    }
    assert forall|i: int| 0 <= i < keys.len() implies map@[keys[i]] == (
    #[trigger] map.values()[i])@ by {
        lemma_entry(map, i);
    }
    assert forall|name: Seq<char>| #[trigger] map@.contains_key(name) implies keys.contains(
        name,
    ) by {
        let i = lemma_place(map, name);
    }
    assert forall|i: int, j: int| 0 <= i < j < keys.len() implies keys[i] != keys[j] by {
        assert(text_before(keys[i], keys[j]));
        text_before_irreflexive(keys[i]);
    }
    assert(map@.dom() =~= keys.to_set());
}

} // verus!
