//! The order of names: comparing them, and sorting lists of them.

use vstd::prelude::*;
use vstd::relations::*;
use vstd::seq_lib::*;
use crate::text::{characters, texts};

verus! {

/// The order of names: character by character, a proper prefix first.
///
/// Strings of the standard library are ordered the same way: by their bytes, which orders
/// characters by their code points.
pub open spec fn text_before(a: Seq<char>, b: Seq<char>) -> bool
    decreases a.len(),
{
    if b.len() == 0 {
        false
    } else if a.len() == 0 {
        true
    } else if a[0] == b[0] {
        text_before(a.drop_first(), b.drop_first())
    } else {
        a[0] < b[0]
    }
}

/// No name comes before itself.
pub proof fn text_before_irreflexive(a: Seq<char>)
    ensures
        !text_before(a, a),
    decreases a.len(),
{
    if a.len() > 0 {
        text_before_irreflexive(a.drop_first());
    }
}

/// If one name comes before a second and that before a third, the first comes before the third.
pub proof fn text_before_transitive(a: Seq<char>, b: Seq<char>, c: Seq<char>)
    requires
        text_before(a, b),
        text_before(b, c),
    ensures
        text_before(a, c),
    decreases a.len(),
{
    if a.len() > 0 && a[0] == b[0] && b[0] == c[0] {
        text_before_transitive(a.drop_first(), b.drop_first(), c.drop_first());
    }
}

/// Two names are equal, or exactly one of them comes before the other.
pub proof fn text_before_total(a: Seq<char>, b: Seq<char>)
    ensures
        text_before(a, b) || a == b || text_before(b, a),
        !(text_before(a, b) && text_before(b, a)),
        a == b ==> !text_before(a, b),
    decreases a.len(),
{
    if a == b {
        text_before_irreflexive(a);
    }
    if a.len() > 0 && b.len() > 0 && a[0] == b[0] {
        text_before_total(a.drop_first(), b.drop_first());
        if a.drop_first() == b.drop_first() {
            assert(a == seq![a[0]] + a.drop_first());
            assert(b == seq![b[0]] + b.drop_first());
        }
    } else if a.len() == 0 && b.len() == 0 {
        assert(a == b);
    }
}

/// The outcome of comparing two names.
#[derive(Clone, Copy, Debug, PartialEq, Eq, Structural)]
pub enum TextOrder {
    Before,
    Same,
    After,
}

proof fn skip_step(a: Seq<char>, b: Seq<char>, i: int)
    requires
        0 <= i < a.len(),
        i < b.len(),
        a[i] == b[i],
    ensures
        text_before(a.skip(i), b.skip(i)) == text_before(a.skip(i + 1), b.skip(i + 1)),
{
    assert(a.skip(i).drop_first() == a.skip(i + 1));
    assert(b.skip(i).drop_first() == b.skip(i + 1));
}

/// Compares two names.
pub fn compare_text(a: &str, b: &str) -> (order: TextOrder)
    ensures
        order == TextOrder::Before <==> text_before(a@, b@),
        order == TextOrder::Same <==> a@ == b@,
        order == TextOrder::After <==> text_before(b@, a@),
{
    let x = characters(a);
    let y = characters(b);
    let mut i: usize = 0;
    proof {
        assert(x@.skip(0) == x@);
        assert(y@.skip(0) == y@);
        text_before_total(a@, b@);
    }
    while i < x.len() && i < y.len() && x[i] == y[i]
        invariant
            x@ == a@,
            y@ == b@,
            i <= x@.len(),
            i <= y@.len(),
            forall|j: int| 0 <= j < i ==> x@[j] == y@[j],
            text_before(a@, b@) == text_before(x@.skip(i as int), y@.skip(i as int)),
            text_before(b@, a@) == text_before(y@.skip(i as int), x@.skip(i as int)),
        decreases x@.len() - i,
    {
        proof {
            skip_step(x@, y@, i as int);
            skip_step(y@, x@, i as int);
        }
        i += 1;
    }
    if i < x.len() && i < y.len() {
        if x[i] < y[i] {
            TextOrder::Before
        } else {
            TextOrder::After
        }
    } else if i < y.len() {
        TextOrder::Before
    } else if i < x.len() {
        TextOrder::After
    } else {
        assert(a@ == b@);
        TextOrder::Same
    }
}

/// "Not after" as a relation, the form in which sequences are sorted.
pub open spec fn not_after() -> spec_fn(Seq<char>, Seq<char>) -> bool {
    |a: Seq<char>, b: Seq<char>| !text_before(b, a)
}

/// The order of names is total.
pub proof fn not_after_is_total()
    ensures
        total_ordering(not_after()),
{
    let leq = not_after();
    assert forall|a: Seq<char>| #[trigger] leq(a, a) by {
        text_before_irreflexive(a);
    }
    assert forall|a: Seq<char>, b: Seq<char>| #[trigger] leq(a, b) && #[trigger] leq(b, a) implies a
        == b by {
        text_before_total(a, b);
    }
    assert forall|a: Seq<char>, b: Seq<char>| #[trigger] leq(a, b) || #[trigger] leq(b, a) by {
        text_before_total(a, b);
    }
    assert forall|a: Seq<char>, b: Seq<char>, c: Seq<char>| #[trigger]
        leq(a, b) && #[trigger] leq(b, c) implies leq(a, c) by {
        text_before_total(a, b);
        text_before_total(b, c);
        text_before_total(a, c);
        if text_before(a, b) && text_before(b, c) {
            text_before_transitive(a, b, c);
        }
    }
}

/// A list of names in order; names that occur several times are kept.
pub open spec fn sorted_texts(list: Seq<Seq<char>>) -> Seq<Seq<char>> {
    list.sort_by(not_after())
}

/// Sorts a list of names.
pub fn sort_texts(list: Vec<String>) -> (sorted: Vec<String>)
    ensures
        texts(sorted@) == sorted_texts(texts(list@)),
{
    let mut rest = list;
    let mut sorted: Vec<String> = Vec::new();
    proof {
        not_after_is_total();
        assert(texts(sorted@).to_multiset().add(texts(rest@).to_multiset()) =~= texts(
            list@,
        ).to_multiset()) by {
            broadcast use group_to_multiset_ensures;

            assert(texts(sorted@) == Seq::<Seq<char>>::empty());
        }
    }
    while rest.len() > 0
        invariant
            total_ordering(not_after()),
            sorted_by(texts(sorted@), not_after()),
            texts(sorted@).to_multiset().add(texts(rest@).to_multiset()) =~= texts(
                list@,
            ).to_multiset(),
        decreases rest@.len(),
    {
        let ghost rest_before = rest@;
        let ghost sorted_before = sorted@;
        match rest.pop() {
            Some(name) => {
                let mut i: usize = 0;
                while i < sorted.len() && compare_text(sorted[i].as_str(), name.as_str())
                    != TextOrder::After
                    invariant
                        i <= sorted@.len(),
                        sorted@ == sorted_before,
                        forall|j: int| 0 <= j < i ==> !text_before(name@, sorted@[j]@),
                    ensures
                        i <= sorted@.len(),
                        sorted@ == sorted_before,
                        forall|j: int| 0 <= j < i ==> !text_before(name@, sorted@[j]@),
                        i < sorted@.len() ==> text_before(name@, sorted@[i as int]@),
                    decreases sorted@.len() - i,
                {
                    proof {
                        text_before_total(sorted@[i as int]@, name@);
                    }
                    i += 1;
                }
                let ghost text = name@;
                sorted.insert(i, name);
                proof {
                    insert_keeps_order(texts(sorted_before), i as int, text);
                    assert(texts(sorted@) == texts(sorted_before).insert(i as int, text));
                    assert(texts(rest_before) == texts(rest@).push(text));
                    broadcast use group_to_multiset_ensures;

                }
            },
            None => {},
        }
    }
    proof {
        broadcast use group_to_multiset_ensures;

        assert(texts(rest@) == Seq::<Seq<char>>::empty());
        assert(texts(sorted@).to_multiset() =~= texts(list@).to_multiset());
        texts(list@).lemma_sort_by_ensures(not_after());
        lemma_sorted_unique(texts(sorted@), sorted_texts(texts(list@)), not_after());
    }
    sorted
}

proof fn insert_keeps_order(s: Seq<Seq<char>>, i: int, text: Seq<char>)
    requires
        sorted_by(s, not_after()),
        0 <= i <= s.len(),
        forall|j: int| 0 <= j < i ==> !text_before(text, s[j]),
        i < s.len() ==> text_before(text, s[i]),
    ensures
        sorted_by(s.insert(i, text), not_after()),
{
    let leq = not_after();
    let t = s.insert(i, text);
    assert forall|j: int, k: int| 0 <= j < k < t.len() implies #[trigger] leq(t[j], t[k]) by {
        if j < i && k > i {
            assert(leq(s[j], s[k - 1]));
        } else if j < i && k < i {
            assert(leq(s[j], s[k]));
        } else if j > i {
            assert(leq(s[j - 1], s[k - 1]));
        } else if j == i {
            assert(leq(s[i], s[k - 1]) || k - 1 == i);
            text_before_total(text, s[k - 1]);
            text_before_total(s[i], s[k - 1]);
            if text_before(s[i], s[k - 1]) {
                text_before_transitive(text, s[i], s[k - 1]);
            }
        }
    }
}

} // verus!
