//! Lists of names: finding one, and finding the first that is repeated or
//! unknown.

use vstd::prelude::*;

use crate::text;
use crate::text::same;

verus! {

/// Where `name` first stands among `names`; their number where it does not.
pub open spec fn position(names: Seq<Seq<char>>, name: Seq<char>) -> nat
    decreases names.len(),
{
    if names.len() == 0 || names[0] == name {
        0
    } else {
        1 + position(names.skip(1), name)
    }
}

/// [`position`] is at most the length; nothing before it is the name, and what
/// stands at it is.
pub proof fn lemma_position(names: Seq<Seq<char>>, name: Seq<char>)
    ensures
        position(names, name) <= names.len(),
        forall|k: int| 0 <= k < position(names, name) ==> names[k] != name,
        position(names, name) < names.len() ==> names[position(names, name) as int] == name,
    decreases names.len(),
{
    if names.len() != 0 && names[0] != name {
        lemma_position(names.skip(1), name);
        assert forall|k: int| 0 <= k < position(names, name) implies names[k] != name by {
            if k > 0 {
                assert(names[k] == names.skip(1)[k - 1]);
            }
        }
    }
}

/// The place found by a search from the front is [`position`].
pub proof fn lemma_position_is(names: Seq<Seq<char>>, name: Seq<char>, i: nat)
    requires
        i <= names.len(),
        forall|k: int| 0 <= k < i ==> names[k] != name,
        i < names.len() ==> names[i as int] == name,
    ensures
        position(names, name) == i,
{
    lemma_position(names, name);
    let p = position(names, name);
    if p < i {
        assert(names[p as int] != name);
    }
    if i < p {
        assert(names[i as int] != name);
    }
}

/// The first of the names at or after `from` that stands among those before it;
/// their number where all are distinct.
pub open spec fn first_repeated(names: Seq<Seq<char>>, from: int) -> int
    decreases names.len() - from,
{
    if from >= names.len() {
        names.len() as int
    } else if position(names, names[from]) < from {
        from
    } else {
        first_repeated(names, from + 1)
    }
}

/// The first of the names at or after `from` that is not among `known`; their
/// number where all are.
pub open spec fn first_unknown(
    names: Seq<Seq<char>>,
    known: Seq<Seq<char>>,
    from: int,
) -> int
    decreases names.len() - from,
{
    if from >= names.len() {
        names.len() as int
    } else if position(known, names[from]) >= known.len() {
        from
    } else {
        first_unknown(names, known, from + 1)
    }
}

/// Where `name` first stands in a list of names.
pub fn find_name(names: &Vec<String>, name: &str) -> (r: usize)
    ensures
        r == position(text::texts(names@), name@),
        r <= names@.len(),
{
    let ghost all = text::texts(names@);
    let mut i: usize = 0;
    while i < names.len()
        invariant
            i <= names@.len(),
            all == text::texts(names@),
            forall|k: int| 0 <= k < i ==> all[k] != name@,
        decreases names@.len() - i,
    {
        assert(all[i as int] == names@[i as int]@);
        if same(names[i].as_str(), name) {
            proof {
                lemma_position_is(all, name@, i as nat);
            }
            return i;
        }
        i = i + 1;
    }
    proof {
        lemma_position_is(all, name@, i as nat);
    }
    i
}

} // verus!
