//! Lists of names: the small lookups that the passes make in them.

use vstd::prelude::*;
use vstd::string::*;
use crate::lexer::same_text;

verus! {

/// The views of a sequence of names.
pub open spec fn names_view(names: Seq<String>) -> Seq<Seq<char>> {
    names.map_values(|name: String| name@)
}

/// The index of the first occurrence of `name` in `names`, or the length of
/// `names` where it does not occur.
pub open spec fn position(names: Seq<Seq<char>>, name: Seq<char>) -> nat
    decreases names.len(),
{
    if names.len() == 0 || names[0] == name {
        0
    } else {
        1 + position(names.drop_first(), name)
    }
}

/// A position is an index at which the name stands, or the length of the
/// sequence where the name does not occur in it.
pub proof fn lemma_position_bound(names: Seq<Seq<char>>, name: Seq<char>)
    ensures
        position(names, name) <= names.len(),
        position(names, name) < names.len() ==> names[position(names, name) as int] == name,
        position(names, name) < names.len() <==> names.contains(name),
    decreases names.len(),
{
    if !(names.len() == 0 || names[0] == name) {
        lemma_position_bound(names.drop_first(), name);
        if names.contains(name) {
            let i = choose|i: int| 0 <= i < names.len() && names[i] == name;
            assert(names.drop_first()[i - 1] == name);
        }
        if names.drop_first().contains(name) {
            let i = choose|i: int|
                0 <= i < names.drop_first().len() && names.drop_first()[i] == name;
            assert(names[i + 1] == name);
        }
    } else if names.len() > 0 {
        assert(names[0] == name);
    }
}

/// The index of `name` among `names`, or their number where it is not
/// among them.
pub fn find_name(names: &Vec<String>, name: &str) -> (index: usize)
    ensures
        index == position(names_view(names@), name@),
        index <= names.len(),
        index < names.len() <==> names_view(names@).contains(name@),
{
    let ghost all = names_view(names@);
    let mut i: usize = 0;
    proof {
        lemma_position_bound(all, name@);
        assert(all.skip(0) =~= all);
    }
    while i < names.len()
        invariant
            i <= names.len(),
            all == names_view(names@),
            position(all, name@) == i + position(all.skip(i as int), name@),
        decreases names.len() - i,
    {
        if same_text(names[i].as_str(), name) {
            return i;
        }
        assert(all.skip(i as int).drop_first() =~= all.skip(i + 1));
        i += 1;
    }
    i
}

/// Whether some name occurs twice among `names`.
pub fn has_duplicates(names: &Vec<String>) -> (twice: bool)
    ensures
        twice == !names_view(names@).no_duplicates(),
{
    let ghost all = names_view(names@);
    let mut i: usize = 0;
    while i < names.len()
        invariant
            i <= names.len(),
            all == names_view(names@),
            forall|a: int, b: int| 0 <= a < b < i ==> all[a] != all[b],
        decreases names.len() - i,
    {
        let mut j: usize = 0;
        while j < i
            invariant
                j <= i < names.len(),
                all == names_view(names@),
                forall|a: int| 0 <= a < j ==> all[a] != all[i as int],
            decreases i - j,
        {
            if same_text(names[j].as_str(), names[i].as_str()) {
                assert(all[j as int] == all[i as int]);
                return true;
            }
            j += 1;
        }
        i += 1;
    }
    assert forall|a: int, b: int| 0 <= a < all.len() && 0 <= b < all.len() && a != b implies all[a]
        != all[b] by {
        if a < b {
            assert(all[a] != all[b]);
        } else {
            assert(all[b] != all[a]);
        }
    }
    false
}

} // verus!
