//! The order of strings: character by character, a proper prefix first.

use vstd::prelude::*;

verus! {

/// `left` comes no later than `right`.
pub open spec fn text_le(left: Seq<char>, right: Seq<char>) -> bool
    decreases left.len(),
{
    if left.len() == 0 {
        true
    } else if right.len() == 0 {
        false
    } else if left[0] != right[0] {
        left[0] < right[0]
    } else {
        text_le(left.drop_first(), right.drop_first())
    }
}

/// `left` comes strictly before `right`.
pub open spec fn text_lt(left: Seq<char>, right: Seq<char>) -> bool {
    text_le(left, right) && left != right
}

/// The later of two strings.
pub open spec fn text_max(left: Seq<char>, right: Seq<char>) -> Seq<char> {
    if text_le(left, right) {
        right
    } else {
        left
    }
}

/// Every string comes no later than itself.
pub proof fn text_le_reflexive(text: Seq<char>)
    ensures
        text_le(text, text),
    decreases text.len(),
{
    if text.len() > 0 {
        text_le_reflexive(text.drop_first());
    }
}

/// Of any two strings one comes no later than the other.
pub proof fn text_le_total(left: Seq<char>, right: Seq<char>)
    ensures
        text_le(left, right) || text_le(right, left),
    decreases left.len(),
{
    if left.len() > 0 && right.len() > 0 && left[0] == right[0] {
        text_le_total(left.drop_first(), right.drop_first());
    }
}

/// Two strings that come no later than each other are the same.
pub proof fn text_le_antisymmetric(left: Seq<char>, right: Seq<char>)
    requires
        text_le(left, right),
        text_le(right, left),
    ensures
        left == right,
    decreases left.len(),
{
    if left.len() > 0 {
        text_le_antisymmetric(left.drop_first(), right.drop_first());
        assert(left == seq![left[0]] + left.drop_first());
        assert(right == seq![right[0]] + right.drop_first());
    } else {
        assert(left == right);
    }
}

/// The order of strings is transitive.
pub proof fn text_le_transitive(first: Seq<char>, second: Seq<char>, third: Seq<char>)
    requires
        text_le(first, second),
        text_le(second, third),
    ensures
        text_le(first, third),
    decreases first.len(),
{
    if first.len() > 0 && first[0] == second[0] && second[0] == third[0] {
        text_le_transitive(first.drop_first(), second.drop_first(), third.drop_first());
    }
}

/// Strings are ordered by the first place in which they differ: there the smaller character comes
/// first. Where one ends before they differ, the shorter comes first.
pub proof fn the_first_difference_decides(left: Seq<char>, right: Seq<char>, place: int)
    requires
        0 <= place <= left.len(),
        place <= right.len(),
        forall|i: int| 0 <= i < place ==> #[trigger] left[i] == right[i],
    ensures
        place < left.len() && place < right.len() && left[place] != right[place] ==> text_le(
            left,
            right,
        ) == (left[place] < right[place]),
        place == left.len() ==> text_le(left, right),
        place == right.len() && place < left.len() ==> !text_le(left, right),
    decreases place,
{
    if place > 0 {
        assert(left[0] == right[0]);
        assert forall|i: int| 0 <= i < place - 1 implies #[trigger] left.drop_first()[i]
            == right.drop_first()[i] by {
            assert(left[i + 1] == right[i + 1]);
        }
        the_first_difference_decides(left.drop_first(), right.drop_first(), place - 1);
    }
}

/// The later of two strings is one of them, and neither comes after it.
pub proof fn the_later_string_is_one_of_two(left: Seq<char>, right: Seq<char>)
    ensures
        text_max(left, right) == left || text_max(left, right) == right,
        text_le(left, text_max(left, right)),
        text_le(right, text_max(left, right)),
        text_lt(left, right) <==> text_le(left, right) && left != right,
{
    text_le_reflexive(left);
    text_le_reflexive(right);
    text_le_total(left, right);
}

/// Whether `left` comes no later than `right`.
pub fn text_at_most(left: &str, right: &str) -> (result: bool)
    ensures
        result == text_le(left@, right@),
{
    let mut left_chars = left.chars();
    let mut right_chars = right.chars();
    loop
        invariant
            vstd::std_specs::iter::IteratorSpec::obeys_prophetic_iter_laws(&left_chars),
            vstd::std_specs::iter::IteratorSpec::obeys_prophetic_iter_laws(&right_chars),
            vstd::std_specs::iter::IteratorSpec::decrease(&left_chars) is Some,
            text_le(left@, right@) == text_le(
                vstd::std_specs::iter::IteratorSpec::remaining(&left_chars),
                vstd::std_specs::iter::IteratorSpec::remaining(&right_chars),
            ),
        decreases vstd::std_specs::iter::IteratorSpec::decrease(&left_chars)->0,
    {
        match left_chars.next() {
            None => {
                return true;
            },
            Some(left_char) => match right_chars.next() {
                None => {
                    return false;
                },
                Some(right_char) => {
                    if left_char != right_char {
                        return left_char < right_char;
                    }
                },
            },
        }
    }
}

/// Whether two strings are the same.
pub fn same_text(left: &str, right: &str) -> (result: bool)
    ensures
        result == (left@ == right@),
{
    proof {
        text_le_reflexive(left@);
        if text_le(left@, right@) && text_le(right@, left@) {
            text_le_antisymmetric(left@, right@);
        }
    }
    text_at_most(left, right) && text_at_most(right, left)
}

} // verus!
