//! The identifier classifier: pure predicates that decide whether a name
//! follows a naming convention.

use vstd::prelude::*;

verus! {

/// Whether a character has the Unicode `Lowercase` property.
pub uninterp spec fn is_lowercase(c: char) -> bool;

/// Whether a character has the Unicode `Uppercase` property.
pub uninterp spec fn is_uppercase(c: char) -> bool;

/// Whether a character has the Unicode `White_Space` property.
pub uninterp spec fn is_whitespace(c: char) -> bool;

/// `char::is_lowercase` answers by the character alone; its answer is what
/// `is_lowercase` names.
pub assume_specification[ char::is_lowercase ](c: char) -> (answer: bool)
    ensures
        answer == is_lowercase(c),
;

/// `char::is_uppercase` answers by the character alone; its answer is what
/// `is_uppercase` names.
pub assume_specification[ char::is_uppercase ](c: char) -> (answer: bool)
    ensures
        answer == is_uppercase(c),
;

/// `char::is_whitespace` answers by the character alone; its answer is what
/// `is_whitespace` names.
pub assume_specification[ char::is_whitespace ](c: char) -> (answer: bool)
    ensures
        answer == is_whitespace(c),
;

/// A name in lower camel case: it is not empty, starts with a lowercase
/// letter, holds no underscore and no whitespace after that, and never has
/// two uppercase letters in a row after its first character.
pub open spec fn camel_case(name: Seq<char>) -> bool {
    &&& name.len() > 0
    &&& is_lowercase(name[0])
    &&& forall|i: int| 1 <= i < name.len() ==> (#[trigger] name[i]) != '_' && !is_whitespace(name[i])
    &&& forall|i: int|
        2 <= i < name.len() ==> !(is_uppercase(name[i - 1]) && is_uppercase(#[trigger] name[i]))
}

/// A name written in uppercase letters only. The empty name qualifies.
pub open spec fn all_uppercase(name: Seq<char>) -> bool {
    forall|i: int| 0 <= i < name.len() ==> is_uppercase(#[trigger] name[i])
}

/// Decides whether `identifier` is in lower camel case.
pub fn is_camel_case(identifier: &str) -> (answer: bool)
    ensures
        answer == camel_case(identifier@),
{
    let mut seen_first = false;
    let mut previous_was_uppercase = false;
    for c in it: identifier.chars()
        invariant
            it.seq() == identifier@,
            seen_first == (it.index() > 0),
            it.index() > 0 ==> camel_case(identifier@.take(it.index() as int)),
            previous_was_uppercase == (it.index() >= 2 && is_uppercase(
                identifier@[it.index() - 1],
            )),
    {
        let ghost at = it.index() as int;
        let ghost before = identifier@.take(at);
        let ghost after = identifier@.take(at + 1);
        proof {
            assert(c == identifier@[at]);
            assert(after[at] == c);
            assert(forall|i: int| 0 <= i < at ==> before[i] == after[i]);
        }
        if !seen_first {
            if !c.is_lowercase() {
                return false;
            }
            seen_first = true;
        } else if c == '_' || c.is_whitespace() {
            return false;
        } else if c.is_uppercase() {
            if previous_was_uppercase {
                return false;
            }
            previous_was_uppercase = true;
        } else {
            previous_was_uppercase = false;
        }
        proof {
            assert forall|i: int| 1 <= i < after.len() implies (#[trigger] after[i]) != '_'
                && !is_whitespace(after[i]) by {
                if i < at {
                    assert(before[i] == after[i]);
                }
            }
            assert forall|i: int| 2 <= i < after.len() implies !(is_uppercase(after[i - 1])
                && is_uppercase(#[trigger] after[i])) by {
                if i < at {
                    assert(before[i] == after[i]);
                    assert(before[i - 1] == after[i - 1]);
                }
            }
            assert(camel_case(after));
        }
    }
    proof {
        assert(identifier@.take(identifier@.len() as int) == identifier@);
    }
    seen_first
}

/// Decides whether `name` consists of uppercase letters only.
pub fn is_all_uppercase(name: &str) -> (answer: bool)
    ensures
        answer == all_uppercase(name@),
{
    for c in it: name.chars()
        invariant
            it.seq() == name@,
            all_uppercase(name@.take(it.index() as int)),
    {
        let ghost at = it.index() as int;
        let ghost before = name@.take(at);
        let ghost after = name@.take(at + 1);
        proof {
            assert(c == name@[at]);
            assert(after[at] == c);
        }
        if !c.is_uppercase() {
            return false;
        }
        proof {
            assert forall|i: int| 0 <= i < after.len() implies is_uppercase(
                #[trigger] after[i],
            ) by {
                if i < at {
                    assert(before[i] == after[i]);
                }
            }
        }
    }
    proof {
        assert(name@.take(name@.len() as int) == name@);
    }
    true
}

} // verus!
