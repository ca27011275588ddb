//! Contracts for the standard-library string operations that vstd leaves unspecified.
use vstd::prelude::*;

verus! {

/// `String::push` appends one character; its documentation states exactly that.
pub assume_specification[ String::push ](s: &mut String, ch: char)
    ensures
        final(s)@ == old(s)@.push(ch),
;

/// `String::pop` removes and gives back the last character, or gives `None` for an empty
/// string; its documentation states exactly that.
pub assume_specification[ String::pop ](s: &mut String) -> (r: Option<char>)
    ensures
        match r {
            Some(c) => old(s)@.len() > 0 && final(s)@ == old(s)@.drop_last() && c == old(s)@.last(),
            None => old(s)@.len() == 0 && final(s)@ == old(s)@,
        },
;

} // verus!
