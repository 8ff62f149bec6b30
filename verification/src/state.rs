//! The steps that component state takes when a button is clicked. Most of
//! the interactive examples are counters and switches built from these.

use vstd::prelude::*;

verus! {

/// A click on a button that counts up: the count grows by one.
pub fn increment(count: &mut i32)
    requires
        *old(count) < i32::MAX,
    ensures
        *final(count) == *old(count) + 1,
{
    *count += 1;
}

/// A click on a button that counts down: the count shrinks by one.
pub fn decrement(count: &mut i32)
    requires
        *old(count) > i32::MIN,
    ensures
        *final(count) == *old(count) - 1,
{
    *count -= 1;
}

/// A click on a switch: on turns to off, off to on.
pub fn toggle(flag: &mut bool)
    ensures
        *final(flag) == !*old(flag),
{
    *flag = !*flag;
}

} // verus!
