//! The examples of the state library's reference page: a to-do list and a
//! log that compares two numbers.

use vstd::prelude::*;

verus! {

/// The to-do list as it starts: one item, not yet done.
pub fn new_todos<T>(first: T) -> (todos: Vec<(T, bool)>)
    ensures
        todos@ == seq![(first, false)],
{
    let mut todos: Vec<(T, bool)> = Vec::new();
    todos.push((first, false));
    assert(todos@ =~= seq![(first, false)]);
    todos
}

/// A click on "Add Todo": a new item joins the end of the list, not yet
/// done.
pub fn add_todo<T>(todos: &mut Vec<(T, bool)>, item: T)
    ensures
        final(todos)@ == old(todos)@.push((item, false)),
{
    todos.push((item, false));
}

/// A click on the cross of the item at `idx`: the item leaves the list, and
/// the items after it move up.
pub fn remove_todo<T>(todos: &mut Vec<(T, bool)>, idx: usize)
    requires
        idx < old(todos)@.len(),
    ensures
        final(todos)@ == old(todos)@.remove(idx as int),
{
    let _ = todos.remove(idx);
}

/// A click on the tick of the item at `idx`: the item is done. Nothing else
/// changes.
pub fn complete_todo<T>(todos: &mut Vec<(T, bool)>, idx: usize)
    requires
        idx < old(todos)@.len(),
    ensures
        final(todos)@ == old(todos)@.update(idx as int, (old(todos)@[idx as int].0, true)),
{
    todos[idx].1 = true;
    assert(todos@ =~= old(todos)@.update(idx as int, (old(todos)@[idx as int].0, true)));
}

/// The number that the text spells, as the standard library reads a 32-bit
/// signed integer; `None` for a text that it does not read as one.
pub uninterp spec fn parsed_i32(text: Seq<char>) -> Option<i32>;

/// Reads a 32-bit signed integer with `str::parse`. The result is a
/// function of the text alone; nothing more is claimed of it here.
#[verifier::external_body]
fn parse_i32(text: &str) -> (number: Option<i32>)
    ensures
        number == parsed_i32(text@),
{
    match text.parse::<i32>() {
        Ok(number) => Some(number),
        Err(_) => None,
    }
}

/// The line that the log gets for two numbers.
pub open spec fn spec_smallest(a: int, b: int) -> Seq<char> {
    if a < b {
        "<li>A is the smallest</li>"@
    } else if a > b {
        "<li>B is the smallest</li>"@
    } else {
        "<li>Neither is the smallest</li>"@
    }
}

/// The line that the log gets for what the two inputs were read as: a line
/// only if both are numbers.
pub open spec fn spec_smallest_entry(a: Option<i32>, b: Option<i32>) -> Option<Seq<char>> {
    match (a, b) {
        (Some(a), Some(b)) => Some(spec_smallest(a as int, b as int)),
        _ => None,
    }
}

/// The line that the log gets for what the two inputs were read as.
pub fn smallest_entry(a: Option<i32>, b: Option<i32>) -> (entry: Option<&'static str>)
    ensures
        match entry {
            Some(line) => spec_smallest_entry(a, b) == Some(line@),
            None => spec_smallest_entry(a, b) is None,
        },
{
    match (a, b) {
        (Some(a), Some(b)) => {
            if a < b {
                Some("<li>A is the smallest</li>")
            } else if a > b {
                Some("<li>B is the smallest</li>")
            } else {
                Some("<li>Neither is the smallest</li>")
            }
        },
        _ => None,
    }
}

/// The line that the log gets when one of the two inputs has changed: a
/// line only if both read as numbers.
pub fn compare_inputs(input_a: &str, input_b: &str) -> (entry: Option<&'static str>)
    ensures
        match entry {
            Some(line) => spec_smallest_entry(parsed_i32(input_a@), parsed_i32(input_b@)) == Some(
                line@,
            ),
            None => spec_smallest_entry(parsed_i32(input_a@), parsed_i32(input_b@)) is None,
        },
{
    smallest_entry(parse_i32(input_a), parse_i32(input_b))
}

} // verus!
