//! The options of the custom elements, and what those elements decide
//! before anything is drawn.

use vstd::prelude::*;

verus! {

/// The size of a card that flips when clicked, in pixels.
#[derive(Clone, Copy, PartialEq, Eq, Debug, Structural)]
pub struct ClickToFlipSize {
    pub height: u32,
    pub width: u32,
}

impl Default for ClickToFlipSize {
    fn default() -> (size: Self)
        ensures
            size == (ClickToFlipSize { height: 0, width: 0 }),
    {
        ClickToFlipSize { height: 0, width: 0 }
    }
}

/// The options of a show card.
#[derive(Clone, Copy, PartialEq, Eq, Debug, Structural)]
pub struct ShowOpts {
    pub votes: u32,
}

impl Default for ShowOpts {
    fn default() -> (opts: Self)
        ensures
            opts == (ShowOpts { votes: 0 }),
    {
        ShowOpts { votes: 0 }
    }
}

/// The options of an award on the back of a show card.
#[derive(Debug)]
pub struct AwardOpts {
    pub awarding_body: String,
}

impl Default for AwardOpts {
    fn default() -> (opts: Self)
        ensures
            opts.awarding_body@ == Seq::<char>::empty(),
    {
        AwardOpts { awarding_body: String::new() }
    }
}

/// The options of a warning: how often it is shown.
#[derive(Clone, Copy, PartialEq, Eq, Debug, Structural)]
pub struct ViewArgs {
    pub repeat: i32,
}

impl Default for ViewArgs {
    fn default() -> (args: Self)
        ensures
            args == (ViewArgs { repeat: 1 }),
    {
        ViewArgs { repeat: 1 }
    }
}

/// The options of an item of a to-do list.
#[derive(Clone, Copy, PartialEq, Eq, Debug, Structural)]
pub struct ItemOpts {
    pub complete: bool,
}

impl Default for ItemOpts {
    fn default() -> (opts: Self)
        ensures
            opts == (ItemOpts { complete: false }),
    {
        ItemOpts { complete: false }
    }
}

/// How the faces of a flip card are turned: half a turn about the vertical
/// axis once it has been flipped, not at all before.
pub fn flip_transform(flipped: bool) -> (transform: Option<&'static str>)
    ensures
        match transform {
            Some(text) => flipped && text@ == " rotateY(180deg)"@,
            None => !flipped,
        },
{
    if flipped {
        Some(" rotateY(180deg)")
    } else {
        None
    }
}

/// How many times a warning is shown: as often as its options ask, and not
/// at all if they ask for a negative number.
pub fn repeats(args: &ViewArgs) -> (count: u32)
    ensures
        count == if args.repeat > 0 {
            args.repeat as int
        } else {
            0
        },
{
    if args.repeat > 0 {
        args.repeat as u32
    } else {
        0
    }
}

/// Whether an item is among those asked for: the complete ones or the
/// others.
pub open spec fn has_completion<T>(complete: bool) -> spec_fn((T, ItemOpts)) -> bool {
    |item: (T, ItemOpts)| item.1.complete == complete
}

/// The items of the given completion, in their order, without their
/// options.
pub open spec fn items_with<T>(items: Seq<(T, ItemOpts)>, complete: bool) -> Seq<T> {
    items.filter(has_completion(complete)).map_values(|item: (T, ItemOpts)| item.0)
}

/// Splits the items of a to-do list into the complete and the incomplete
/// ones. Each list keeps the order in which its items were given.
pub fn split_by_completion<T>(items: Vec<(T, ItemOpts)>) -> (lists: (Vec<T>, Vec<T>))
    ensures
        lists.0@ == items_with(items@, true),
        lists.1@ == items_with(items@, false),
{
    let ghost given = items@;
    let mut rest = items;
    let mut complete: Vec<T> = Vec::new();
    let mut incomplete: Vec<T> = Vec::new();
    proof {
        assert(given.take(0) =~= Seq::<(T, ItemOpts)>::empty());
        reveal(Seq::filter);
        assert(items_with(given.take(0), true) =~= Seq::<T>::empty());
        assert(items_with(given.take(0), false) =~= Seq::<T>::empty());
    }
    while rest.len() > 0
        invariant
            rest@.len() <= given.len(),
            rest@ == given.skip(given.len() - rest@.len()),
            complete@ == items_with(given.take(given.len() - rest@.len()), true),
            incomplete@ == items_with(given.take(given.len() - rest@.len()), false),
        decreases rest@.len(),
    {
        let ghost done = given.len() - rest@.len();
        let (item, opts) = rest.remove(0);
        proof {
            assert(rest@ =~= given.skip(done + 1));
            lemma_items_with_step(given, done, true);
            lemma_items_with_step(given, done, false);
        }
        if opts.complete {
            complete.push(item);
        } else {
            incomplete.push(item);
        }
    }
    proof {
        assert(given.take(given.len() as int) =~= given);
    }
    (complete, incomplete)
}

/// Looking at one item more: it joins the list if it has the completion
/// asked for, and the list stays as it is otherwise.
proof fn lemma_items_with_step<T>(items: Seq<(T, ItemOpts)>, done: int, complete: bool)
    requires
        0 <= done < items.len(),
    ensures
        items_with(items.take(done + 1), complete) == if items[done].1.complete == complete {
            items_with(items.take(done), complete).push(items[done].0)
        } else {
            items_with(items.take(done), complete)
        },
{
    reveal(Seq::filter);
    let longer = items.take(done + 1);
    assert(longer.drop_last() =~= items.take(done));
    assert(longer.last() == items[done]);
    let kept = items.take(done).filter(has_completion(complete));
    if items[done].1.complete == complete {
        assert(longer.filter(has_completion(complete)) == kept.push(items[done]));
        assert(kept.push(items[done]).map_values(|item: (T, ItemOpts)| item.0) =~= kept.map_values(
            |item: (T, ItemOpts)| item.0,
        ).push(items[done].0));
    } else {
        assert(longer.filter(has_completion(complete)) == kept);
    }
}

} // verus!
