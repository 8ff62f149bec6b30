//! Grid layouts of named areas, and compositions that pick one layout by the
//! width of the viewport.
//!
//! A layout is a grid of cells, each holding an area or a gap. It gives the
//! text of the CSS `grid-template-areas` property and the areas to fill, in
//! the order in which the grid first shows them. A composition registers
//! layouts under breakpoints and selects the one to draw.

use vstd::prelude::*;

use crate::app_styling::theme::{
    assigned, breakpoint_order, breakpoint_position, in_range, lemma_ascending_ranges_disjoint,
    lemma_assigned_push, lemma_assigned_step, lemma_breakpoint_position, range_contains,
    range_ends_before, range_nonempty, ranges_ascending, Breakpoint, Theme,
};

verus! {

/// A region a layout can name. Implementors are small value types, one
/// value per region.
pub trait LayoutArea: Copy {
    /// Whether the value stands for a gap in the grid rather than a region.
    spec fn spec_is_empty(&self) -> bool;

    /// The name under which the region appears in style sheets.
    spec fn spec_name(&self) -> Seq<char>;

    /// Whether the value stands for a gap in the grid rather than a region.
    fn is_empty(&self) -> (empty: bool)
        ensures
            empty == self.spec_is_empty(),
    ;

    /// The name under which the region appears in style sheets.
    fn name(&self) -> (name: &'static str)
        ensures
            name@ == self.spec_name(),
    ;

    /// Whether the two values are the same region.
    fn same(&self, other: &Self) -> (same: bool)
        ensures
            same == (*self == *other),
    ;
}

/// The cells of a grid, row after row.
pub open spec fn flatten<A>(rows: Seq<Seq<A>>) -> Seq<A>
    decreases rows.len(),
{
    if rows.len() == 0 {
        Seq::empty()
    } else {
        flatten(rows.drop_last()) + rows.last()
    }
}

/// The areas among the cells, each once, in the order of their first
/// appearance. Gaps are left out.
pub open spec fn first_seen<A: LayoutArea>(cells: Seq<A>) -> Seq<A>
    decreases cells.len(),
{
    if cells.len() == 0 {
        Seq::empty()
    } else {
        let seen = first_seen(cells.drop_last());
        let area = cells.last();
        if area.spec_is_empty() || seen.contains(area) {
            seen
        } else {
            seen.push(area)
        }
    }
}

/// The areas to fill are the areas of the grid: none twice, no gap among
/// them, and every cell that is not a gap among them.
pub proof fn lemma_first_seen<A: LayoutArea>(cells: Seq<A>)
    ensures
        first_seen(cells).no_duplicates(),
        forall|area: A| #[trigger]
            first_seen(cells).contains(area) <==> cells.contains(area) && !area.spec_is_empty(),
    decreases cells.len(),
{
    if cells.len() > 0 {
        let earlier = cells.drop_last();
        let last = cells.last();
        lemma_first_seen(earlier);
        let seen = first_seen(earlier);
        assert forall|area: A| #[trigger]
            first_seen(cells).contains(area) <==> cells.contains(area)
                && !area.spec_is_empty() by {
            if cells.contains(area) {
                let i = choose|i: int| 0 <= i < cells.len() && cells[i] == area;
                if i < cells.len() - 1 {
                    assert(earlier[i] == area);
                }
            }
            if earlier.contains(area) {
                let i = choose|i: int| 0 <= i < earlier.len() && earlier[i] == area;
                assert(cells[i] == area);
            }
            assert(cells[cells.len() - 1] == last);
            if !(last.spec_is_empty() || seen.contains(last)) {
                assert(seen.push(last)[seen.len() as int] == last);
                if seen.contains(area) {
                    let i = choose|i: int| 0 <= i < seen.len() && seen[i] == area;
                    assert(seen.push(last)[i] == area);
                }
            }
        }
    }
}

/// What one cell writes into `grid-template-areas`: a dot between spaces for
/// a gap, else the name and a space.
pub open spec fn cell_text<A: LayoutArea>(area: A) -> Seq<char> {
    if area.spec_is_empty() {
        " . "@
    } else {
        area.spec_name() + " "@
    }
}

/// The texts of the cells of a row, one after the other.
pub open spec fn cells_text<A: LayoutArea>(row: Seq<A>) -> Seq<char>
    decreases row.len(),
{
    if row.len() == 0 {
        Seq::empty()
    } else {
        cells_text(row.drop_last()) + cell_text(row.last())
    }
}

/// One row of `grid-template-areas`: its cells between double quotes, and a
/// space after the closing quote.
pub open spec fn row_text<A: LayoutArea>(row: Seq<A>) -> Seq<char> {
    "\""@ + cells_text(row) + "\" "@
}

/// The value of `grid-template-areas` for a grid: its rows, top to bottom.
pub open spec fn rows_text<A: LayoutArea>(rows: Seq<Seq<A>>) -> Seq<char>
    decreases rows.len(),
{
    if rows.len() == 0 {
        Seq::empty()
    } else {
        rows_text(rows.drop_last()) + row_text(rows.last())
    }
}

/// `count` times the given text.
pub open spec fn repeated(text: Seq<char>, count: nat) -> Seq<char>
    decreases count,
{
    if count == 0 {
        Seq::empty()
    } else {
        repeated(text, (count - 1) as nat) + text
    }
}

/// The rows of a grid given as slices.
pub open spec fn grid_view<A>(rows: Seq<&[A]>) -> Seq<Seq<A>> {
    rows.map_values(|row: &[A]| row@)
}

/// A grid of areas.
pub struct Layout<A: LayoutArea> {
    /// The areas to fill.
    pub areas: Vec<A>,
    /// The grid, row by row. A layout without rows is a plain grid, whose
    /// children flow into it unnamed.
    pub layout: Vec<Vec<A>>,
}

impl<A: LayoutArea> Layout<A> {
    /// The grid, row by row.
    pub open spec fn rows(&self) -> Seq<Seq<A>> {
        self.layout@.map_values(|row: Vec<A>| row@)
    }

    /// Whether the areas to fill are those of the grid: each once, gaps left
    /// out, in the order of first appearance.
    pub open spec fn wf(&self) -> bool {
        self.areas@ == first_seen(flatten(self.rows()))
    }

    /// The layout of the given grid.
    pub fn areas(layout_array: &[&[A]]) -> (layout: Self)
        ensures
            layout.rows() == grid_view(layout_array@),
            layout.wf(),
    {
        let ghost grid = grid_view(layout_array@);
        let mut areas: Vec<A> = Vec::new();
        let mut layout: Vec<Vec<A>> = Vec::new();
        let mut i: usize = 0;
        while i < layout_array.len()
            invariant
                i <= layout_array.len(),
                grid == grid_view(layout_array@),
                layout@.map_values(|row: Vec<A>| row@) == grid.take(i as int),
                areas@ == first_seen(flatten(grid.take(i as int))),
            decreases layout_array.len() - i,
        {
            let row = layout_array[i];
            let mut inner: Vec<A> = Vec::new();
            let mut j: usize = 0;
            while j < row.len()
                invariant
                    j <= row.len(),
                    inner@ == row@.take(j as int),
                    areas@ == first_seen(flatten(grid.take(i as int)) + row@.take(j as int)),
                decreases row.len() - j,
            {
                let area = row[j];
                let ghost before = flatten(grid.take(i as int)) + row@.take(j as int);
                let known = contains(&areas, &area);
                if !known {
                    if !area.is_empty() {
                        areas.push(area);
                    }
                }
                inner.push(area);
                proof {
                    let after = flatten(grid.take(i as int)) + row@.take(j + 1);
                    assert(after.drop_last() =~= before);
                    assert(after.last() == area);
                    assert(row@.take(j + 1) =~= row@.take(j as int).push(area));
                }
                j += 1;
            }
            proof {
                assert(row@.take(j as int) =~= row@);
                assert(grid.take(i + 1).drop_last() =~= grid.take(i as int));
                assert(grid.take(i + 1).last() == row@);
                assert(layout@.push(inner).map_values(|row: Vec<A>| row@) =~= grid.take(i + 1));
            }
            layout.push(inner);
            i += 1;
        }
        proof {
            assert(grid.take(i as int) =~= grid);
        }
        Layout { areas, layout }
    }

    /// A plain grid: no rows, no areas.
    pub fn grid() -> (layout: Self)
        ensures
            layout.rows() == Seq::<Seq<A>>::empty(),
            layout.areas@ == Seq::<A>::empty(),
            layout.wf(),
    {
        let layout = Layout { areas: Vec::new(), layout: Vec::new() };
        assert(layout.rows() =~= Seq::<Seq<A>>::empty());
        layout
    }

    /// Whether the layout names areas, rather than being a plain grid.
    pub fn has_areas(&self) -> (named: bool)
        ensures
            named == (self.rows().len() > 0),
    {
        self.layout.len() > 0
    }

    /// The value of `grid-template-areas`: every row between double quotes,
    /// gaps as dots.
    pub fn grid_template_areas(&self) -> (text: String)
        ensures
            text@ == rows_text(self.rows()),
    {
        let mut text = String::new();
        let mut i: usize = 0;
        while i < self.layout.len()
            invariant
                i <= self.layout.len(),
                text@ == rows_text(self.rows().take(i as int)),
            decreases self.layout.len() - i,
        {
            let row = &self.layout[i];
            let ghost before = text@;
            text.append("\"");
            let mut j: usize = 0;
            while j < row.len()
                invariant
                    j <= row.len(),
                    text@ == before + "\""@ + cells_text(row@.take(j as int)),
                decreases row.len() - j,
            {
                let area = row[j];
                let ghost so_far = text@;
                if area.is_empty() {
                    text.append(" . ");
                } else {
                    text.append(area.name());
                    text.append(" ");
                }
                proof {
                    assert(row@.take(j + 1).drop_last() =~= row@.take(j as int));
                    assert(text@ =~= so_far + cell_text(area));
                    assert(text@ =~= before + "\""@ + cells_text(row@.take(j + 1)));
                }
                j += 1;
            }
            text.append("\" ");
            proof {
                assert(row@.take(j as int) =~= row@);
                assert(self.rows().take(i + 1).drop_last() =~= self.rows().take(i as int));
                assert(self.rows().take(i + 1).last() == row@);
                assert(text@ =~= before + row_text(row@));
            }
            i += 1;
        }
        proof {
            assert(self.rows().take(i as int) =~= self.rows());
        }
        text
    }

    /// The columns of the grid, each taking an equal share of the width: one
    /// `minmax(0,1fr) ` for every cell of the first row.
    pub fn grid_template_columns(&self) -> (text: String)
        requires
            self.rows().len() > 0,
        ensures
            text@ == repeated("minmax(0,1fr) "@, self.rows()[0].len()),
    {
        equal_tracks(self.layout[0].len())
    }

    /// The rows of the grid, each taking an equal share of the height: one
    /// `minmax(0,1fr) ` for every row.
    pub fn grid_template_rows(&self) -> (text: String)
        ensures
            text@ == repeated("minmax(0,1fr) "@, self.rows().len()),
    {
        equal_tracks(self.layout.len())
    }
}

/// The value of `grid-area` that places an element in the area: its name and
/// a space.
pub fn grid_area<A: LayoutArea>(area: &A) -> (text: String)
    ensures
        text@ == area.spec_name() + " "@,
{
    let mut text = String::new();
    text.append(area.name());
    text.append(" ");
    assert(text@ =~= area.spec_name() + " "@);
    text
}

/// `count` tracks of equal share.
fn equal_tracks(count: usize) -> (text: String)
    ensures
        text@ == repeated("minmax(0,1fr) "@, count as nat),
{
    let mut text = String::new();
    let mut i: usize = 0;
    while i < count
        invariant
            i <= count,
            text@ == repeated("minmax(0,1fr) "@, i as nat),
        decreases count - i,
    {
        text.append("minmax(0,1fr) ");
        i += 1;
    }
    text
}

/// Whether the area is among the given ones.
fn contains<A: LayoutArea>(areas: &Vec<A>, area: &A) -> (found: bool)
    ensures
        found == areas@.contains(*area),
{
    let mut i: usize = 0;
    while i < areas.len()
        invariant
            i <= areas.len(),
            forall|k: int| 0 <= k < i ==> areas@[k] != *area,
        decreases areas.len() - i,
    {
        if areas[i].same(area) {
            return true;
        }
        i += 1;
    }
    false
}

/// Whether some range contains the width.
pub open spec fn some_range_contains(ranges: Seq<(u32, Option<u32>)>, width: u32) -> bool {
    exists|k: int| 0 <= k < ranges.len() && range_contains(#[trigger] ranges[k], width)
}

/// Whether `chosen` is the range to draw at the given width.
///
/// Among the ranges that contain the width, the one with the largest lower
/// bound wins. If none contains the width, the range with the smallest lower
/// bound is the fallback. Of several ranges with that same lower bound the
/// first in the list is taken, so the choice is unique.
pub open spec fn is_selection(ranges: Seq<(u32, Option<u32>)>, width: u32, chosen: int) -> bool {
    &&& 0 <= chosen < ranges.len()
    &&& if some_range_contains(ranges, width) {
        &&& range_contains(ranges[chosen], width)
        &&& forall|k: int|
            0 <= k < ranges.len() && range_contains(#[trigger] ranges[k], width) ==> ranges[k].0
                <= ranges[chosen].0
        &&& forall|k: int|
            0 <= k < chosen && range_contains(#[trigger] ranges[k], width) ==> ranges[k].0
                < ranges[chosen].0
    } else {
        &&& forall|k: int| 0 <= k < ranges.len() ==> ranges[chosen].0 <= (#[trigger] ranges[k]).0
        &&& forall|k: int| 0 <= k < chosen ==> ranges[chosen].0 < (#[trigger] ranges[k]).0
    }
}

/// Selects the range to draw at the given width: the position, in the list,
/// of the range with the largest lower bound among those that contain the
/// width, or of the range with the smallest lower bound if none does.
pub fn select_layout(ranges: &[(u32, Option<u32>)], width: u32) -> (chosen: usize)
    requires
        ranges@.len() > 0,
    ensures
        is_selection(ranges@, width, chosen as int),
{
    let mut smallest: usize = 0;
    let mut widest: Option<usize> = if in_range(ranges[0], width) {
        Some(0)
    } else {
        None
    };
    let mut i: usize = 1;
    while i < ranges.len()
        invariant
            1 <= i <= ranges.len(),
            smallest < i,
            forall|k: int| 0 <= k < i ==> ranges@[smallest as int].0 <= (#[trigger] ranges@[k]).0,
            forall|k: int|
                0 <= k < smallest ==> ranges@[smallest as int].0 < (#[trigger] ranges@[k]).0,
            match widest {
                Some(best) => {
                    &&& best < i
                    &&& range_contains(ranges@[best as int], width)
                    &&& forall|k: int|
                        0 <= k < i && range_contains(#[trigger] ranges@[k], width) ==> ranges@[k].0
                            <= ranges@[best as int].0
                    &&& forall|k: int|
                        0 <= k < best && range_contains(#[trigger] ranges@[k], width)
                            ==> ranges@[k].0 < ranges@[best as int].0
                },
                None => forall|k: int| 0 <= k < i ==> !range_contains(#[trigger] ranges@[k], width),
            },
        decreases ranges.len() - i,
    {
        let range = ranges[i];
        if range.0 < ranges[smallest].0 {
            smallest = i;
        }
        if in_range(range, width) {
            match widest {
                Some(best) => {
                    if ranges[best].0 < range.0 {
                        widest = Some(i);
                    }
                },
                None => {
                    widest = Some(i);
                },
            }
        }
        i += 1;
    }
    match widest {
        Some(best) => {
            assert(some_range_contains(ranges@, width));
            best
        },
        None => smallest,
    }
}

/// The selection is unique.
pub proof fn lemma_selection_unique(
    ranges: Seq<(u32, Option<u32>)>,
    width: u32,
    first: int,
    second: int,
)
    requires
        is_selection(ranges, width, first),
        is_selection(ranges, width, second),
    ensures
        first == second,
{
    if first < second {
        assert(ranges[first].0 <= ranges[second].0 && ranges[second].0 <= ranges[first].0);
    } else if second < first {
        assert(ranges[first].0 <= ranges[second].0 && ranges[second].0 <= ranges[first].0);
    }
}

/// Of ranges that ascend without overlap, the selector picks the one that
/// contains the width.
pub proof fn lemma_selection_is_containing_range(
    ranges: Seq<(u32, Option<u32>)>,
    width: u32,
    containing: int,
)
    requires
        ranges_ascending(ranges),
        0 <= containing < ranges.len(),
        range_contains(ranges[containing], width),
    ensures
        is_selection(ranges, width, containing),
{
    assert forall|k: int| 0 <= k < ranges.len() && range_contains(#[trigger] ranges[k], width)
        implies k == containing by {
        lemma_ascending_ranges_disjoint(ranges, width, k, containing);
    }
}

/// Where a narrow and a wide layout share the breakpoints, the position of
/// the layout for the breakpoint at `place`: the wide one, stored at 0, from
/// the breakpoint `from` on, and the narrow one, stored at 1, below it.
pub open spec fn narrow_or_wide(from: Breakpoint, place: int) -> usize {
    if place >= breakpoint_position(from) {
        0
    } else {
        1
    }
}

/// Layouts registered under breakpoints.
///
/// Registering under a breakpoint a second time replaces the first
/// registration: the earlier layout stays stored and is no longer selected.
pub struct Composition<A: LayoutArea> {
    layouts: Vec<Layout<A>>,
    layouts_by_breakpoint: Vec<(Breakpoint, usize)>,
}

/// The five breakpoints, narrowest first.
fn breakpoints() -> (order: [Breakpoint; 5])
    ensures
        order@ == breakpoint_order(),
{
    let order = [
        Breakpoint::ExtraSmall,
        Breakpoint::Small,
        Breakpoint::Medium,
        Breakpoint::Large,
        Breakpoint::ExtraLarge,
    ];
    assert(order@ =~= breakpoint_order());
    order
}

/// The place of a breakpoint in the order, counted from zero.
fn position(breakpoint: Breakpoint) -> (place: usize)
    ensures
        place == breakpoint_position(breakpoint),
{
    match breakpoint {
        Breakpoint::ExtraSmall => 0,
        Breakpoint::Small => 1,
        Breakpoint::Medium => 2,
        Breakpoint::Large => 3,
        Breakpoint::ExtraLarge => 4,
    }
}

impl<A: LayoutArea> Composition<A> {
    #[verifier::type_invariant]
    spec fn registrations_in_range(&self) -> bool {
        forall|k: int|
            0 <= k < self.layouts_by_breakpoint@.len() ==> (
            #[trigger] self.layouts_by_breakpoint@[k]).1 < self.layouts@.len()
    }

    /// The layouts, in the order of their registration.
    pub closed spec fn spec_layouts(&self) -> Seq<Layout<A>> {
        self.layouts@
    }

    /// The registrations in the order in which they were made: a breakpoint
    /// and the position of its layout.
    pub closed spec fn spec_registrations(&self) -> Seq<(Breakpoint, usize)> {
        self.layouts_by_breakpoint@
    }

    /// The position of the layout registered under the breakpoint.
    pub open spec fn spec_layout_index(&self, breakpoint: Breakpoint) -> Option<usize> {
        assigned(self.spec_registrations(), breakpoint)
    }

    /// Of the `count` narrowest breakpoints, those with a layout, narrowest
    /// first.
    pub open spec fn registered(&self, count: nat) -> Seq<Breakpoint>
        decreases count,
    {
        if count == 0 {
            Seq::empty()
        } else {
            let narrower = self.registered((count - 1) as nat);
            let breakpoint = breakpoint_order()[count - 1];
            if self.spec_layout_index(breakpoint) is Some {
                narrower.push(breakpoint)
            } else {
                narrower
            }
        }
    }

    /// The ranges that the theme gives the breakpoints with a layout,
    /// narrowest breakpoint first.
    pub open spec fn registered_ranges(&self, theme: &Theme) -> Seq<(u32, Option<u32>)> {
        self.registered(5).map_values(|breakpoint: Breakpoint| theme.spec_breakpoint(breakpoint).unwrap())
    }

    /// Whether a layout can be selected under the theme: a breakpoint has a
    /// layout, and the theme gives every such breakpoint a range.
    pub open spec fn spec_selectable(&self, theme: &Theme) -> bool {
        &&& exists|breakpoint: Breakpoint| (#[trigger] self.spec_layout_index(breakpoint)) is Some
        &&& forall|breakpoint: Breakpoint| (#[trigger] self.spec_layout_index(breakpoint)) is Some
            ==> theme.spec_breakpoint(breakpoint) is Some
    }

    /// Whether the layout at `index` is the one to draw at the given width:
    /// the layout of the breakpoint whose range `is_selection` picks.
    pub open spec fn selects(&self, theme: &Theme, width: u32, index: usize) -> bool {
        exists|chosen: int|
            is_selection(self.registered_ranges(theme), width, chosen) && self.spec_layout_index(
                #[trigger] self.registered(5)[chosen],
            ) == Some(index)
    }

    /// A composition without layouts.
    pub fn new() -> (composition: Self)
        ensures
            composition.spec_layouts() == Seq::<Layout<A>>::empty(),
            composition.spec_registrations() == Seq::<(Breakpoint, usize)>::empty(),
    {
        Composition { layouts: Vec::new(), layouts_by_breakpoint: Vec::new() }
    }

    /// Registers the layout under the breakpoint.
    pub fn add(self, breakpoint: Breakpoint, layout: Layout<A>) -> (composition: Self)
        ensures
            composition.spec_layouts() == self.spec_layouts().push(layout),
            composition.spec_registrations() == self.spec_registrations().push(
                (breakpoint, self.spec_layouts().len() as usize),
            ),
            forall|key: Breakpoint| #[trigger]
                composition.spec_layout_index(key) == if key == breakpoint {
                    Some(self.spec_layouts().len() as usize)
                } else {
                    self.spec_layout_index(key)
                },
    {
        proof {
            use_type_invariant(&self);
        }
        let Composition { layouts: mut layouts, layouts_by_breakpoint: mut layouts_by_breakpoint } =
            self;
        let index = layouts.len();
        layouts.push(layout);
        layouts_by_breakpoint.push((breakpoint, index));
        let composition = Composition { layouts, layouts_by_breakpoint };
        assert forall|key: Breakpoint| #[trigger]
            composition.spec_layout_index(key) == if key == breakpoint {
                Some(index)
            } else {
                self.spec_layout_index(key)
            } by {
            lemma_assigned_push(self.spec_registrations(), (breakpoint, index), key);
        }
        composition
    }

    /// A composition of a narrow and a wide layout: the wide one is drawn
    /// from the given breakpoint on, the narrow one below it. The wide layout
    /// is stored first and registered under every breakpoint from `from` up;
    /// the narrow one is stored second and registered under the others.
    pub fn narrow_and_wide(
        narrow: Layout<A>,
        wide: Layout<A>,
        from: Breakpoint,
    ) -> (composition: Self)
        ensures
            composition.spec_layouts() == seq![wide, narrow],
            composition.spec_registrations() == Seq::new(
                5,
                |k: int| (breakpoint_order()[k], narrow_or_wide(from, k)),
            ),
            forall|key: Breakpoint| #[trigger]
                composition.spec_layout_index(key) == Some(narrow_or_wide(from, breakpoint_position(key))),
    {
        let order = breakpoints();
        let start = position(from);
        let mut layouts: Vec<Layout<A>> = Vec::new();
        layouts.push(wide);
        layouts.push(narrow);
        assert(layouts@ =~= seq![wide, narrow]);
        let mut layouts_by_breakpoint: Vec<(Breakpoint, usize)> = Vec::new();
        let mut i: usize = 0;
        while i < 5
            invariant
                i <= 5,
                order@ == breakpoint_order(),
                start == breakpoint_position(from),
                layouts_by_breakpoint@ == Seq::new(
                    i as nat,
                    |k: int| (breakpoint_order()[k], narrow_or_wide(from, k)),
                ),
                forall|key: Breakpoint|
                    breakpoint_position(key) < i ==> #[trigger] assigned(
                        layouts_by_breakpoint@,
                        key,
                    ) == Some(narrow_or_wide(from, breakpoint_position(key))),
            decreases 5 - i,
        {
            let breakpoint = order[i];
            let index: usize = if i >= start {
                0
            } else {
                1
            };
            proof {
                lemma_breakpoint_position(breakpoint);
                assert forall|key: Breakpoint|
                    breakpoint_position(key) < i + 1 implies #[trigger] assigned(
                    layouts_by_breakpoint@.push((breakpoint, index)),
                    key,
                ) == Some(narrow_or_wide(from, breakpoint_position(key))) by {
                    lemma_breakpoint_position(key);
                    lemma_assigned_push(layouts_by_breakpoint@, (breakpoint, index), key);
                }
            }
            layouts_by_breakpoint.push((breakpoint, index));
            assert(layouts_by_breakpoint@ =~= Seq::new(
                (i + 1) as nat,
                |k: int| (breakpoint_order()[k], narrow_or_wide(from, k)),
            ));
            i += 1;
        }
        let composition = Composition { layouts, layouts_by_breakpoint };
        proof {
            assert forall|key: Breakpoint| #[trigger]
                composition.spec_layout_index(key) == Some(narrow_or_wide(from, breakpoint_position(key))) by {
                lemma_breakpoint_position(key);
            }
        }
        composition
    }

    /// A composition of one layout, drawn at every width: it is registered
    /// under the narrowest breakpoint.
    pub fn with_layout(layout: Layout<A>) -> (composition: Self)
        ensures
            composition.spec_layouts() == seq![layout],
            composition.spec_registrations() == seq![(Breakpoint::ExtraSmall, 0usize)],
    {
        let composition = Composition::new().add(Breakpoint::ExtraSmall, layout);
        assert(composition.spec_layouts() =~= seq![layout]);
        assert(composition.spec_registrations() =~= seq![(Breakpoint::ExtraSmall, 0usize)]);
        composition
    }

    /// A composition of the given layouts, each under its breakpoint.
    pub fn with_layouts(bp_layouts: Vec<(Breakpoint, Layout<A>)>) -> (composition: Self)
        ensures
            composition.spec_layouts() == bp_layouts@.map_values(
                |entry: (Breakpoint, Layout<A>)| entry.1,
            ),
            composition.spec_registrations() == Seq::new(
                bp_layouts@.len(),
                |k: int| (bp_layouts@[k].0, k as usize),
            ),
    {
        let ghost given = bp_layouts@;
        let mut rest = bp_layouts;
        let mut composition = Composition::new();
        while rest.len() > 0
            invariant
                rest@.len() <= given.len(),
                rest@ == given.skip(given.len() - rest@.len()),
                composition.spec_layouts() == given.take(given.len() - rest@.len()).map_values(
                    |entry: (Breakpoint, Layout<A>)| entry.1,
                ),
                composition.spec_registrations() == Seq::new(
                    (given.len() - rest@.len()) as nat,
                    |k: int| (given[k].0, k as usize),
                ),
            decreases rest@.len(),
        {
            let ghost done = given.len() - rest@.len();
            let (breakpoint, layout) = rest.remove(0);
            composition = composition.add(breakpoint, layout);
            proof {
                assert(rest@ =~= given.skip(done + 1));
                assert(composition.spec_layouts() =~= given.take(done + 1).map_values(
                    |entry: (Breakpoint, Layout<A>)| entry.1,
                ));
                assert(composition.spec_registrations() =~= Seq::new(
                    (done + 1) as nat,
                    |k: int| (given[k].0, k as usize),
                ));
            }
        }
        proof {
            assert(given.take(given.len() as int) =~= given);
        }
        composition
    }

    /// The number of layouts stored.
    pub fn len(&self) -> (count: usize)
        ensures
            count == self.spec_layouts().len(),
    {
        self.layouts.len()
    }

    /// The layout at the given position.
    pub fn layout(&self, index: usize) -> (layout: &Layout<A>)
        requires
            index < self.spec_layouts().len(),
        ensures
            *layout == self.spec_layouts()[index as int],
    {
        &self.layouts[index]
    }

    /// The position of the layout registered under the breakpoint, if any.
    pub fn layout_index(&self, breakpoint: Breakpoint) -> (index: Option<usize>)
        ensures
            index == self.spec_layout_index(breakpoint),
            index matches Some(position) ==> position < self.spec_layouts().len(),
    {
        proof {
            use_type_invariant(self);
        }
        let mut n: usize = self.layouts_by_breakpoint.len();
        assert(self.layouts_by_breakpoint@.take(n as int) =~= self.layouts_by_breakpoint@);
        while n > 0
            invariant
                n <= self.layouts_by_breakpoint.len(),
                self.spec_layout_index(breakpoint) == assigned(
                    self.layouts_by_breakpoint@.take(n as int),
                    breakpoint,
                ),
                self.registrations_in_range(),
            decreases n,
        {
            proof {
                lemma_assigned_step(self.layouts_by_breakpoint@, breakpoint, n as int);
            }
            n -= 1;
            if self.layouts_by_breakpoint[n].0 == breakpoint {
                return Some(self.layouts_by_breakpoint[n].1);
            }
        }
        None
    }

    /// Whether a layout can be selected under the theme.
    pub fn selectable(&self, theme: &Theme) -> (possible: bool)
        ensures
            possible == self.spec_selectable(theme),
    {
        let order = breakpoints();
        let mut any = false;
        let mut i: usize = 0;
        while i < 5
            invariant
                i <= 5,
                order@ == breakpoint_order(),
                any == (self.registered(i as nat).len() > 0),
                forall|k: int|
                    0 <= k < i && (#[trigger] self.spec_layout_index(breakpoint_order()[k])) is Some
                        ==> theme.spec_breakpoint(breakpoint_order()[k]) is Some,
            decreases 5 - i,
        {
            let breakpoint = order[i];
            if self.layout_index(breakpoint).is_some() {
                if theme.breakpoint(breakpoint).is_none() {
                    return false;
                }
                any = true;
                assert(self.registered((i + 1) as nat).len() > 0);
            }
            i += 1;
        }
        proof {
            self.lemma_registered_nonempty();
            assert forall|breakpoint: Breakpoint| (#[trigger] self.spec_layout_index(breakpoint)) is Some
                implies theme.spec_breakpoint(breakpoint) is Some by {
                lemma_breakpoint_position(breakpoint);
                let k = breakpoint_position(breakpoint);
                assert(self.spec_layout_index(breakpoint_order()[k]) is Some);
            }
        }
        any
    }

    /// Selects the layout to draw at the given width, by its position: the
    /// layout of the breakpoint that `select_layout` picks among the ranges
    /// that the theme gives the breakpoints with a layout.
    pub fn select(&self, theme: &Theme, width: u32) -> (index: usize)
        requires
            self.spec_selectable(theme),
        ensures
            self.selects(theme, width, index),
            index < self.spec_layouts().len(),
    {
        let order = breakpoints();
        let mut ranges: Vec<(u32, Option<u32>)> = Vec::new();
        let mut indices: Vec<usize> = Vec::new();
        let mut i: usize = 0;
        while i < 5
            invariant
                i <= 5,
                order@ == breakpoint_order(),
                self.spec_selectable(theme),
                ranges@ == self.registered(i as nat).map_values(
                    |breakpoint: Breakpoint| theme.spec_breakpoint(breakpoint).unwrap(),
                ),
                indices@.len() == ranges@.len(),
                forall|k: int|
                    0 <= k < indices@.len() ==> self.spec_layout_index(
                        #[trigger] self.registered(i as nat)[k],
                    ) == Some(indices@[k]) && indices@[k] < self.spec_layouts().len(),
            decreases 5 - i,
        {
            let breakpoint = order[i];
            match self.layout_index(breakpoint) {
                Some(index) => {
                    let range = match theme.breakpoint(breakpoint) {
                        Some(range) => range,
                        None => {
                            proof {
                                assert(false);
                            }
                            (0, None)
                        },
                    };
                    proof {
                        assert(self.registered((i + 1) as nat) == self.registered(i as nat).push(
                            breakpoint,
                        ));
                        assert(ranges@.push(range) =~= self.registered(
                            (i + 1) as nat,
                        ).map_values(
                            |breakpoint: Breakpoint| theme.spec_breakpoint(breakpoint).unwrap(),
                        ));
                    }
                    ranges.push(range);
                    indices.push(index);
                },
                None => {},
            }
            i += 1;
        }
        proof {
            self.lemma_registered_nonempty();
        }
        let chosen = select_layout(ranges.as_slice(), width);
        indices[chosen]
    }

    /// The registered breakpoints are those with a layout, narrowest first.
    proof fn lemma_registered(&self, count: nat)
        requires
            count <= 5,
        ensures
            forall|a: int|
                0 <= a < self.registered(count).len() ==> breakpoint_position(
                    #[trigger] self.registered(count)[a],
                ) < count && self.spec_layout_index(self.registered(count)[a]) is Some,
            forall|a: int, b: int|
                0 <= a < b < self.registered(count).len() ==> breakpoint_position(
                    #[trigger] self.registered(count)[a],
                ) < breakpoint_position(#[trigger] self.registered(count)[b]),
            forall|breakpoint: Breakpoint|
                breakpoint_position(breakpoint) < count && (#[trigger] self.spec_layout_index(
                    breakpoint,
                )) is Some ==> self.registered(count).contains(breakpoint),
        decreases count,
    {
        if count > 0 {
            let narrower = self.registered((count - 1) as nat);
            let breakpoint = breakpoint_order()[count - 1];
            self.lemma_registered((count - 1) as nat);
            lemma_breakpoint_position(breakpoint);
            assert(breakpoint_position(breakpoint) == count - 1);
            assert forall|other: Breakpoint|
                breakpoint_position(other) < count && (#[trigger] self.spec_layout_index(
                    other,
                )) is Some implies self.registered(count).contains(other) by {
                lemma_breakpoint_position(other);
                if breakpoint_position(other) == count - 1 {
                    assert(other == breakpoint);
                    assert(self.registered(count)[narrower.len() as int] == other);
                } else {
                    let i = choose|i: int| 0 <= i < narrower.len() && narrower[i] == other;
                    assert(self.registered(count)[i] == other);
                }
            }
        }
    }

    /// Some breakpoint has a layout exactly if the list of registered
    /// breakpoints is not empty.
    proof fn lemma_registered_nonempty(&self)
        ensures
            (self.registered(5).len() > 0) == (exists|breakpoint: Breakpoint|
                (#[trigger] self.spec_layout_index(breakpoint)) is Some),
    {
        self.lemma_registered(5);
        if exists|breakpoint: Breakpoint| (#[trigger] self.spec_layout_index(breakpoint)) is Some {
            let breakpoint = choose|breakpoint: Breakpoint|
                (#[trigger] self.spec_layout_index(breakpoint)) is Some;
            lemma_breakpoint_position(breakpoint);
            assert(self.registered(5).contains(breakpoint));
        }
        if self.registered(5).len() > 0 {
            assert(self.spec_layout_index(self.registered(5)[0]) is Some);
        }
    }

    /// At most one layout is selected at a width.
    pub proof fn lemma_selects_one(&self, theme: &Theme, width: u32, first: usize, second: usize)
        requires
            self.selects(theme, width, first),
            self.selects(theme, width, second),
        ensures
            first == second,
    {
        let ranges = self.registered_ranges(theme);
        let a = choose|chosen: int|
            is_selection(ranges, width, chosen) && self.spec_layout_index(
                #[trigger] self.registered(5)[chosen],
            ) == Some(first);
        let b = choose|chosen: int|
            is_selection(ranges, width, chosen) && self.spec_layout_index(
                #[trigger] self.registered(5)[chosen],
            ) == Some(second);
        lemma_selection_unique(ranges, width, a, b);
    }

    /// A composition with a layout under one breakpoint only draws that
    /// layout at every width.
    pub proof fn lemma_sole_layout_selected(
        &self,
        theme: &Theme,
        width: u32,
        breakpoint: Breakpoint,
        index: usize,
    )
        requires
            forall|key: Breakpoint| #[trigger]
                self.spec_layout_index(key) == if key == breakpoint {
                    Some(index)
                } else {
                    None
                },
        ensures
            self.selects(theme, width, index),
    {
        let registered = self.registered(5);
        self.lemma_registered(5);
        lemma_breakpoint_position(breakpoint);
        assert(self.spec_layout_index(breakpoint) == Some(index));
        assert(registered.contains(breakpoint));
        assert forall|a: int| 0 <= a < registered.len() implies registered[a] == breakpoint by {
            assert(self.spec_layout_index(registered[a]) is Some);
        }
        if registered.len() > 1 {
            assert(breakpoint_position(registered[0]) < breakpoint_position(registered[1]));
        }
        assert(registered.len() == 1);
        let ranges = self.registered_ranges(theme);
        assert(is_selection(ranges, width, 0));
        assert(self.spec_layout_index(registered[0]) == Some(index));
    }

    /// A composition made by `narrow_and_wide` draws the wide layout at the
    /// widths from the lower bound of `from` on and the narrow one below it,
    /// under a theme whose breakpoints ascend without overlap and at a width
    /// that one of them contains.
    pub proof fn lemma_narrow_below_wide_from(&self, theme: &Theme, width: u32, from: Breakpoint)
        requires
            forall|key: Breakpoint| #[trigger]
                self.spec_layout_index(key) == Some(narrow_or_wide(from, breakpoint_position(key))),
            theme.breakpoints_ascending(),
            exists|breakpoint: Breakpoint|
                range_contains((#[trigger] theme.spec_breakpoint(breakpoint)).unwrap(), width),
        ensures
            self.selects(
                theme,
                width,
                if theme.spec_only_and_above(from, width) {
                    0usize
                } else {
                    1usize
                },
            ),
    {
        let breakpoint = choose|breakpoint: Breakpoint|
            range_contains((#[trigger] theme.spec_breakpoint(breakpoint)).unwrap(), width);
        let all = Seq::new(5, |i: int| theme.spec_breakpoint(breakpoint_order()[i]).unwrap());
        let p = breakpoint_position(breakpoint);
        let q = breakpoint_position(from);
        lemma_breakpoint_position(breakpoint);
        lemma_breakpoint_position(from);
        assert(all[p] == theme.spec_breakpoint(breakpoint).unwrap());
        assert(all[q] == theme.spec_breakpoint(from).unwrap());
        assert(range_nonempty(all[q]));
        if p > q {
            assert(range_ends_before(all[q], all[p]));
        } else if p < q {
            assert(range_ends_before(all[p], all[q]));
        }
        self.lemma_selects_containing(
            theme,
            width,
            breakpoint,
            if p >= q {
                0usize
            } else {
                1usize
            },
        );
    }

    /// Under a theme whose breakpoints ascend without overlap, the layout of
    /// the breakpoint whose range contains the width is the one selected.
    pub proof fn lemma_selects_containing(
        &self,
        theme: &Theme,
        width: u32,
        breakpoint: Breakpoint,
        index: usize,
    )
        requires
            theme.breakpoints_ascending(),
            self.spec_layout_index(breakpoint) == Some(index),
            range_contains(theme.spec_breakpoint(breakpoint).unwrap(), width),
        ensures
            self.selects(theme, width, index),
    {
        let registered = self.registered(5);
        let ranges = self.registered_ranges(theme);
        let all = Seq::new(5, |i: int| theme.spec_breakpoint(breakpoint_order()[i]).unwrap());
        self.lemma_registered(5);
        lemma_breakpoint_position(breakpoint);
        assert(registered.contains(breakpoint));
        let chosen = choose|i: int| 0 <= i < registered.len() && registered[i] == breakpoint;
        assert forall|i: int| 0 <= i < ranges.len() implies ranges[i] == all[breakpoint_position(
            registered[i],
        )] by {
            lemma_breakpoint_position(registered[i]);
        }
        assert(ranges_ascending(ranges)) by {
            assert forall|i: int, j: int| 0 <= i < j < ranges.len() implies range_ends_before(
                #[trigger] ranges[i],
                #[trigger] ranges[j],
            ) by {
                let p = breakpoint_position(registered[i]);
                let q = breakpoint_position(registered[j]);
                lemma_breakpoint_position(registered[i]);
                lemma_breakpoint_position(registered[j]);
                assert(range_ends_before(all[p], all[q]));
            }
            assert forall|i: int| 0 <= i < ranges.len() implies range_nonempty(
                #[trigger] ranges[i],
            ) by {
                let p = breakpoint_position(registered[i]);
                lemma_breakpoint_position(registered[i]);
                assert(range_nonempty(all[p]));
            }
        }
        lemma_selection_is_containing_range(ranges, width, chosen);
        assert(self.spec_layout_index(registered[chosen]) == Some(index));
    }
}

} // verus!
