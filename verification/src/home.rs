//! The home pages: a hero banner above the content.

use vstd::prelude::*;

use crate::app_styling::theme::Breakpoint;
use crate::layout::{Composition, Layout, LayoutArea};

verus! {

/// The areas of a home page.
#[derive(Hash, PartialEq, Eq, Clone, Copy, Debug, Structural)]
pub enum IntroAreas {
    HeroHeader,
    MainContent,
}

impl LayoutArea for IntroAreas {
    open spec fn spec_is_empty(&self) -> bool {
        false
    }

    open spec fn spec_name(&self) -> Seq<char> {
        match self {
            IntroAreas::HeroHeader => "HeroHeader"@,
            IntroAreas::MainContent => "MainContent"@,
        }
    }

    fn is_empty(&self) -> (empty: bool) {
        false
    }

    fn name(&self) -> (name: &'static str) {
        match self {
            IntroAreas::HeroHeader => "HeroHeader",
            IntroAreas::MainContent => "MainContent",
        }
    }

    fn same(&self, other: &Self) -> (same: bool) {
        *self == *other
    }
}

/// The areas of the hero banner. `Empty` marks the cells that stay free.
#[derive(PartialEq, Eq, Clone, Copy, Debug, Hash, Structural)]
pub enum HeroHeaderArea {
    Title,
    Subtitle,
    Empty,
}

impl LayoutArea for HeroHeaderArea {
    open spec fn spec_is_empty(&self) -> bool {
        *self == HeroHeaderArea::Empty
    }

    open spec fn spec_name(&self) -> Seq<char> {
        match self {
            HeroHeaderArea::Title => "Title"@,
            HeroHeaderArea::Subtitle => "Subtitle"@,
            HeroHeaderArea::Empty => "Empty"@,
        }
    }

    fn is_empty(&self) -> (empty: bool) {
        *self == HeroHeaderArea::Empty
    }

    fn name(&self) -> (name: &'static str) {
        match self {
            HeroHeaderArea::Title => "Title",
            HeroHeaderArea::Subtitle => "Subtitle",
            HeroHeaderArea::Empty => "Empty",
        }
    }

    fn same(&self, other: &Self) -> (same: bool) {
        *self == *other
    }
}

/// The grid of the hero banner: the title above the subtitle in the middle
/// column, under a free row and between free columns.
pub open spec fn hero_header_grid() -> Seq<Seq<HeroHeaderArea>> {
    seq![
        seq![HeroHeaderArea::Empty, HeroHeaderArea::Empty, HeroHeaderArea::Empty],
        seq![HeroHeaderArea::Empty, HeroHeaderArea::Title, HeroHeaderArea::Empty],
        seq![HeroHeaderArea::Empty, HeroHeaderArea::Subtitle, HeroHeaderArea::Empty],
    ]
}

/// The layout of a home page: the hero banner above the content, at every
/// width.
pub fn intro_layout() -> (composition: Composition<IntroAreas>)
    ensures
        composition.spec_registrations() == seq![(Breakpoint::ExtraSmall, 0usize)],
        composition.spec_layouts().len() == 1,
        composition.spec_layouts()[0].rows() == seq![
            seq![IntroAreas::HeroHeader],
            seq![IntroAreas::MainContent],
        ],
        composition.spec_layouts()[0].wf(),
{
    let hero: [IntroAreas; 1] = [IntroAreas::HeroHeader];
    let main_content: [IntroAreas; 1] = [IntroAreas::MainContent];
    let grid: [&[IntroAreas]; 2] = [hero.as_slice(), main_content.as_slice()];
    let layout = Layout::areas(grid.as_slice());
    assert(layout.rows() =~= seq![seq![IntroAreas::HeroHeader], seq![IntroAreas::MainContent]])
        by {
        assert(layout.rows()[0] =~= seq![IntroAreas::HeroHeader]);
        assert(layout.rows()[1] =~= seq![IntroAreas::MainContent]);
    }
    Composition::with_layout(layout)
}

/// The layout of the hero banner, at every width.
pub fn hero_header_layout() -> (composition: Composition<HeroHeaderArea>)
    ensures
        composition.spec_registrations() == seq![(Breakpoint::ExtraSmall, 0usize)],
        composition.spec_layouts().len() == 1,
        composition.spec_layouts()[0].rows() == hero_header_grid(),
        composition.spec_layouts()[0].wf(),
{
    let top: [HeroHeaderArea; 3] = [
        HeroHeaderArea::Empty,
        HeroHeaderArea::Empty,
        HeroHeaderArea::Empty,
    ];
    let middle: [HeroHeaderArea; 3] = [
        HeroHeaderArea::Empty,
        HeroHeaderArea::Title,
        HeroHeaderArea::Empty,
    ];
    let bottom: [HeroHeaderArea; 3] = [
        HeroHeaderArea::Empty,
        HeroHeaderArea::Subtitle,
        HeroHeaderArea::Empty,
    ];
    let grid: [&[HeroHeaderArea]; 3] = [top.as_slice(), middle.as_slice(), bottom.as_slice()];
    let layout = Layout::areas(grid.as_slice());
    assert(layout.rows() =~= hero_header_grid()) by {
        assert(layout.rows()[0] =~= hero_header_grid()[0]);
        assert(layout.rows()[1] =~= hero_header_grid()[1]);
        assert(layout.rows()[2] =~= hero_header_grid()[2]);
    }
    Composition::with_layout(layout)
}

} // verus!
