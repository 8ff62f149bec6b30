//! The layout example: a page of header, sidebar, content and footer that
//! turns into a single column on phones, with a header bar that changes
//! along with it.

use vstd::prelude::*;

use crate::app_styling::theme::Breakpoint;
use crate::layout::{Composition, Layout, LayoutArea};

verus! {

/// The areas of the example page. No layout shows all of them.
#[derive(Hash, PartialEq, Eq, Clone, Copy, Debug, Structural)]
pub enum AppArea {
    Header,
    MainContent,
    Nav,
    Sidebar,
    Footer,
}

impl LayoutArea for AppArea {
    open spec fn spec_is_empty(&self) -> bool {
        false
    }

    open spec fn spec_name(&self) -> Seq<char> {
        match self {
            AppArea::Header => "Header"@,
            AppArea::MainContent => "MainContent"@,
            AppArea::Nav => "Nav"@,
            AppArea::Sidebar => "Sidebar"@,
            AppArea::Footer => "Footer"@,
        }
    }

    fn is_empty(&self) -> (empty: bool) {
        false
    }

    fn name(&self) -> (name: &'static str) {
        match self {
            AppArea::Header => "Header",
            AppArea::MainContent => "MainContent",
            AppArea::Nav => "Nav",
            AppArea::Sidebar => "Sidebar",
            AppArea::Footer => "Footer",
        }
    }

    fn same(&self, other: &Self) -> (same: bool) {
        *self == *other
    }
}

/// The areas of the header bar of the example page.
#[derive(Debug, Hash, PartialEq, Eq, Clone, Copy, Structural)]
pub enum HeaderArea {
    Title,
    Actions,
    Hamburger,
    Logo,
}

impl LayoutArea for HeaderArea {
    open spec fn spec_is_empty(&self) -> bool {
        false
    }

    open spec fn spec_name(&self) -> Seq<char> {
        match self {
            HeaderArea::Title => "Title"@,
            HeaderArea::Actions => "Actions"@,
            HeaderArea::Hamburger => "Hamburger"@,
            HeaderArea::Logo => "Logo"@,
        }
    }

    fn is_empty(&self) -> (empty: bool) {
        false
    }

    fn name(&self) -> (name: &'static str) {
        match self {
            HeaderArea::Title => "Title",
            HeaderArea::Actions => "Actions",
            HeaderArea::Hamburger => "Hamburger",
            HeaderArea::Logo => "Logo",
        }
    }

    fn same(&self, other: &Self) -> (same: bool) {
        *self == *other
    }
}

/// The grid of the wide page: the header across the top, the sidebar beside
/// twice its width of content, the footer across the bottom.
pub open spec fn app_grid_large() -> Seq<Seq<AppArea>> {
    seq![
        seq![AppArea::Header, AppArea::Header, AppArea::Header],
        seq![AppArea::Sidebar, AppArea::MainContent, AppArea::MainContent],
        seq![AppArea::Footer, AppArea::Footer, AppArea::Footer],
    ]
}

/// The grid of the page on phones: one column, with the collapsible
/// navigation in place of the sidebar.
pub open spec fn app_grid_small() -> Seq<Seq<AppArea>> {
    seq![
        seq![AppArea::Header],
        seq![AppArea::Nav],
        seq![AppArea::MainContent],
        seq![AppArea::Footer],
    ]
}

/// The layout of the wide page.
pub fn app_layout_large() -> (layout: Layout<AppArea>)
    ensures
        layout.rows() == app_grid_large(),
        layout.wf(),
{
    let top: [AppArea; 3] = [AppArea::Header, AppArea::Header, AppArea::Header];
    let middle: [AppArea; 3] = [AppArea::Sidebar, AppArea::MainContent, AppArea::MainContent];
    let bottom: [AppArea; 3] = [AppArea::Footer, AppArea::Footer, AppArea::Footer];
    let grid: [&[AppArea]; 3] = [top.as_slice(), middle.as_slice(), bottom.as_slice()];
    let layout = Layout::areas(grid.as_slice());
    assert(layout.rows() =~= app_grid_large()) by {
        assert(layout.rows()[0] =~= app_grid_large()[0]);
        assert(layout.rows()[1] =~= app_grid_large()[1]);
        assert(layout.rows()[2] =~= app_grid_large()[2]);
    }
    layout
}

/// The layout of the page on phones.
pub fn app_layout_small() -> (layout: Layout<AppArea>)
    ensures
        layout.rows() == app_grid_small(),
        layout.wf(),
{
    let header: [AppArea; 1] = [AppArea::Header];
    let nav: [AppArea; 1] = [AppArea::Nav];
    let main_content: [AppArea; 1] = [AppArea::MainContent];
    let footer: [AppArea; 1] = [AppArea::Footer];
    let grid: [&[AppArea]; 4] = [
        header.as_slice(),
        nav.as_slice(),
        main_content.as_slice(),
        footer.as_slice(),
    ];
    let layout = Layout::areas(grid.as_slice());
    assert(layout.rows() =~= app_grid_small()) by {
        assert(layout.rows()[0] =~= app_grid_small()[0]);
        assert(layout.rows()[1] =~= app_grid_small()[1]);
        assert(layout.rows()[2] =~= app_grid_small()[2]);
        assert(layout.rows()[3] =~= app_grid_small()[3]);
    }
    layout
}

/// The layout of the wide header bar: the logo, three shares of title, the
/// actions.
pub fn header_layout_large() -> (layout: Layout<HeaderArea>)
    ensures
        layout.rows() == seq![
            seq![
                HeaderArea::Logo,
                HeaderArea::Title,
                HeaderArea::Title,
                HeaderArea::Title,
                HeaderArea::Actions,
            ],
        ],
        layout.wf(),
{
    let row: [HeaderArea; 5] = [
        HeaderArea::Logo,
        HeaderArea::Title,
        HeaderArea::Title,
        HeaderArea::Title,
        HeaderArea::Actions,
    ];
    let grid: [&[HeaderArea]; 1] = [row.as_slice()];
    let layout = Layout::areas(grid.as_slice());
    assert(layout.rows() =~= seq![row@]);
    assert(row@ =~= seq![
        HeaderArea::Logo,
        HeaderArea::Title,
        HeaderArea::Title,
        HeaderArea::Title,
        HeaderArea::Actions,
    ]);
    layout
}

/// The layout of the header bar on phones: the title and the button that
/// opens the navigation.
pub fn header_layout_small() -> (layout: Layout<HeaderArea>)
    ensures
        layout.rows() == seq![seq![HeaderArea::Title, HeaderArea::Hamburger]],
        layout.wf(),
{
    let row: [HeaderArea; 2] = [HeaderArea::Title, HeaderArea::Hamburger];
    let grid: [&[HeaderArea]; 1] = [row.as_slice()];
    let layout = Layout::areas(grid.as_slice());
    assert(layout.rows() =~= seq![row@]);
    assert(row@ =~= seq![HeaderArea::Title, HeaderArea::Hamburger]);
    layout
}

/// The layout of the main content: a plain grid into which the photos
/// flow.
pub fn main_content_layout() -> (layout: Layout<AppArea>)
    ensures
        layout.rows() == Seq::<Seq<AppArea>>::empty(),
        layout.areas@ == Seq::<AppArea>::empty(),
{
    Layout::grid()
}

/// The page of the example: a single column on phones, the wide layout from
/// the `Small` breakpoint on. The wide layout is stored first.
pub fn app_layouts() -> (composition: Composition<AppArea>)
    ensures
        composition.spec_layouts().len() == 2,
        composition.spec_layouts()[0].rows() == app_grid_large(),
        composition.spec_layouts()[1].rows() == app_grid_small(),
        composition.spec_layouts()[0].wf(),
        composition.spec_layouts()[1].wf(),
        forall|key: Breakpoint| #[trigger]
            composition.spec_layout_index(key) == Some(
                if key == Breakpoint::ExtraSmall {
                    1usize
                } else {
                    0usize
                },
            ),
{
    Composition::narrow_and_wide(app_layout_small(), app_layout_large(), Breakpoint::Small)
}

/// The header bar of the example: the short layout on phones, the wide one
/// from the `Small` breakpoint on. The wide layout is stored first.
pub fn header_layouts() -> (composition: Composition<HeaderArea>)
    ensures
        composition.spec_layouts().len() == 2,
        composition.spec_layouts()[0].rows() == seq![
            seq![
                HeaderArea::Logo,
                HeaderArea::Title,
                HeaderArea::Title,
                HeaderArea::Title,
                HeaderArea::Actions,
            ],
        ],
        composition.spec_layouts()[1].rows() == seq![
            seq![HeaderArea::Title, HeaderArea::Hamburger],
        ],
        composition.spec_layouts()[0].wf(),
        composition.spec_layouts()[1].wf(),
        forall|key: Breakpoint| #[trigger]
            composition.spec_layout_index(key) == Some(
                if key == Breakpoint::ExtraSmall {
                    1usize
                } else {
                    0usize
                },
            ),
{
    Composition::narrow_and_wide(header_layout_small(), header_layout_large(), Breakpoint::Small)
}

} // verus!
