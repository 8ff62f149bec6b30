//! The frame that every page shares: the navigation beside the main content.

use vstd::prelude::*;

use crate::app_styling::theme::Breakpoint;
use crate::layout::{Composition, Layout, LayoutArea};

verus! {

/// The areas of the frame.
#[derive(Hash, PartialEq, Eq, Clone, Copy, Debug, Structural)]
pub enum AppArea {
    Main,
    Nav,
}

impl LayoutArea for AppArea {
    open spec fn spec_is_empty(&self) -> bool {
        false
    }

    open spec fn spec_name(&self) -> Seq<char> {
        match self {
            AppArea::Main => "Main"@,
            AppArea::Nav => "Nav"@,
        }
    }

    fn is_empty(&self) -> (empty: bool) {
        false
    }

    fn name(&self) -> (name: &'static str) {
        match self {
            AppArea::Main => "Main",
            AppArea::Nav => "Nav",
        }
    }

    fn same(&self, other: &Self) -> (same: bool) {
        *self == *other
    }
}

/// The frame of a page: where its areas lie, and how far the main area
/// keeps its content from its left and right edges.
pub struct MainWithSidebar {
    pub composition: Composition<AppArea>,
    /// The horizontal padding of the main area in pixels, if it has any.
    pub main_padding: Option<u32>,
}

/// The frame of a page: the navigation to the left of the main content, at
/// every width. The main area is padded by 12 pixels except on the
/// introductory pages, which run from edge to edge.
pub fn main_with_sidebar(on_intro_page: bool) -> (frame: MainWithSidebar)
    ensures
        frame.main_padding == if on_intro_page {
            None
        } else {
            Some(12u32)
        },
        frame.composition.spec_registrations() == seq![(Breakpoint::ExtraSmall, 0usize)],
        frame.composition.spec_layouts().len() == 1,
        frame.composition.spec_layouts()[0].rows() == seq![seq![AppArea::Nav, AppArea::Main]],
        frame.composition.spec_layouts()[0].wf(),
{
    let row: [AppArea; 2] = [AppArea::Nav, AppArea::Main];
    let grid: [&[AppArea]; 1] = [row.as_slice()];
    let layout = Layout::areas(grid.as_slice());
    assert(layout.rows() =~= seq![seq![AppArea::Nav, AppArea::Main]]) by {
        assert(layout.rows()[0] =~= seq![AppArea::Nav, AppArea::Main]);
    }
    MainWithSidebar {
        composition: Composition::with_layout(layout),
        main_padding: if on_intro_page {
            None
        } else {
            Some(12)
        },
    }
}

} // verus!
