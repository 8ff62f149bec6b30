//! The header bar: its layouts and the switch between the two themes.

use vstd::prelude::*;

use crate::app_styling::theme::{dark_theme, is_dark_theme, is_light_theme, my_theme, Breakpoint, Theme};
use crate::layout::{Composition, Layout, LayoutArea};

verus! {

/// The areas of the header bar.
#[derive(PartialEq, Eq, Clone, Copy, Hash, Debug, Structural)]
pub enum Area {
    Home,
    Theme,
    HeaderOptions,
    Empty,
}

impl LayoutArea for Area {
    open spec fn spec_is_empty(&self) -> bool {
        *self == Area::Empty
    }

    open spec fn spec_name(&self) -> Seq<char> {
        match self {
            Area::Home => "Home"@,
            Area::Theme => "Theme"@,
            Area::HeaderOptions => "HeaderOptions"@,
            Area::Empty => "Empty"@,
        }
    }

    fn is_empty(&self) -> (empty: bool) {
        *self == Area::Empty
    }

    fn name(&self) -> (name: &'static str) {
        match self {
            Area::Home => "Home",
            Area::Theme => "Theme",
            Area::HeaderOptions => "HeaderOptions",
            Area::Empty => "Empty",
        }
    }

    fn same(&self, other: &Self) -> (same: bool) {
        *self == *other
    }
}

/// The layouts of the header bar. On phones a button that opens the drawer
/// sits beside the theme switch; from the `Small` breakpoint on the
/// navigation is always visible and the button is gone. The wide layout is
/// stored first, the one for phones second.
pub fn header_layouts() -> (composition: Composition<Area>)
    ensures
        composition.spec_layouts().len() == 2,
        composition.spec_layouts()[0].rows() == seq![seq![Area::Home, Area::Empty, Area::Theme]],
        composition.spec_layouts()[1].rows() == seq![
            seq![Area::Home, Area::Empty, Area::HeaderOptions, Area::Theme],
        ],
        composition.spec_layouts()[0].wf(),
        composition.spec_layouts()[1].wf(),
        forall|key: Breakpoint| #[trigger]
            composition.spec_layout_index(key) == Some(
                if key == Breakpoint::ExtraSmall {
                    1usize
                } else {
                    0usize
                },
            ),
{
    let wide_row: [Area; 3] = [Area::Home, Area::Empty, Area::Theme];
    let wide_grid: [&[Area]; 1] = [wide_row.as_slice()];
    let wide = Layout::areas(wide_grid.as_slice());
    assert(wide.rows() =~= seq![seq![Area::Home, Area::Empty, Area::Theme]]) by {
        assert(wide.rows()[0] =~= seq![Area::Home, Area::Empty, Area::Theme]);
    }
    let narrow_row: [Area; 4] = [Area::Home, Area::Empty, Area::HeaderOptions, Area::Theme];
    let narrow_grid: [&[Area]; 1] = [narrow_row.as_slice()];
    let narrow = Layout::areas(narrow_grid.as_slice());
    assert(narrow.rows() =~= seq![
        seq![Area::Home, Area::Empty, Area::HeaderOptions, Area::Theme],
    ]) by {
        assert(narrow.rows()[0] =~= seq![
            Area::Home,
            Area::Empty,
            Area::HeaderOptions,
            Area::Theme,
        ]);
    }
    Composition::narrow_and_wide(narrow, wide, Breakpoint::Small)
}

/// The name of the theme that is in use.
pub open spec fn theme_in_use(using_dark_theme: bool) -> Seq<char> {
    if using_dark_theme {
        "dark_theme"@
    } else {
        "light_theme"@
    }
}

/// What the theme button shows.
pub fn theme_button_label(using_dark_theme: bool) -> (label: &'static str)
    ensures
        label@ == if using_dark_theme {
            "Dark Theme"@
        } else {
            "Light Theme"@
        },
{
    if using_dark_theme {
        "Dark Theme"
    } else {
        "Light Theme"
    }
}

/// A change of theme: the loaded theme of the given name makes way for the
/// new one.
pub struct ThemeChange {
    pub replaced: &'static str,
    pub theme: Theme,
}

/// A click on the theme button: the theme in use makes way for the other
/// one, and the switch remembers which is now in use.
pub fn switch_theme(using_dark_theme: &mut bool) -> (change: ThemeChange)
    ensures
        *final(using_dark_theme) == !*old(using_dark_theme),
        change.replaced@ == theme_in_use(*old(using_dark_theme)),
        change.theme.spec_name() == theme_in_use(*final(using_dark_theme)),
        if *old(using_dark_theme) {
            is_light_theme(change.theme)
        } else {
            is_dark_theme(change.theme)
        },
        change.theme.breakpoints_ascending(),
{
    let change = if *using_dark_theme {
        ThemeChange { replaced: "dark_theme", theme: my_theme() }
    } else {
        ThemeChange { replaced: "light_theme", theme: dark_theme() }
    };
    *using_dark_theme = !*using_dark_theme;
    change
}

} // verus!
