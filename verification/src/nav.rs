//! The navigation drawer: its links, and how it slides in and out.

use vstd::prelude::*;

use crate::app_styling::theme::Shadow;
use crate::Page;

verus! {

/// The pages under the heading of the styling library, in the order of
/// their links.
pub open spec fn spec_style_pages() -> Seq<Page> {
    seq![
        Page::StyleHome,
        Page::GettingStarted,
        Page::ButtonStyling,
        Page::Theming,
        Page::ResponsiveStyling,
        Page::SimpleLayout,
        Page::LayoutComposition,
        Page::ExtendingSeed,
        Page::LoadTest,
    ]
}

/// The pages under the heading of the state library, in the order of their
/// links.
pub open spec fn spec_hooks_pages() -> Seq<Page> {
    seq![Page::HooksHome, Page::HooksGettingStarted, Page::HooksApi, Page::HooksTutorial]
}

/// The text of the link to a page.
pub open spec fn spec_title(page: Page) -> Seq<char> {
    match page {
        Page::Home => "Seed Style"@,
        Page::StyleHome => "Style Home"@,
        Page::SimpleLayout => "Simple Layout Primitives"@,
        Page::LayoutComposition => "Layout Example"@,
        Page::Theming => "Theming Support"@,
        Page::ResponsiveStyling => "Responsive Styling"@,
        Page::ButtonStyling => "Button Styling"@,
        Page::LoadTest => "Load Test"@,
        Page::GettingStarted => "Getting Started"@,
        Page::ExtendingSeed => "Extending Seed"@,
        Page::HooksHome => "Hooks Home"@,
        Page::HooksGettingStarted => "Hooks Getting Started"@,
        Page::HooksApi => "Hooks Api"@,
        Page::HooksTutorial => "Hooks Tutorial"@,
    }
}

/// The pages under the heading of the styling library.
pub fn style_pages() -> (pages: Vec<Page>)
    ensures
        pages@ == spec_style_pages(),
{
    let mut pages: Vec<Page> = Vec::new();
    pages.push(Page::StyleHome);
    pages.push(Page::GettingStarted);
    pages.push(Page::ButtonStyling);
    pages.push(Page::Theming);
    pages.push(Page::ResponsiveStyling);
    pages.push(Page::SimpleLayout);
    pages.push(Page::LayoutComposition);
    pages.push(Page::ExtendingSeed);
    pages.push(Page::LoadTest);
    assert(pages@ =~= spec_style_pages());
    pages
}

/// The pages under the heading of the state library.
pub fn hooks_pages() -> (pages: Vec<Page>)
    ensures
        pages@ == spec_hooks_pages(),
{
    let mut pages: Vec<Page> = Vec::new();
    pages.push(Page::HooksHome);
    pages.push(Page::HooksGettingStarted);
    pages.push(Page::HooksApi);
    pages.push(Page::HooksTutorial);
    assert(pages@ =~= spec_hooks_pages());
    pages
}

/// The text of the link to a page.
pub fn title(page: Page) -> (text: &'static str)
    ensures
        text@ == spec_title(page),
{
    match page {
        Page::Home => "Seed Style",
        Page::StyleHome => "Style Home",
        Page::SimpleLayout => "Simple Layout Primitives",
        Page::LayoutComposition => "Layout Example",
        Page::Theming => "Theming Support",
        Page::ResponsiveStyling => "Responsive Styling",
        Page::ButtonStyling => "Button Styling",
        Page::LoadTest => "Load Test",
        Page::GettingStarted => "Getting Started",
        Page::ExtendingSeed => "Extending Seed",
        Page::HooksHome => "Hooks Home",
        Page::HooksGettingStarted => "Hooks Getting Started",
        Page::HooksApi => "Hooks Api",
        Page::HooksTutorial => "Hooks Tutorial",
    }
}

/// The address of a page: a slash and its path part.
pub fn href(page: Page) -> (address: String)
    ensures
        address@ == "/"@ + page.spec_path_part(),
{
    let mut address = String::new();
    address.append("/");
    address.append(page.path_part());
    assert(address@ =~= "/"@ + page.spec_path_part());
    address
}

/// How the drawer is drawn on phones: in place with a shadow along its
/// right edge when it is open, moved out of view to the left when it is
/// closed.
pub struct DrawerStyle {
    /// The value of the CSS `transform` property.
    pub transform: &'static str,
    /// The shadow of the drawer, if it casts one.
    pub box_shadow: Option<Shadow>,
}

/// How the drawer is drawn on phones.
pub fn drawer_style(show_drawer: bool) -> (style: DrawerStyle)
    ensures
        style.transform@ == if show_drawer {
            "translateX(0px)"@
        } else {
            "translateX(-100%)"@
        },
        style.box_shadow == if show_drawer {
            Some(Shadow::RightEdge)
        } else {
            None
        },
{
    if show_drawer {
        DrawerStyle { transform: "translateX(0px)", box_shadow: Some(Shadow::RightEdge) }
    } else {
        DrawerStyle { transform: "translateX(-100%)", box_shadow: None }
    }
}

} // verus!
