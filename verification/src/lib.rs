//! The logic of a documentation site for a styling library and a
//! component-state library: routing, themes, breakpoint-aware layouts and the
//! state transitions of the interactive examples.
//!
//! Nothing here touches the browser. A rendering shell reads the viewport and
//! the address bar, hands plain values to these functions and draws what they
//! decide.

use vstd::prelude::*;

pub mod app_styling;
pub mod compositions;
pub mod extending_seed;
pub mod header;
pub mod home;
pub mod hooks_api;
pub mod layout;
pub mod layout_composition;
pub mod nav;
pub mod state;
pub mod text;
pub mod thousandtest;

use crate::app_styling::theme::{Breakpoint, Theme};
use crate::layout::{Composition, Layout, LayoutArea};
use crate::text::str_eq;

verus! {

/// The pages of the site.
#[derive(Clone, Copy, PartialEq, Eq, Debug, Structural)]
pub enum Page {
    Home,
    StyleHome,
    SimpleLayout,
    LayoutComposition,
    Theming,
    ResponsiveStyling,
    ButtonStyling,
    LoadTest,
    GettingStarted,
    ExtendingSeed,
    HooksHome,
    HooksGettingStarted,
    HooksApi,
    HooksTutorial,
}

/// The characters of each part of a path.
pub open spec fn path_view(parts: Seq<&str>) -> Seq<Seq<char>> {
    parts.map_values(|part: &str| part@)
}

impl Page {
    /// The single path part under which the page is served: `/buttons` shows
    /// the button styling page.
    pub open spec fn spec_path_part(self) -> Seq<char> {
        match self {
            Page::Home => "home"@,
            Page::StyleHome => "style_home"@,
            Page::SimpleLayout => "simple_layout"@,
            Page::LayoutComposition => "layout"@,
            Page::Theming => "theming"@,
            Page::ResponsiveStyling => "responsive_styling"@,
            Page::ButtonStyling => "buttons"@,
            Page::LoadTest => "load_test"@,
            Page::GettingStarted => "getting_started"@,
            Page::ExtendingSeed => "extending_seed"@,
            Page::HooksHome => "hooks_home"@,
            Page::HooksGettingStarted => "hooks_getting_started"@,
            Page::HooksApi => "hooks_api"@,
            Page::HooksTutorial => "hooks_tutorial"@,
        }
    }

    /// The page that one path part names; the home page for any other text.
    pub open spec fn spec_from_part(part: Seq<char>) -> Page {
        if part == "style_home"@ {
            Page::StyleHome
        } else if part == "home"@ {
            Page::Home
        } else if part == "buttons"@ {
            Page::ButtonStyling
        } else if part == "theming"@ {
            Page::Theming
        } else if part == "responsive_styling"@ {
            Page::ResponsiveStyling
        } else if part == "load_test"@ {
            Page::LoadTest
        } else if part == "simple_layout"@ {
            Page::SimpleLayout
        } else if part == "layout"@ {
            Page::LayoutComposition
        } else if part == "getting_started"@ {
            Page::GettingStarted
        } else if part == "extending_seed"@ {
            Page::ExtendingSeed
        } else if part == "hooks_home"@ {
            Page::HooksHome
        } else if part == "hooks_api"@ {
            Page::HooksApi
        } else if part == "hooks_tutorial"@ {
            Page::HooksTutorial
        } else if part == "hooks_getting_started"@ {
            Page::HooksGettingStarted
        } else {
            Page::Home
        }
    }

    /// The page that a path selects. Only a path of exactly one part names a
    /// page; the empty path, longer paths and unknown names show the home
    /// page.
    pub open spec fn spec_from_path_parts(parts: Seq<Seq<char>>) -> Page {
        if parts.len() == 1 {
            Page::spec_from_part(parts[0])
        } else {
            Page::Home
        }
    }

    /// The path part under which the page is served.
    pub fn path_part(self) -> (part: &'static str)
        ensures
            part@ == self.spec_path_part(),
    {
        match self {
            Page::Home => "home",
            Page::StyleHome => "style_home",
            Page::SimpleLayout => "simple_layout",
            Page::LayoutComposition => "layout",
            Page::Theming => "theming",
            Page::ResponsiveStyling => "responsive_styling",
            Page::ButtonStyling => "buttons",
            Page::LoadTest => "load_test",
            Page::GettingStarted => "getting_started",
            Page::ExtendingSeed => "extending_seed",
            Page::HooksHome => "hooks_home",
            Page::HooksGettingStarted => "hooks_getting_started",
            Page::HooksApi => "hooks_api",
            Page::HooksTutorial => "hooks_tutorial",
        }
    }

    /// The page that one path part names.
    pub fn from_part(part: &str) -> (page: Page)
        ensures
            page == Page::spec_from_part(part@),
    {
        if str_eq(part, "style_home") {
            Page::StyleHome
        } else if str_eq(part, "home") {
            Page::Home
        } else if str_eq(part, "buttons") {
            Page::ButtonStyling
        } else if str_eq(part, "theming") {
            Page::Theming
        } else if str_eq(part, "responsive_styling") {
            Page::ResponsiveStyling
        } else if str_eq(part, "load_test") {
            Page::LoadTest
        } else if str_eq(part, "simple_layout") {
            Page::SimpleLayout
        } else if str_eq(part, "layout") {
            Page::LayoutComposition
        } else if str_eq(part, "getting_started") {
            Page::GettingStarted
        } else if str_eq(part, "extending_seed") {
            Page::ExtendingSeed
        } else if str_eq(part, "hooks_home") {
            Page::HooksHome
        } else if str_eq(part, "hooks_api") {
            Page::HooksApi
        } else if str_eq(part, "hooks_tutorial") {
            Page::HooksTutorial
        } else if str_eq(part, "hooks_getting_started") {
            Page::HooksGettingStarted
        } else {
            Page::Home
        }
    }

    /// The page that the remaining parts of a path select.
    pub fn from_path_parts(parts: &[&str]) -> (page: Page)
        ensures
            page == Page::spec_from_path_parts(path_view(parts@)),
    {
        if parts.len() == 1 {
            Page::from_part(parts[0])
        } else {
            Page::Home
        }
    }

    /// Only its own path part leads to a page other than the home page.
    pub proof fn lemma_only_own_part_routes_here(self, part: Seq<char>)
        requires
            self != Page::Home,
            Page::spec_from_part(part) == self,
        ensures
            part == self.spec_path_part(),
    {
    }

    /// Every page is reached by its own path part: no two pages share one,
    /// and the router knows them all.
    pub proof fn lemma_path_part_routes_back(self)
        ensures
            Page::spec_from_part(self.spec_path_part()) == self,
            Page::spec_from_path_parts(seq![self.spec_path_part()]) == self,
    {
        reveal_strlit("home");
        reveal_strlit("style_home");
        reveal_strlit("simple_layout");
        reveal_strlit("layout");
        reveal_strlit("theming");
        reveal_strlit("responsive_styling");
        reveal_strlit("buttons");
        reveal_strlit("load_test");
        reveal_strlit("getting_started");
        reveal_strlit("extending_seed");
        reveal_strlit("hooks_home");
        reveal_strlit("hooks_getting_started");
        reveal_strlit("hooks_api");
        reveal_strlit("hooks_tutorial");
        // Two names differ in length or in their first character.
        assert("home"@.len() == 4 && "home"@[0] == 'h');
        assert("style_home"@.len() == 10 && "style_home"@[0] == 's');
        assert("simple_layout"@.len() == 13 && "simple_layout"@[0] == 's');
        assert("layout"@.len() == 6 && "layout"@[0] == 'l');
        assert("theming"@.len() == 7 && "theming"@[0] == 't');
        assert("responsive_styling"@.len() == 18 && "responsive_styling"@[0] == 'r');
        assert("buttons"@.len() == 7 && "buttons"@[0] == 'b');
        assert("load_test"@.len() == 9 && "load_test"@[0] == 'l');
        assert("getting_started"@.len() == 15 && "getting_started"@[0] == 'g');
        assert("extending_seed"@.len() == 14 && "extending_seed"@[0] == 'e');
        assert("hooks_home"@.len() == 10 && "hooks_home"@[0] == 'h');
        assert("hooks_getting_started"@.len() == 21 && "hooks_getting_started"@[0] == 'h');
        assert("hooks_api"@.len() == 9 && "hooks_api"@[0] == 'h');
        assert("hooks_tutorial"@.len() == 14 && "hooks_tutorial"@[0] == 'h');
    }
}

/// What the site remembers between events: the page on show, and whether
/// the navigation drawer is open.
#[derive(Clone, Copy, PartialEq, Eq, Debug, Structural)]
pub struct Model {
    pub page: Page,
    pub show_drawer: bool,
}

/// The events the site reacts to.
#[derive(Clone, Debug)]
pub enum Msg {
    /// The markdown editor hands in what it has rendered.
    SubmitMarkdownHtml(String),
    WindowResized,
    NoOp,
}

/// What an event asks of the shell that draws the site.
#[derive(Debug)]
pub enum Effect {
    /// Draw again only if the viewport has left the breakpoint it was in.
    RenderOnBreakpointChange,
    /// Write the text to the console, then draw again.
    Log(String),
    /// Draw again.
    Render,
}

/// The site as it starts: the home page, the drawer closed.
pub fn init() -> (model: Model)
    ensures
        model == (Model { page: Page::Home, show_drawer: false }),
{
    Model { page: Page::Home, show_drawer: false }
}

/// Reacts to an event. No event changes the model; each says what the shell
/// is to do.
pub fn update(msg: Msg, model: &mut Model) -> (effect: Effect)
    ensures
        *final(model) == *old(model),
        effect == match msg {
            Msg::WindowResized => Effect::RenderOnBreakpointChange,
            Msg::NoOp => Effect::Render,
            Msg::SubmitMarkdownHtml(html) => Effect::Log(html),
        },
{
    match msg {
        Msg::WindowResized => Effect::RenderOnBreakpointChange,
        Msg::NoOp => Effect::Render,
        Msg::SubmitMarkdownHtml(html) => Effect::Log(html),
    }
}

impl Model {
    /// Whether the page on show is one of the three introductory pages,
    /// which run from edge to edge.
    pub open spec fn spec_on_intro_page(&self) -> bool {
        self.page == Page::Home || self.page == Page::LayoutComposition || self.page
            == Page::HooksHome
    }

    /// Whether the page on show is one of the three introductory pages.
    pub fn on_intro_page(&self) -> (intro: bool)
        ensures
            intro == self.spec_on_intro_page(),
    {
        self.page == Page::Home || self.page == Page::LayoutComposition || self.page
            == Page::HooksHome
    }

    /// The address has changed: the page that the path selects is shown.
    /// Returns whether this is another page than before, in which case the
    /// window is to scroll back to the top.
    pub fn url_changed(&mut self, parts: &[&str]) -> (scroll_to_top: bool)
        ensures
            final(self).page == Page::spec_from_path_parts(path_view(parts@)),
            final(self).show_drawer == old(self).show_drawer,
            scroll_to_top == (final(self).page != old(self).page),
    {
        let new_page = Page::from_path_parts(parts);
        if self.page != new_page {
            self.page = new_page;
            true
        } else {
            false
        }
    }

    /// Shows the page, as the buttons on the home pages do.
    pub fn show_page(&mut self, page: Page)
        ensures
            *final(self) == (Model { page, ..*old(self) }),
    {
        self.page = page;
    }

    /// A click on the drawer button: opens the drawer if it is closed and
    /// closes it if it is open.
    pub fn toggle_drawer(&mut self)
        ensures
            *final(self) == (Model { show_drawer: !old(self).show_drawer, ..*old(self) }),
    {
        self.show_drawer = !self.show_drawer;
    }

    /// A click on a link of the navigation: the drawer closes.
    pub fn close_drawer(&mut self)
        ensures
            *final(self) == (Model { show_drawer: false, ..*old(self) }),
    {
        self.show_drawer = false;
    }

    /// Before a page is drawn: where the navigation is always visible, from
    /// the `Small` breakpoint on, the drawer counts as closed.
    pub fn settle_drawer(&mut self, theme: &Theme, width: u32)
        requires
            theme.spec_breakpoint(Breakpoint::Small) is Some,
        ensures
            final(self).page == old(self).page,
            final(self).show_drawer == (old(self).show_drawer && !theme.spec_only_and_above(
                Breakpoint::Small,
                width,
            )),
    {
        if theme.only_and_above(Breakpoint::Small, width) {
            self.show_drawer = false;
        }
    }
}

/// The areas of the whole window.
#[derive(Hash, PartialEq, Eq, Clone, Copy, Debug, Structural)]
pub enum AppAreas {
    Header,
    MainContent,
}

impl LayoutArea for AppAreas {
    open spec fn spec_is_empty(&self) -> bool {
        false
    }

    open spec fn spec_name(&self) -> Seq<char> {
        match self {
            AppAreas::Header => "Header"@,
            AppAreas::MainContent => "MainContent"@,
        }
    }

    fn is_empty(&self) -> (empty: bool) {
        false
    }

    fn name(&self) -> (name: &'static str) {
        match self {
            AppAreas::Header => "Header",
            AppAreas::MainContent => "MainContent",
        }
    }

    fn same(&self, other: &Self) -> (same: bool) {
        *self == *other
    }
}

/// The layout of the whole window: the header above the main content, at
/// every width.
pub fn themed_layout() -> (composition: Composition<AppAreas>)
    ensures
        composition.spec_registrations() == seq![(Breakpoint::ExtraSmall, 0usize)],
        composition.spec_layouts().len() == 1,
        composition.spec_layouts()[0].rows() == seq![
            seq![AppAreas::Header],
            seq![AppAreas::MainContent],
        ],
        composition.spec_layouts()[0].wf(),
{
    let header: [AppAreas; 1] = [AppAreas::Header];
    let main_content: [AppAreas; 1] = [AppAreas::MainContent];
    let grid: [&[AppAreas]; 2] = [header.as_slice(), main_content.as_slice()];
    let layout = Layout::areas(grid.as_slice());
    assert(layout.rows() =~= seq![seq![AppAreas::Header], seq![AppAreas::MainContent]]) by {
        assert(layout.rows()[0] =~= seq![AppAreas::Header]);
        assert(layout.rows()[1] =~= seq![AppAreas::MainContent]);
    }
    Composition::with_layout(layout)
}

} // verus!
