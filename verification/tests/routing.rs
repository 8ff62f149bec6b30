use seed_docs::nav;
use seed_docs::text::str_eq;
use seed_docs::{init, update, Effect, Model, Msg, Page};

const ALL_PAGES: [Page; 14] = [
    Page::Home,
    Page::StyleHome,
    Page::SimpleLayout,
    Page::LayoutComposition,
    Page::Theming,
    Page::ResponsiveStyling,
    Page::ButtonStyling,
    Page::LoadTest,
    Page::GettingStarted,
    Page::ExtendingSeed,
    Page::HooksHome,
    Page::HooksGettingStarted,
    Page::HooksApi,
    Page::HooksTutorial,
];

#[test]
fn every_known_path_selects_its_page() {
    assert_eq!(Page::from_path_parts(&["style_home"]), Page::StyleHome);
    assert_eq!(Page::from_path_parts(&["home"]), Page::Home);
    assert_eq!(Page::from_path_parts(&["buttons"]), Page::ButtonStyling);
    assert_eq!(Page::from_path_parts(&["theming"]), Page::Theming);
    assert_eq!(Page::from_path_parts(&["responsive_styling"]), Page::ResponsiveStyling);
    assert_eq!(Page::from_path_parts(&["load_test"]), Page::LoadTest);
    assert_eq!(Page::from_path_parts(&["simple_layout"]), Page::SimpleLayout);
    assert_eq!(Page::from_path_parts(&["layout"]), Page::LayoutComposition);
    assert_eq!(Page::from_path_parts(&["getting_started"]), Page::GettingStarted);
    assert_eq!(Page::from_path_parts(&["extending_seed"]), Page::ExtendingSeed);
    assert_eq!(Page::from_path_parts(&["hooks_home"]), Page::HooksHome);
    assert_eq!(Page::from_path_parts(&["hooks_api"]), Page::HooksApi);
    assert_eq!(Page::from_path_parts(&["hooks_tutorial"]), Page::HooksTutorial);
    assert_eq!(Page::from_path_parts(&["hooks_getting_started"]), Page::HooksGettingStarted);
}

#[test]
fn the_empty_path_selects_home() {
    let parts: [&str; 0] = [];
    assert_eq!(Page::from_path_parts(&parts), Page::Home);
}

#[test]
fn an_unknown_name_selects_home() {
    assert_eq!(Page::from_path_parts(&["no_such_page"]), Page::Home);
    assert_eq!(Page::from_path_parts(&[""]), Page::Home);
    assert_eq!(Page::from_path_parts(&["Buttons"]), Page::Home);
    assert_eq!(Page::from_path_parts(&["buttons "]), Page::Home);
    assert_eq!(Page::from_path_parts(&["hooks"]), Page::Home);
}

#[test]
fn a_longer_path_selects_home() {
    assert_eq!(Page::from_path_parts(&["buttons", "more"]), Page::Home);
    assert_eq!(Page::from_path_parts(&["theming", "theming"]), Page::Home);
    assert_eq!(Page::from_path_parts(&["a", "b", "c"]), Page::Home);
}

#[test]
fn from_part_reads_a_single_name() {
    assert_eq!(Page::from_part("layout"), Page::LayoutComposition);
    assert_eq!(Page::from_part("simple_layout"), Page::SimpleLayout);
    assert_eq!(Page::from_part("layouts"), Page::Home);
}

#[test]
fn every_page_is_reached_by_its_own_path_part() {
    for page in ALL_PAGES {
        assert_eq!(Page::from_part(page.path_part()), page);
        assert_eq!(Page::from_path_parts(&[page.path_part()]), page);
    }
}

#[test]
fn path_parts_are_the_names_the_site_links_to() {
    assert_eq!(Page::Home.path_part(), "home");
    assert_eq!(Page::ButtonStyling.path_part(), "buttons");
    assert_eq!(Page::LayoutComposition.path_part(), "layout");
    assert_eq!(Page::HooksHome.path_part(), "hooks_home");
    assert_eq!(Page::HooksGettingStarted.path_part(), "hooks_getting_started");
}

#[test]
fn the_site_starts_on_the_home_page_with_the_drawer_closed() {
    assert_eq!(init(), Model { page: Page::Home, show_drawer: false });
}

#[test]
fn a_new_address_shows_its_page_and_scrolls_to_the_top() {
    let mut model = init();
    assert!(model.url_changed(&["theming"]));
    assert_eq!(model.page, Page::Theming);
    assert!(!model.show_drawer);
}

#[test]
fn the_same_address_again_does_not_scroll() {
    let mut model = Model { page: Page::Theming, show_drawer: true };
    assert!(!model.url_changed(&["theming"]));
    assert_eq!(model, Model { page: Page::Theming, show_drawer: true });
}

#[test]
fn an_unknown_address_leads_home() {
    let mut model = Model { page: Page::HooksApi, show_drawer: false };
    assert!(model.url_changed(&["nowhere"]));
    assert_eq!(model.page, Page::Home);
    assert!(!model.url_changed(&[]));
    assert_eq!(model.page, Page::Home);
}

#[test]
fn url_changed_keeps_the_drawer_as_it_is() {
    let mut model = Model { page: Page::Home, show_drawer: true };
    assert!(model.url_changed(&["buttons"]));
    assert!(model.show_drawer);
}

#[test]
fn three_pages_are_introductory() {
    for page in ALL_PAGES {
        let model = Model { page, show_drawer: false };
        let expected =
            page == Page::Home || page == Page::LayoutComposition || page == Page::HooksHome;
        assert_eq!(model.on_intro_page(), expected);
    }
}

#[test]
fn show_page_changes_the_page_only() {
    let mut model = Model { page: Page::StyleHome, show_drawer: true };
    model.show_page(Page::LoadTest);
    assert_eq!(model, Model { page: Page::LoadTest, show_drawer: true });
}

#[test]
fn the_drawer_button_opens_and_closes() {
    let mut model = init();
    model.toggle_drawer();
    assert_eq!(model, Model { page: Page::Home, show_drawer: true });
    model.toggle_drawer();
    assert_eq!(model, Model { page: Page::Home, show_drawer: false });
}

#[test]
fn a_navigation_link_closes_the_drawer() {
    let mut model = Model { page: Page::Theming, show_drawer: true };
    model.close_drawer();
    assert_eq!(model, Model { page: Page::Theming, show_drawer: false });
    model.close_drawer();
    assert_eq!(model, Model { page: Page::Theming, show_drawer: false });
}

#[test]
fn a_resize_asks_to_render_on_breakpoint_change() {
    let mut model = Model { page: Page::Theming, show_drawer: true };
    let effect = update(Msg::WindowResized, &mut model);
    assert!(matches!(effect, Effect::RenderOnBreakpointChange));
    assert_eq!(model, Model { page: Page::Theming, show_drawer: true });
}

#[test]
fn no_op_asks_to_render() {
    let mut model = init();
    let effect = update(Msg::NoOp, &mut model);
    assert!(matches!(effect, Effect::Render));
    assert_eq!(model, init());
}

#[test]
fn submitted_html_is_logged() {
    let mut model = init();
    let effect = update(Msg::SubmitMarkdownHtml("<h1>Title</h1>".to_string()), &mut model);
    match effect {
        Effect::Log(html) => assert_eq!(html, "<h1>Title</h1>"),
        other => panic!("expected a log entry, got {:?}", other),
    }
    assert_eq!(model, init());
}

#[test]
fn navigation_lists_the_pages_in_order() {
    assert_eq!(
        nav::style_pages(),
        vec![
            Page::StyleHome,
            Page::GettingStarted,
            Page::ButtonStyling,
            Page::Theming,
            Page::ResponsiveStyling,
            Page::SimpleLayout,
            Page::LayoutComposition,
            Page::ExtendingSeed,
            Page::LoadTest,
        ]
    );
    assert_eq!(
        nav::hooks_pages(),
        vec![Page::HooksHome, Page::HooksGettingStarted, Page::HooksApi, Page::HooksTutorial]
    );
}

#[test]
fn navigation_titles() {
    assert_eq!(nav::title(Page::Home), "Seed Style");
    assert_eq!(nav::title(Page::StyleHome), "Style Home");
    assert_eq!(nav::title(Page::GettingStarted), "Getting Started");
    assert_eq!(nav::title(Page::ButtonStyling), "Button Styling");
    assert_eq!(nav::title(Page::Theming), "Theming Support");
    assert_eq!(nav::title(Page::ResponsiveStyling), "Responsive Styling");
    assert_eq!(nav::title(Page::SimpleLayout), "Simple Layout Primitives");
    assert_eq!(nav::title(Page::LayoutComposition), "Layout Example");
    assert_eq!(nav::title(Page::ExtendingSeed), "Extending Seed");
    assert_eq!(nav::title(Page::LoadTest), "Load Test");
    assert_eq!(nav::title(Page::HooksHome), "Hooks Home");
    assert_eq!(nav::title(Page::HooksGettingStarted), "Hooks Getting Started");
    assert_eq!(nav::title(Page::HooksApi), "Hooks Api");
    assert_eq!(nav::title(Page::HooksTutorial), "Hooks Tutorial");
}

#[test]
fn navigation_addresses() {
    assert_eq!(nav::href(Page::Home), "/home");
    assert_eq!(nav::href(Page::ButtonStyling), "/buttons");
    assert_eq!(nav::href(Page::LayoutComposition), "/layout");
    assert_eq!(nav::href(Page::HooksTutorial), "/hooks_tutorial");
}

#[test]
fn every_navigation_link_leads_to_its_page() {
    let mut pages = nav::style_pages();
    pages.extend(nav::hooks_pages());
    assert_eq!(pages.len(), 13);
    for page in pages {
        let address = nav::href(page);
        let parts: Vec<&str> = address.split('/').filter(|part| !part.is_empty()).collect();
        assert_eq!(Page::from_path_parts(&parts), page);
    }
}

#[test]
fn the_open_drawer_is_in_place_and_casts_a_shadow() {
    let style = nav::drawer_style(true);
    assert_eq!(style.transform, "translateX(0px)");
    assert_eq!(style.box_shadow, Some(seed_docs::app_styling::theme::Shadow::RightEdge));
}

#[test]
fn the_closed_drawer_is_out_of_view() {
    let style = nav::drawer_style(false);
    assert_eq!(style.transform, "translateX(-100%)");
    assert_eq!(style.box_shadow, None);
}

#[test]
fn str_eq_compares_characters() {
    assert!(str_eq("", ""));
    assert!(str_eq("home", "home"));
    assert!(!str_eq("home", "homes"));
    assert!(!str_eq("home", "hOme"));
    assert!(!str_eq("", "a"));
    assert!(str_eq("grüße", "grüße"));
    assert!(!str_eq("grüße", "grusse"));
}
