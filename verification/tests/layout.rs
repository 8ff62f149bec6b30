use seed_docs::app_styling::theme::{my_theme, Breakpoint, Theme};
use seed_docs::compositions::{main_with_sidebar, AppArea};
use seed_docs::header;
use seed_docs::header::Area as Bar;
use seed_docs::home::HeroHeaderArea as Hero;
use seed_docs::home::{hero_header_layout, intro_layout, HeroHeaderArea, IntroAreas};
use seed_docs::layout::{grid_area, select_layout, Composition, Layout, LayoutArea};
use seed_docs::layout_composition as example;
use seed_docs::layout_composition::AppArea as Part;
use seed_docs::layout_composition::HeaderArea as Top;
use seed_docs::{themed_layout, AppAreas};

#[test]
fn areas_are_listed_once_in_the_order_of_first_appearance() {
    let layout = Layout::areas(&[
        &[Part::Header, Part::Header, Part::Header],
        &[Part::Sidebar, Part::MainContent, Part::MainContent],
        &[Part::Footer, Part::Footer, Part::Footer],
    ]);
    assert_eq!(layout.areas, vec![Part::Header, Part::Sidebar, Part::MainContent, Part::Footer]);
    assert_eq!(
        layout.layout,
        vec![
            vec![Part::Header, Part::Header, Part::Header],
            vec![Part::Sidebar, Part::MainContent, Part::MainContent],
            vec![Part::Footer, Part::Footer, Part::Footer],
        ]
    );
}

#[test]
fn an_area_seen_again_in_a_later_row_is_not_listed_again() {
    let layout = Layout::areas(&[&[Part::Nav, Part::Header], &[Part::Header, Part::Nav], &[Part::Footer, Part::Nav]]);
    assert_eq!(layout.areas, vec![Part::Nav, Part::Header, Part::Footer]);
}

#[test]
fn gaps_are_not_areas() {
    let layout = Layout::areas(&[&[Hero::Empty, Hero::Empty, Hero::Empty], &[Hero::Empty, Hero::Title, Hero::Empty], &[
        Hero::Empty, Hero::Subtitle, Hero::Empty,
    ]]);
    assert_eq!(layout.areas, vec![Hero::Title, Hero::Subtitle]);
    assert_eq!(layout.layout.len(), 3);
    assert_eq!(layout.layout[1], vec![Hero::Empty, Hero::Title, Hero::Empty]);
}

#[test]
fn a_grid_without_rows_has_no_areas() {
    let rows: [&[AppArea]; 0] = [];
    let layout = Layout::areas(&rows);
    assert!(layout.areas.is_empty());
    assert!(layout.layout.is_empty());
    assert!(!layout.has_areas());
    assert_eq!(layout.grid_template_areas(), "");
    assert_eq!(layout.grid_template_rows(), "");
}

#[test]
fn rows_may_differ_in_length() {
    let layout = Layout::areas(&[&[Part::Header], &[], &[Part::Nav, Part::Footer]]);
    assert_eq!(layout.areas, vec![Part::Header, Part::Nav, Part::Footer]);
    assert_eq!(layout.grid_template_areas(), "\"Header \" \"\" \"Nav Footer \" ");
    assert_eq!(layout.grid_template_columns(), "minmax(0,1fr) ");
    assert_eq!(layout.grid_template_rows(), "minmax(0,1fr) minmax(0,1fr) minmax(0,1fr) ");
}

#[test]
fn a_plain_grid_names_nothing() {
    let layout: Layout<AppArea> = Layout::grid();
    assert!(layout.areas.is_empty());
    assert!(layout.layout.is_empty());
    assert!(!layout.has_areas());
    let example_grid = example::main_content_layout();
    assert!(example_grid.areas.is_empty());
    assert!(!example_grid.has_areas());
}

#[test]
fn template_areas_of_a_single_row() {
    let layout = Layout::areas(&[&[AppArea::Nav, AppArea::Main]]);
    assert!(layout.has_areas());
    assert_eq!(layout.grid_template_areas(), "\"Nav Main \" ");
    assert_eq!(layout.grid_template_columns(), "minmax(0,1fr) minmax(0,1fr) ");
    assert_eq!(layout.grid_template_rows(), "minmax(0,1fr) ");
}

#[test]
fn template_areas_of_several_rows() {
    let layout = example::app_layout_large();
    assert_eq!(
        layout.grid_template_areas(),
        "\"Header Header Header \" \"Sidebar MainContent MainContent \" \"Footer Footer Footer \" "
    );
    assert_eq!(layout.grid_template_columns(), "minmax(0,1fr) minmax(0,1fr) minmax(0,1fr) ");
    assert_eq!(layout.grid_template_rows(), "minmax(0,1fr) minmax(0,1fr) minmax(0,1fr) ");
}

#[test]
fn template_areas_write_gaps_as_dots() {
    let composition = hero_header_layout();
    assert_eq!(composition.len(), 1);
    let layout = composition.layout(0);
    assert_eq!(
        layout.grid_template_areas(),
        "\" .  .  . \" \" . Title  . \" \" . Subtitle  . \" "
    );
    assert_eq!(layout.areas, vec![HeroHeaderArea::Title, HeroHeaderArea::Subtitle]);
}

#[test]
fn grid_area_is_the_name_and_a_space() {
    assert_eq!(grid_area(&AppArea::Main), "Main ");
    assert_eq!(grid_area(&example::AppArea::MainContent), "MainContent ");
    assert_eq!(grid_area(&header::Area::HeaderOptions), "HeaderOptions ");
}

#[test]
fn area_names_and_gaps() {
    assert_eq!(AppArea::Main.name(), "Main");
    assert_eq!(AppArea::Nav.name(), "Nav");
    assert!(!AppArea::Nav.is_empty());
    assert_eq!(AppAreas::Header.name(), "Header");
    assert_eq!(AppAreas::MainContent.name(), "MainContent");
    assert_eq!(IntroAreas::HeroHeader.name(), "HeroHeader");
    assert_eq!(IntroAreas::MainContent.name(), "MainContent");
    assert!(header::Area::Empty.is_empty());
    assert!(!header::Area::Home.is_empty());
    assert_eq!(header::Area::Theme.name(), "Theme");
    assert!(HeroHeaderArea::Empty.is_empty());
    assert!(!HeroHeaderArea::Title.is_empty());
    assert_eq!(example::HeaderArea::Hamburger.name(), "Hamburger");
    assert_eq!(example::HeaderArea::Logo.name(), "Logo");
    assert_eq!(example::HeaderArea::Actions.name(), "Actions");
    assert_eq!(example::AppArea::Sidebar.name(), "Sidebar");
    assert!(AppArea::Main.same(&AppArea::Main));
    assert!(!AppArea::Main.same(&AppArea::Nav));
    assert!(header::Area::Empty.same(&header::Area::Empty));
}

#[test]
fn the_range_that_contains_the_width_is_selected() {
    let ranges = [(0, Some(600)), (600, Some(960)), (960, Some(1280)), (1280, None)];
    assert_eq!(select_layout(&ranges, 0), 0);
    assert_eq!(select_layout(&ranges, 599), 0);
    assert_eq!(select_layout(&ranges, 600), 1);
    assert_eq!(select_layout(&ranges, 959), 1);
    assert_eq!(select_layout(&ranges, 960), 2);
    assert_eq!(select_layout(&ranges, 1280), 3);
    assert_eq!(select_layout(&ranges, u32::MAX), 3);
}

#[test]
fn the_order_of_the_list_does_not_matter_for_disjoint_ranges() {
    let ranges = [(960, Some(1280)), (0, Some(600)), (1280, None), (600, Some(960))];
    assert_eq!(select_layout(&ranges, 10), 1);
    assert_eq!(select_layout(&ranges, 700), 3);
    assert_eq!(select_layout(&ranges, 1000), 0);
    assert_eq!(select_layout(&ranges, 3000), 2);
}

#[test]
fn of_several_containing_ranges_the_largest_lower_bound_wins() {
    let ranges = [(0, None), (600, None), (960, None)];
    assert_eq!(select_layout(&ranges, 100), 0);
    assert_eq!(select_layout(&ranges, 700), 1);
    assert_eq!(select_layout(&ranges, 5000), 2);
    let shuffled = [(600, None), (960, Some(2000)), (0, Some(5000))];
    assert_eq!(select_layout(&shuffled, 100), 2);
    assert_eq!(select_layout(&shuffled, 700), 0);
    assert_eq!(select_layout(&shuffled, 1500), 1);
    assert_eq!(select_layout(&shuffled, 2000), 0);
}

#[test]
fn without_a_containing_range_the_smallest_lower_bound_is_the_fallback() {
    let ranges = [(600, Some(960)), (100, Some(600))];
    assert_eq!(select_layout(&ranges, 50), 1);
    assert_eq!(select_layout(&ranges, 960), 1);
    assert_eq!(select_layout(&ranges, 4000), 1);
    let other_order = [(100, Some(600)), (600, Some(960))];
    assert_eq!(select_layout(&other_order, 50), 0);
    assert_eq!(select_layout(&other_order, 4000), 0);
}

#[test]
fn equal_lower_bounds_are_settled_by_position() {
    let containing = [(600, Some(700)), (600, None), (600, Some(900))];
    assert_eq!(select_layout(&containing, 650), 0);
    assert_eq!(select_layout(&containing, 800), 1);
    let fallback = [(700, Some(800)), (600, Some(650)), (600, Some(640))];
    assert_eq!(select_layout(&fallback, 10), 1);
    assert_eq!(select_layout(&fallback, 5000), 1);
}

#[test]
fn a_single_range_is_always_selected() {
    assert_eq!(select_layout(&[(600, Some(960))], 0), 0);
    assert_eq!(select_layout(&[(600, Some(960))], 700), 0);
    assert_eq!(select_layout(&[(600, Some(960))], 5000), 0);
}

#[test]
fn an_empty_range_contains_nothing() {
    let ranges = [(500, Some(500)), (0, Some(400))];
    assert_eq!(select_layout(&ranges, 500), 1);
    assert_eq!(select_layout(&ranges, 100), 1);
}

#[test]
fn a_composition_of_one_layout_draws_it_at_every_width() {
    let theme = my_theme();
    let frame = main_with_sidebar(false);
    assert!(frame.composition.selectable(&theme));
    for width in [0u32, 599, 600, 1000, 1920, u32::MAX] {
        assert_eq!(frame.composition.select(&theme, width), 0);
    }
    assert_eq!(frame.composition.layout_index(Breakpoint::ExtraSmall), Some(0));
    assert_eq!(frame.composition.layout_index(Breakpoint::Small), None);
}

#[test]
fn the_frame_pads_the_main_area_except_on_introductory_pages() {
    let padded = main_with_sidebar(false);
    assert_eq!(padded.main_padding, Some(12));
    let plain = main_with_sidebar(true);
    assert_eq!(plain.main_padding, None);
    for frame in [padded, plain] {
        assert_eq!(frame.composition.len(), 1);
        let layout = frame.composition.layout(0);
        assert_eq!(layout.layout, vec![vec![AppArea::Nav, AppArea::Main]]);
        assert_eq!(layout.areas, vec![AppArea::Nav, AppArea::Main]);
        assert_eq!(layout.grid_template_areas(), "\"Nav Main \" ");
    }
}

#[test]
fn the_window_has_the_header_above_the_main_content() {
    let composition = themed_layout();
    assert_eq!(composition.len(), 1);
    assert_eq!(composition.layout_index(Breakpoint::ExtraSmall), Some(0));
    let layout = composition.layout(0);
    assert_eq!(layout.layout, vec![vec![AppAreas::Header], vec![AppAreas::MainContent]]);
    assert_eq!(layout.grid_template_areas(), "\"Header \" \"MainContent \" ");
    assert_eq!(composition.select(&my_theme(), 1234), 0);
}

#[test]
fn the_home_page_has_the_banner_above_the_content() {
    let composition = intro_layout();
    assert_eq!(composition.len(), 1);
    let layout = composition.layout(0);
    assert_eq!(layout.areas, vec![IntroAreas::HeroHeader, IntroAreas::MainContent]);
    assert_eq!(layout.grid_template_areas(), "\"HeroHeader \" \"MainContent \" ");
}

#[test]
fn the_header_bar_has_two_layouts() {
    let composition = header::header_layouts();
    assert_eq!(composition.len(), 2);
    assert_eq!(composition.layout_index(Breakpoint::ExtraSmall), Some(1));
    assert_eq!(composition.layout_index(Breakpoint::Small), Some(0));
    assert_eq!(composition.layout_index(Breakpoint::Medium), Some(0));
    assert_eq!(composition.layout_index(Breakpoint::Large), Some(0));
    assert_eq!(composition.layout_index(Breakpoint::ExtraLarge), Some(0));
    assert_eq!(composition.layout(0).layout, vec![vec![Bar::Home, Bar::Empty, Bar::Theme]]);
    assert_eq!(composition.layout(0).areas, vec![Bar::Home, Bar::Theme]);
    assert_eq!(composition.layout(0).grid_template_areas(), "\"Home  . Theme \" ");
    assert_eq!(composition.layout(1).layout, vec![vec![Bar::Home, Bar::Empty, Bar::HeaderOptions, Bar::Theme]]);
    assert_eq!(composition.layout(1).areas, vec![Bar::Home, Bar::HeaderOptions, Bar::Theme]);
    assert_eq!(
        composition.layout(1).grid_template_areas(),
        "\"Home  . HeaderOptions Theme \" "
    );
}

#[test]
fn the_header_bar_has_its_button_on_phones_only() {
    let theme = my_theme();
    let composition = header::header_layouts();
    assert!(composition.selectable(&theme));
    assert_eq!(composition.select(&theme, 0), 1);
    assert_eq!(composition.select(&theme, 599), 1);
    assert_eq!(composition.select(&theme, 600), 0);
    assert_eq!(composition.select(&theme, 959), 0);
    assert_eq!(composition.select(&theme, 960), 0);
    assert_eq!(composition.select(&theme, 1280), 0);
    assert_eq!(composition.select(&theme, 1920), 0);
    assert_eq!(composition.select(&theme, u32::MAX), 0);
}

#[test]
fn the_wide_header_is_drawn_exactly_where_the_drawer_counts_as_closed() {
    let theme = my_theme();
    let composition = header::header_layouts();
    for width in [0u32, 1, 300, 599, 600, 601, 959, 960, 1279, 1280, 1919, 1920, 70000] {
        let wide = theme.only_and_above(Breakpoint::Small, width);
        assert_eq!(composition.select(&theme, width), if wide { 0 } else { 1 });
    }
}

#[test]
fn beyond_every_registered_range_the_narrowest_breakpoint_is_the_fallback() {
    let theme = my_theme();
    let composition = Composition::with_layouts(vec![
        (Breakpoint::Small, Layout::areas(&[&[AppArea::Nav, AppArea::Main]])),
        (Breakpoint::ExtraSmall, Layout::areas(&[&[AppArea::Main]])),
    ]);
    assert_eq!(composition.layout_index(Breakpoint::Small), Some(0));
    assert_eq!(composition.layout_index(Breakpoint::ExtraSmall), Some(1));
    assert_eq!(composition.layout_index(Breakpoint::Medium), None);
    assert_eq!(composition.select(&theme, 599), 1);
    assert_eq!(composition.select(&theme, 600), 0);
    assert_eq!(composition.select(&theme, 959), 0);
    assert_eq!(composition.select(&theme, 960), 1);
    assert_eq!(composition.select(&theme, 4000), 1);
}

#[test]
fn narrow_and_wide_switch_at_the_given_breakpoint() {
    let theme = my_theme();
    let order = [
        Breakpoint::ExtraSmall,
        Breakpoint::Small,
        Breakpoint::Medium,
        Breakpoint::Large,
        Breakpoint::ExtraLarge,
    ];
    let bounds = [0u32, 600, 960, 1280, 1920];
    for (place, from) in order.iter().enumerate() {
        let composition = Composition::narrow_and_wide(
            Layout::areas(&[&[AppArea::Main]]),
            Layout::areas(&[&[AppArea::Nav, AppArea::Main]]),
            *from,
        );
        assert_eq!(composition.len(), 2);
        assert_eq!(composition.layout(0).areas, vec![AppArea::Nav, AppArea::Main]);
        assert_eq!(composition.layout(1).areas, vec![AppArea::Main]);
        for (other, breakpoint) in order.iter().enumerate() {
            let expected = if other >= place { 0 } else { 1 };
            assert_eq!(composition.layout_index(*breakpoint), Some(expected));
        }
        for width in [0u32, 599, 600, 959, 960, 1279, 1280, 1919, 1920, 100000] {
            let expected = if width >= bounds[place] { 0 } else { 1 };
            assert_eq!(composition.select(&theme, width), expected);
        }
    }
}

#[test]
fn the_layout_example_has_its_grids() {
    let page = example::app_layouts();
    assert_eq!(page.len(), 2);
    assert_eq!(page.layout_index(Breakpoint::Small), Some(0));
    assert_eq!(page.layout_index(Breakpoint::ExtraSmall), Some(1));
    assert_eq!(page.layout_index(Breakpoint::ExtraLarge), Some(0));
    assert_eq!(page.layout(0).areas, vec![Part::Header, Part::Sidebar, Part::MainContent, Part::Footer]);
    assert_eq!(page.layout(1).areas, vec![Part::Header, Part::Nav, Part::MainContent, Part::Footer]);
    assert_eq!(
        page.layout(1).grid_template_areas(),
        "\"Header \" \"Nav \" \"MainContent \" \"Footer \" "
    );
    assert_eq!(example::app_layout_small().layout, vec![
        vec![Part::Header],
        vec![Part::Nav],
        vec![Part::MainContent],
        vec![Part::Footer],
    ]);
    let bar = example::header_layouts();
    assert_eq!(bar.len(), 2);
    assert_eq!(bar.layout(0).layout, vec![vec![Top::Logo, Top::Title, Top::Title, Top::Title, Top::Actions]]);
    assert_eq!(bar.layout(0).areas, vec![Top::Logo, Top::Title, Top::Actions]);
    assert_eq!(bar.layout(1).layout, vec![vec![Top::Title, Top::Hamburger]]);
    assert_eq!(example::header_layout_large().grid_template_areas(), "\"Logo Title Title Title Actions \" ");
    assert_eq!(example::header_layout_small().grid_template_areas(), "\"Title Hamburger \" ");
    let theme = my_theme();
    assert_eq!(page.select(&theme, 320), 1);
    assert_eq!(page.select(&theme, 800), 0);
    assert_eq!(page.select(&theme, 1600), 0);
    assert_eq!(bar.select(&theme, 320), 1);
    assert_eq!(bar.select(&theme, 800), 0);
    assert_eq!(bar.select(&theme, 2500), 0);
}

#[test]
fn an_empty_composition_cannot_select() {
    let composition: Composition<AppArea> = Composition::new();
    assert_eq!(composition.len(), 0);
    assert!(!composition.selectable(&my_theme()));
    assert_eq!(composition.layout_index(Breakpoint::ExtraSmall), None);
}

#[test]
fn a_theme_without_the_registered_breakpoint_cannot_select() {
    let composition = main_with_sidebar(true).composition;
    assert!(!composition.selectable(&Theme::new("bare")));
    let partly = Theme::new("partly").set_breakpoint(Breakpoint::Small, (600, Some(960)));
    assert!(!composition.selectable(&partly));
    let enough = Theme::new("enough").set_breakpoint(Breakpoint::ExtraSmall, (0, Some(600)));
    assert!(composition.selectable(&enough));
    assert_eq!(composition.select(&enough, 700), 0);
}

#[test]
fn a_second_registration_under_a_breakpoint_replaces_the_first() {
    let theme = my_theme();
    let composition = Composition::new()
        .add(Breakpoint::Small, Layout::areas(&[&[AppArea::Nav]]))
        .add(Breakpoint::ExtraSmall, Layout::areas(&[&[AppArea::Main]]))
        .add(Breakpoint::Small, Layout::areas(&[&[AppArea::Main, AppArea::Nav]]));
    assert_eq!(composition.len(), 3);
    assert_eq!(composition.layout_index(Breakpoint::Small), Some(2));
    assert_eq!(composition.layout_index(Breakpoint::ExtraSmall), Some(1));
    assert_eq!(composition.select(&theme, 700), 2);
    assert_eq!(composition.select(&theme, 100), 1);
    assert_eq!(composition.select(&theme, 2000), 1);
}

#[test]
fn with_layouts_registers_in_the_given_order() {
    let theme = my_theme();
    let composition = Composition::with_layouts(vec![
        (Breakpoint::Large, Layout::areas(&[&[AppArea::Nav]])),
        (Breakpoint::Medium, Layout::areas(&[&[AppArea::Main]])),
        (Breakpoint::ExtraLarge, Layout::areas(&[&[AppArea::Main, AppArea::Nav]])),
    ]);
    assert_eq!(composition.len(), 3);
    assert_eq!(composition.layout_index(Breakpoint::Large), Some(0));
    assert_eq!(composition.layout_index(Breakpoint::Medium), Some(1));
    assert_eq!(composition.layout_index(Breakpoint::ExtraLarge), Some(2));
    assert_eq!(composition.layout(2).areas, vec![AppArea::Main, AppArea::Nav]);
    assert_eq!(composition.select(&theme, 1000), 1);
    assert_eq!(composition.select(&theme, 1500), 0);
    assert_eq!(composition.select(&theme, 1920), 2);
    assert_eq!(composition.select(&theme, 10), 1);
}

#[test]
fn with_layouts_of_nothing_is_empty() {
    let composition: Composition<AppArea> = Composition::with_layouts(Vec::new());
    assert_eq!(composition.len(), 0);
    assert!(!composition.selectable(&my_theme()));
}
