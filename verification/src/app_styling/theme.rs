//! Themes: named colours, breakpoints and shadows, and ordered scales.
//!
//! A theme is a record of assignments. Assigning a name twice is allowed; the
//! later assignment is the one that counts.

use vstd::prelude::*;
use vstd::slice::slice_to_vec;

verus! {

/// The names a theme gives to colours.
#[derive(Hash, PartialEq, Eq, Clone, Copy, Debug, Structural)]
pub enum Color {
    Background,
    MainText,
    Primary,
    MutedPrimary,
    DarkPrimary,
    MutedSecondary,
    Secondary,
    DarkSecondary,
    Highlight,
}

/// The names a theme gives to ranges of viewport width.
#[derive(Hash, PartialEq, Eq, Clone, Copy, Debug, Structural)]
pub enum Breakpoint {
    ExtraSmall,
    Small,
    Medium,
    Large,
    ExtraLarge,
}

/// The names a theme gives to shadows.
#[derive(Hash, PartialEq, Eq, Clone, Copy, Debug, Structural)]
pub enum Shadow {
    RightEdge,
}

/// A colour, by its red-green-blue hex code or by hue (degrees), saturation
/// and lightness (per cent).
#[derive(PartialEq, Eq, Clone, Copy, Debug, Structural)]
pub enum CssColor {
    Hex(u32),
    Hsl(u16, u16, u16),
}

/// The colour of the given hue, saturation and lightness.
pub fn hsl(h: u16, s: u16, l: u16) -> (color: CssColor)
    ensures
        color == CssColor::Hsl(h, s, l),
{
    CssColor::Hsl(h, s, l)
}

/// What the assignments give a key: the value of the last assignment to it.
pub open spec fn assigned<K, V>(entries: Seq<(K, V)>, key: K) -> Option<V>
    decreases entries.len(),
{
    if entries.len() == 0 {
        None
    } else if entries.last().0 == key {
        Some(entries.last().1)
    } else {
        assigned(entries.drop_last(), key)
    }
}

/// Looking a key up among the first `n` assignments: the last of them
/// decides if it is to the key, and the ones before it decide otherwise.
pub proof fn lemma_assigned_step<K, V>(entries: Seq<(K, V)>, key: K, n: int)
    requires
        0 < n <= entries.len(),
    ensures
        assigned(entries.take(n), key) == if entries[n - 1].0 == key {
            Some(entries[n - 1].1)
        } else {
            assigned(entries.take(n - 1), key)
        },
{
    assert(entries.take(n).drop_last() =~= entries.take(n - 1));
}

/// A further assignment decides its own key and leaves the others as they
/// were.
pub proof fn lemma_assigned_push<K, V>(entries: Seq<(K, V)>, entry: (K, V), key: K)
    ensures
        assigned(entries.push(entry), key) == if entry.0 == key {
            Some(entry.1)
        } else {
            assigned(entries, key)
        },
{
    assert(entries.push(entry).drop_last() =~= entries);
}

/// Whether a viewport of the given width falls in the range: the lower bound
/// is inclusive, the upper one exclusive, and a range without an upper bound
/// has no end.
pub open spec fn range_contains(range: (u32, Option<u32>), width: u32) -> bool {
    range.0 <= width && match range.1 {
        Some(upper) => width < upper,
        None => true,
    }
}

/// Whether a viewport of the given width falls in the range.
pub fn in_range(range: (u32, Option<u32>), width: u32) -> (inside: bool)
    ensures
        inside == range_contains(range, width),
{
    range.0 <= width && match range.1 {
        Some(upper) => width < upper,
        None => true,
    }
}

/// Whether the range holds at least one width.
pub open spec fn range_nonempty(range: (u32, Option<u32>)) -> bool {
    match range.1 {
        Some(upper) => range.0 < upper,
        None => true,
    }
}

/// Whether the first range ends no later than the second begins.
pub open spec fn range_ends_before(first: (u32, Option<u32>), second: (u32, Option<u32>)) -> bool {
    match first.1 {
        Some(upper) => upper <= second.0,
        None => false,
    }
}

/// Whether the ranges ascend without overlap: none is empty, and each ends
/// no later than any later one begins.
pub open spec fn ranges_ascending(ranges: Seq<(u32, Option<u32>)>) -> bool {
    &&& forall|i: int| 0 <= i < ranges.len() ==> range_nonempty(#[trigger] ranges[i])
    &&& forall|i: int, j: int|
        0 <= i < j < ranges.len() ==> range_ends_before(#[trigger] ranges[i], #[trigger] ranges[j])
}

/// Of ranges that ascend without overlap, at most one contains a given
/// width.
pub proof fn lemma_ascending_ranges_disjoint(
    ranges: Seq<(u32, Option<u32>)>,
    width: u32,
    i: int,
    j: int,
)
    requires
        ranges_ascending(ranges),
        0 <= i < ranges.len(),
        0 <= j < ranges.len(),
        range_contains(ranges[i], width),
        range_contains(ranges[j], width),
    ensures
        i == j,
{
    if i < j {
        assert(range_ends_before(ranges[i], ranges[j]));
    } else if j < i {
        assert(range_ends_before(ranges[j], ranges[i]));
    }
}

/// The five breakpoints, narrowest first.
pub open spec fn breakpoint_order() -> Seq<Breakpoint> {
    seq![
        Breakpoint::ExtraSmall,
        Breakpoint::Small,
        Breakpoint::Medium,
        Breakpoint::Large,
        Breakpoint::ExtraLarge,
    ]
}

/// The place of a breakpoint in the order, counted from zero.
pub open spec fn breakpoint_position(breakpoint: Breakpoint) -> int {
    match breakpoint {
        Breakpoint::ExtraSmall => 0,
        Breakpoint::Small => 1,
        Breakpoint::Medium => 2,
        Breakpoint::Large => 3,
        Breakpoint::ExtraLarge => 4,
    }
}

/// Every breakpoint stands at its place in the order.
pub proof fn lemma_breakpoint_position(breakpoint: Breakpoint)
    ensures
        0 <= breakpoint_position(breakpoint) < 5,
        breakpoint_order()[breakpoint_position(breakpoint)] == breakpoint,
{
}

/// A theme as plain values.
pub struct Theme {
    pub name: String,
    pub colors: Vec<(Color, CssColor)>,
    pub breakpoints: Vec<(Breakpoint, (u32, Option<u32>))>,
    pub shadows: Vec<(Shadow, String)>,
    /// Border widths in pixels.
    pub border_widths_scale: Vec<u32>,
    /// Spacings in pixels.
    pub spaces_scale: Vec<u32>,
    /// Sizes in pixels.
    pub sizes_scale: Vec<u32>,
    /// Font sizes in pixels.
    pub font_sizes_scale: Vec<u32>,
    /// Viewport widths, in pixels, at which responsive values change.
    pub breakpoints_scale: Vec<u32>,
}

impl Theme {
    /// The name of the theme.
    pub open spec fn spec_name(&self) -> Seq<char> {
        self.name@
    }

    /// The shadows assigned so far, as text.
    pub open spec fn spec_shadows(&self) -> Seq<(Shadow, Seq<char>)> {
        self.shadows@.map_values(|entry: (Shadow, String)| (entry.0, entry.1@))
    }

    /// The colour that the theme gives a name.
    pub open spec fn spec_color(&self, alias: Color) -> Option<CssColor> {
        assigned(self.colors@, alias)
    }

    /// The range of widths that the theme gives a breakpoint.
    pub open spec fn spec_breakpoint(&self, alias: Breakpoint) -> Option<(u32, Option<u32>)> {
        assigned(self.breakpoints@, alias)
    }

    /// The shadow that the theme gives a name.
    pub open spec fn spec_shadow(&self, alias: Shadow) -> Option<Seq<char>> {
        assigned(self.spec_shadows(), alias)
    }

    /// Whether the theme defines all five breakpoints, as ranges that ascend
    /// without overlap.
    pub open spec fn breakpoints_ascending(&self) -> bool {
        &&& forall|i: int|
            0 <= i < 5 ==> (#[trigger] self.spec_breakpoint(breakpoint_order()[i])) is Some
        &&& ranges_ascending(
            Seq::new(5, |i: int| self.spec_breakpoint(breakpoint_order()[i]).unwrap()),
        )
    }

    /// A theme of the given name with nothing assigned.
    pub fn new(name: &str) -> (theme: Theme)
        ensures
            theme.spec_name() == name@,
            theme.colors@ == Seq::<(Color, CssColor)>::empty(),
            theme.breakpoints@ == Seq::<(Breakpoint, (u32, Option<u32>))>::empty(),
            theme.shadows@ == Seq::<(Shadow, String)>::empty(),
            theme.border_widths_scale@ == Seq::<u32>::empty(),
            theme.spaces_scale@ == Seq::<u32>::empty(),
            theme.sizes_scale@ == Seq::<u32>::empty(),
            theme.font_sizes_scale@ == Seq::<u32>::empty(),
            theme.breakpoints_scale@ == Seq::<u32>::empty(),
    {
        Theme {
            name: name.to_owned(),
            colors: Vec::new(),
            breakpoints: Vec::new(),
            shadows: Vec::new(),
            border_widths_scale: Vec::new(),
            spaces_scale: Vec::new(),
            sizes_scale: Vec::new(),
            font_sizes_scale: Vec::new(),
            breakpoints_scale: Vec::new(),
        }
    }

    /// Gives the colour name a value.
    pub fn set_color(self, alias: Color, value: CssColor) -> (theme: Theme)
        ensures
            theme.colors@ == self.colors@.push((alias, value)),
            theme == (Theme { colors: theme.colors, ..self }),
            forall|key: Color| #[trigger]
                assigned(theme.colors@, key) == if key == alias {
                    Some(value)
                } else {
                    assigned(self.colors@, key)
                },
    {
        let mut theme = self;
        theme.colors.push((alias, value));
        assert forall|key: Color| #[trigger]
            assigned(theme.colors@, key) == if key == alias {
                Some(value)
            } else {
                assigned(self.colors@, key)
            } by {
            lemma_assigned_push(self.colors@, (alias, value), key);
        }
        theme
    }

    /// Gives the breakpoint a range of widths: lower bound inclusive, upper
    /// bound exclusive.
    pub fn set_breakpoint(self, alias: Breakpoint, value: (u32, Option<u32>)) -> (theme: Theme)
        ensures
            theme.breakpoints@ == self.breakpoints@.push((alias, value)),
            theme == (Theme { breakpoints: theme.breakpoints, ..self }),
            forall|key: Breakpoint| #[trigger]
                assigned(theme.breakpoints@, key) == if key == alias {
                    Some(value)
                } else {
                    assigned(self.breakpoints@, key)
                },
    {
        let mut theme = self;
        theme.breakpoints.push((alias, value));
        assert forall|key: Breakpoint| #[trigger]
            assigned(theme.breakpoints@, key) == if key == alias {
                Some(value)
            } else {
                assigned(self.breakpoints@, key)
            } by {
            lemma_assigned_push(self.breakpoints@, (alias, value), key);
        }
        theme
    }

    /// Gives the shadow name a value.
    pub fn set_shadow(self, alias: Shadow, value: &str) -> (theme: Theme)
        ensures
            theme.spec_shadows() == self.spec_shadows().push((alias, value@)),
            theme == (Theme { shadows: theme.shadows, ..self }),
            forall|key: Shadow| #[trigger]
                assigned(theme.spec_shadows(), key) == if key == alias {
                    Some(value@)
                } else {
                    assigned(self.spec_shadows(), key)
                },
    {
        let mut theme = self;
        theme.shadows.push((alias, value.to_owned()));
        assert(theme.spec_shadows() =~= self.spec_shadows().push((alias, value@)));
        assert forall|key: Shadow| #[trigger]
            assigned(theme.spec_shadows(), key) == if key == alias {
                Some(value@)
            } else {
                assigned(self.spec_shadows(), key)
            } by {
            lemma_assigned_push(self.spec_shadows(), (alias, value@), key);
        }
        theme
    }

    /// Sets the scale of border widths, in pixels.
    pub fn border_width_scale(self, scale: &[u32]) -> (theme: Theme)
        ensures
            theme.border_widths_scale@ == scale@,
            theme == (Theme { border_widths_scale: theme.border_widths_scale, ..self }),
    {
        let mut theme = self;
        theme.border_widths_scale = slice_to_vec(scale);
        theme
    }

    /// Sets the scale of spacings, in pixels.
    pub fn space_scale(self, scale: &[u32]) -> (theme: Theme)
        ensures
            theme.spaces_scale@ == scale@,
            theme == (Theme { spaces_scale: theme.spaces_scale, ..self }),
    {
        let mut theme = self;
        theme.spaces_scale = slice_to_vec(scale);
        theme
    }

    /// Sets the scale of sizes, in pixels.
    pub fn size_scale(self, scale: &[u32]) -> (theme: Theme)
        ensures
            theme.sizes_scale@ == scale@,
            theme == (Theme { sizes_scale: theme.sizes_scale, ..self }),
    {
        let mut theme = self;
        theme.sizes_scale = slice_to_vec(scale);
        theme
    }

    /// Sets the scale of font sizes, in pixels.
    pub fn font_size_scale(self, scale: &[u32]) -> (theme: Theme)
        ensures
            theme.font_sizes_scale@ == scale@,
            theme == (Theme { font_sizes_scale: theme.font_sizes_scale, ..self }),
    {
        let mut theme = self;
        theme.font_sizes_scale = slice_to_vec(scale);
        theme
    }

    /// Sets the widths, in pixels, at which responsive values change.
    pub fn breakpoint_scale(self, scale: &[u32]) -> (theme: Theme)
        ensures
            theme.breakpoints_scale@ == scale@,
            theme == (Theme { breakpoints_scale: theme.breakpoints_scale, ..self }),
    {
        let mut theme = self;
        theme.breakpoints_scale = slice_to_vec(scale);
        theme
    }

    /// Whether a viewport of the given width is as wide as the breakpoint
    /// asks, or wider. The upper bound of the breakpoint plays no part.
    pub open spec fn spec_only_and_above(&self, alias: Breakpoint, width: u32) -> bool {
        self.spec_breakpoint(alias).unwrap().0 <= width
    }

    /// Whether a viewport of the given width is as wide as the breakpoint
    /// asks, or wider.
    pub fn only_and_above(&self, alias: Breakpoint, width: u32) -> (matches: bool)
        requires
            self.spec_breakpoint(alias) is Some,
        ensures
            matches == self.spec_only_and_above(alias, width),
    {
        match self.breakpoint(alias) {
            Some(range) => range.0 <= width,
            None => false,
        }
    }

    /// The colour that the theme gives a name, if any.
    pub fn color(&self, alias: Color) -> (value: Option<CssColor>)
        ensures
            value == self.spec_color(alias),
    {
        let mut n: usize = self.colors.len();
        assert(self.colors@.take(n as int) =~= self.colors@);
        while n > 0
            invariant
                n <= self.colors.len(),
                self.spec_color(alias) == assigned(self.colors@.take(n as int), alias),
            decreases n,
        {
            proof {
                lemma_assigned_step(self.colors@, alias, n as int);
            }
            n -= 1;
            if self.colors[n].0 == alias {
                return Some(self.colors[n].1);
            }
        }
        None
    }

    /// The range of widths that the theme gives a breakpoint, if any.
    pub fn breakpoint(&self, alias: Breakpoint) -> (value: Option<(u32, Option<u32>)>)
        ensures
            value == self.spec_breakpoint(alias),
    {
        let mut n: usize = self.breakpoints.len();
        assert(self.breakpoints@.take(n as int) =~= self.breakpoints@);
        while n > 0
            invariant
                n <= self.breakpoints.len(),
                self.spec_breakpoint(alias) == assigned(self.breakpoints@.take(n as int), alias),
            decreases n,
        {
            proof {
                lemma_assigned_step(self.breakpoints@, alias, n as int);
            }
            n -= 1;
            if self.breakpoints[n].0 == alias {
                return Some(self.breakpoints[n].1);
            }
        }
        None
    }

    /// The shadow that the theme gives a name, if any.
    pub fn shadow(&self, alias: Shadow) -> (value: Option<&str>)
        ensures
            match value {
                Some(text) => self.spec_shadow(alias) == Some(text@),
                None => self.spec_shadow(alias) is None,
            },
    {
        let mut n: usize = self.shadows.len();
        assert(self.spec_shadows().take(n as int) =~= self.spec_shadows());
        while n > 0
            invariant
                n <= self.shadows.len(),
                self.spec_shadow(alias) == assigned(self.spec_shadows().take(n as int), alias),
            decreases n,
        {
            proof {
                lemma_assigned_step(self.spec_shadows(), alias, n as int);
            }
            n -= 1;
            if self.shadows[n].0 == alias {
                return Some(self.shadows[n].1.as_str());
            }
        }
        None
    }
}

/// Whether the theme has the breakpoints that both themes of the site
/// share: phones below 600 pixels, then 960, 1280 and 1920 as the further
/// bounds.
pub open spec fn has_site_breakpoints(theme: Theme) -> bool {
    &&& theme.spec_breakpoint(Breakpoint::ExtraSmall) == Some((0u32, Some(600u32)))
    &&& theme.spec_breakpoint(Breakpoint::Small) == Some((600u32, Some(960u32)))
    &&& theme.spec_breakpoint(Breakpoint::Medium) == Some((960u32, Some(1280u32)))
    &&& theme.spec_breakpoint(Breakpoint::Large) == Some((1280u32, Some(1920u32)))
    &&& theme.spec_breakpoint(Breakpoint::ExtraLarge) == Some((1920u32, None::<u32>))
    &&& theme.breakpoints_scale@ == seq![600u32, 960u32, 1280u32, 1920u32]
}

/// Whether the theme has the scales that both themes of the site share.
pub open spec fn has_site_scales(theme: Theme) -> bool {
    &&& theme.border_widths_scale@ == seq![2u32, 4u32, 8u32, 12u32, 16u32, 24u32, 32u32]
    &&& theme.spaces_scale@ == seq![2u32, 4u32, 8u32, 12u32, 16u32, 24u32, 32u32]
    &&& theme.sizes_scale@ == seq![1u32, 2u32, 4u32]
    &&& theme.font_sizes_scale@ == seq![14u32, 18u32, 20u32, 36u32]
}

/// The site's breakpoints are all defined and ascend without overlap.
pub proof fn lemma_site_breakpoints_ascending(theme: Theme)
    requires
        has_site_breakpoints(theme),
    ensures
        theme.breakpoints_ascending(),
{
    let order = breakpoint_order();
    assert(order[0] == Breakpoint::ExtraSmall && order[1] == Breakpoint::Small && order[2]
        == Breakpoint::Medium && order[3] == Breakpoint::Large && order[4]
        == Breakpoint::ExtraLarge);
}

/// The site's breakpoints leave no width out.
pub proof fn lemma_site_breakpoints_cover(theme: Theme, width: u32)
    requires
        has_site_breakpoints(theme),
    ensures
        exists|breakpoint: Breakpoint|
            range_contains((#[trigger] theme.spec_breakpoint(breakpoint)).unwrap(), width),
{
    if width < 600 {
        assert(range_contains(theme.spec_breakpoint(Breakpoint::ExtraSmall).unwrap(), width));
    } else if width < 960 {
        assert(range_contains(theme.spec_breakpoint(Breakpoint::Small).unwrap(), width));
    } else if width < 1280 {
        assert(range_contains(theme.spec_breakpoint(Breakpoint::Medium).unwrap(), width));
    } else if width < 1920 {
        assert(range_contains(theme.spec_breakpoint(Breakpoint::Large).unwrap(), width));
    } else {
        assert(range_contains(theme.spec_breakpoint(Breakpoint::ExtraLarge).unwrap(), width));
    }
}

/// The common part of the site's themes: breakpoints and scales.
fn with_site_breakpoints_and_scales(theme: Theme) -> (themed: Theme)
    ensures
        has_site_breakpoints(themed),
        has_site_scales(themed),
        themed.name == theme.name,
        themed.colors == theme.colors,
        themed.shadows == theme.shadows,
{
    let themed = theme.set_breakpoint(Breakpoint::ExtraSmall, (0, Some(600))).set_breakpoint(
        Breakpoint::Small,
        (600, Some(960)),
    ).set_breakpoint(Breakpoint::Medium, (960, Some(1280))).set_breakpoint(
        Breakpoint::Large,
        (1280, Some(1920)),
    ).set_breakpoint(Breakpoint::ExtraLarge, (1920, None));
    let widths: [u32; 7] = [2, 4, 8, 12, 16, 24, 32];
    let sizes: [u32; 3] = [1, 2, 4];
    let font_sizes: [u32; 4] = [14, 18, 20, 36];
    let bounds: [u32; 4] = [600, 960, 1280, 1920];
    let themed = themed.border_width_scale(widths.as_slice()).space_scale(
        widths.as_slice(),
    ).size_scale(sizes.as_slice()).font_size_scale(font_sizes.as_slice()).breakpoint_scale(
        bounds.as_slice(),
    );
    assert(themed.border_widths_scale@ =~= seq![2u32, 4u32, 8u32, 12u32, 16u32, 24u32, 32u32]);
    assert(themed.spaces_scale@ =~= seq![2u32, 4u32, 8u32, 12u32, 16u32, 24u32, 32u32]);
    assert(themed.sizes_scale@ =~= seq![1u32, 2u32, 4u32]);
    assert(themed.font_sizes_scale@ =~= seq![14u32, 18u32, 20u32, 36u32]);
    assert(themed.breakpoints_scale@ =~= seq![600u32, 960u32, 1280u32, 1920u32]);
    themed
}

/// Whether the theme is the dark theme of the site, assignment for
/// assignment.
pub open spec fn is_dark_theme(theme: Theme) -> bool {
    &&& theme.spec_name() == "dark_theme"@
    &&& theme.spec_color(Color::Background) == Some(CssColor::Hex(0x333333))
    &&& theme.spec_color(Color::MainText) == Some(CssColor::Hex(0xDDDDDD))
    &&& theme.spec_color(Color::Primary) == Some(CssColor::Hsl(300, 70, 45))
    &&& theme.spec_color(Color::DarkPrimary) == Some(CssColor::Hsl(300, 70, 30))
    &&& theme.spec_color(Color::MutedPrimary) == Some(CssColor::Hsl(300, 70, 90))
    &&& theme.spec_color(Color::Secondary) == Some(CssColor::Hsl(200, 60, 40))
    &&& theme.spec_color(Color::MutedSecondary) == Some(CssColor::Hsl(200, 15, 30))
    &&& theme.spec_color(Color::Highlight) == Some(CssColor::Hsl(10, 70, 85))
    &&& theme.spec_color(Color::DarkSecondary) == Some(CssColor::Hsl(300, 60, 20))
    &&& theme.spec_shadow(Shadow::RightEdge) == Some("8px 0px 6px -8px #222222"@)
    &&& has_site_breakpoints(theme)
    &&& has_site_scales(theme)
}

/// Whether the theme is the light theme of the site, assignment for
/// assignment.
pub open spec fn is_light_theme(theme: Theme) -> bool {
    &&& theme.spec_name() == "light_theme"@
    &&& theme.spec_color(Color::Background) == Some(CssColor::Hex(0xFFFFFF))
    &&& theme.spec_color(Color::MainText) == Some(CssColor::Hex(0x000000))
    &&& theme.spec_color(Color::Primary) == Some(CssColor::Hsl(100, 70, 40))
    &&& theme.spec_color(Color::DarkPrimary) == Some(CssColor::Hsl(100, 70, 30))
    &&& theme.spec_color(Color::MutedPrimary) == Some(CssColor::Hsl(100, 70, 90))
    &&& theme.spec_color(Color::Secondary) == Some(CssColor::Hex(0xF6AD55))
    &&& theme.spec_color(Color::MutedSecondary) == Some(CssColor::Hex(0xFEEBC8))
    &&& theme.spec_color(Color::Highlight) == Some(CssColor::Hsl(310, 70, 85))
    &&& theme.spec_color(Color::DarkSecondary) == Some(CssColor::Hsl(300, 60, 20))
    &&& theme.spec_shadow(Shadow::RightEdge) == Some("8px 0px 6px -8px #999999"@)
    &&& has_site_breakpoints(theme)
    &&& has_site_scales(theme)
}

/// The dark theme of the site.
pub fn dark_theme() -> (theme: Theme)
    ensures
        is_dark_theme(theme),
        theme.breakpoints_ascending(),
{
    let theme = Theme::new("dark_theme").set_color(
        Color::Background,
        CssColor::Hex(0x333333),
    ).set_color(Color::MainText, CssColor::Hex(0xDDDDDD)).set_color(
        Color::Primary,
        CssColor::Hsl(300, 70, 45),
    ).set_color(Color::DarkPrimary, hsl(300, 70, 30)).set_color(
        Color::MutedPrimary,
        CssColor::Hsl(300, 70, 90),
    ).set_color(Color::Secondary, hsl(200, 60, 40)).set_color(
        Color::MutedSecondary,
        hsl(200, 15, 30),
    ).set_color(Color::Highlight, hsl(10, 70, 85)).set_color(
        Color::DarkSecondary,
        hsl(300, 60, 20),
    ).set_shadow(Shadow::RightEdge, "8px 0px 6px -8px #222222");
    let theme = with_site_breakpoints_and_scales(theme);
    proof {
        lemma_site_breakpoints_ascending(theme);
    }
    theme
}

/// The light theme of the site, and the one it starts with.
pub fn my_theme() -> (theme: Theme)
    ensures
        is_light_theme(theme),
        theme.breakpoints_ascending(),
{
    let theme = Theme::new("light_theme").set_color(
        Color::Background,
        CssColor::Hex(0xFFFFFF),
    ).set_color(Color::MainText, CssColor::Hex(0x000000)).set_color(
        Color::Primary,
        CssColor::Hsl(100, 70, 40),
    ).set_color(Color::DarkPrimary, hsl(100, 70, 30)).set_color(
        Color::MutedPrimary,
        CssColor::Hsl(100, 70, 90),
    ).set_color(Color::Secondary, CssColor::Hex(0xF6AD55)).set_color(
        Color::MutedSecondary,
        CssColor::Hex(0xFEEBC8),
    ).set_color(Color::Highlight, hsl(310, 70, 85)).set_color(
        Color::DarkSecondary,
        hsl(300, 60, 20),
    ).set_shadow(Shadow::RightEdge, "8px 0px 6px -8px #999999");
    let theme = with_site_breakpoints_and_scales(theme);
    proof {
        lemma_site_breakpoints_ascending(theme);
    }
    theme
}

} // verus!
