//! Colour and visual style: the named schemes and the colour rules they are
//! built on.

use vstd::prelude::*;
use crate::text::{chars_of, contains_chars, has_substring, lowercase_of, to_lowercase};

verus! {

/// A colour as red, green and blue.
#[derive(Clone, Copy, Debug, PartialEq, Eq, Structural)]
pub struct Rgb(pub u8, pub u8, pub u8);

/// The largest of three channels.
pub open spec fn channel_max(r: u8, g: u8, b: u8) -> u8 {
    if r >= g && r >= b {
        r
    } else if g >= b {
        g
    } else {
        b
    }
}

/// The smallest of three channels.
pub open spec fn channel_min(r: u8, g: u8, b: u8) -> u8 {
    if r <= g && r <= b {
        r
    } else if g <= b {
        g
    } else {
        b
    }
}

/// Whether a colour sits in the red, orange and yellow family.
///
/// With `span` the distance between the largest and the smallest channel,
/// the colour is warm when it carries more than 15% chroma (`span` at least
/// 39 of 255) and its hue is below 100 or above 330 degrees. On the colour
/// wheel that reads: with red the largest channel the hue is at most 60
/// degrees when green is at least blue, and otherwise 360 - 60 (b - g) / span
/// degrees, above 330 exactly when 2 (b - g) < span; with green the largest
/// it is 120 + 60 (b - r) / span degrees, below 100 exactly when
/// 3 (r - b) > span; with blue the largest it lies between 180 and 300
/// degrees.
pub open spec fn is_warm_colour(c: Rgb) -> bool {
    let (r, g, b) = (c.0 as int, c.1 as int, c.2 as int);
    let top = channel_max(c.0, c.1, c.2) as int;
    let span = top - channel_min(c.0, c.1, c.2) as int;
    let warm_hue = if r == top {
        g >= b || 2 * (b - g) < span
    } else if g == top {
        3 * (r - b) > span
    } else {
        false
    };
    span >= 39 && warm_hue
}

/// One channel of the background wash: `a` moved 9% of the way towards `b`,
/// rounded to the nearest value, a half going towards `b`.
pub open spec fn wash_channel(a: u8, b: u8) -> u8 {
    let scaled = 100 * (a as int) + 9 * (b as int - a as int);
    let whole = scaled / 100;
    let rest = scaled % 100;
    (if rest > 50 || (rest == 50 && b > a) {
        whole + 1
    } else {
        whole
    }) as u8
}

impl Rgb {
    /// True for a red, orange or yellow hue with colour enough to have one -
    /// the family that the common forms of colour-vision deficiency compress
    /// together.
    pub fn is_warm(self) -> (warm: bool)
        ensures
            warm == is_warm_colour(self),
    {
        let (r, g, b) = (self.0 as i32, self.1 as i32, self.2 as i32);
        let top = if r >= g && r >= b {
            r
        } else if g >= b {
            g
        } else {
            b
        };
        let bottom = if r <= g && r <= b {
            r
        } else if g <= b {
            g
        } else {
            b
        };
        let span = top - bottom;
        let warm_hue = if r == top {
            g >= b || 2 * (b - g) < span
        } else if g == top {
            3 * (r - b) > span
        } else {
            false
        };
        span >= 39 && warm_hue
    }
}

fn wash(a: u8, b: u8) -> (c: u8)
    ensures
        c == wash_channel(a, b),
{
    let scaled = 100 * (a as i32) + 9 * (b as i32 - a as i32);
    let whole = scaled / 100;
    let rest = scaled % 100;
    let rounded = if rest > 50 || (rest == 50 && b > a) {
        whole + 1
    } else {
        whole
    };
    assert(0 <= rounded <= 255);
    rounded as u8
}

/// The named colour schemes.
#[derive(Clone, Copy, Debug, PartialEq, Eq, Structural)]
pub enum Theme {
    /// Dark blue, aqua data, amber regions. The default.
    DeepSpace,
    /// Very dark neutral with a cooler, higher-contrast data colour.
    Midnight,
    /// A phosphor look: amber data on near black.
    AmberCrt,
    /// Light, for bright rooms and printing.
    Paper,
}

impl Default for Theme {
    fn default() -> (theme: Self)
        ensures
            theme == Theme::DeepSpace,
    {
        Theme::DeepSpace
    }
}

/// The colours of the spectrum display.
#[derive(Clone, Copy, Debug, PartialEq, Eq, Structural)]
pub struct SpectrumColors {
    /// Behind the spectrum.
    pub background: Rgb,
    /// The spectrum itself.
    pub foreground: Rgb,
    /// Channels inside a region of interest.
    pub roi: Rgb,
    /// The comparison spectrum.
    pub compare: Rgb,
    /// Where the starting spectrum rises above the comparison.
    pub composite: Rgb,
    /// Axes, tick marks and grid.
    pub axes: Rgb,
    /// The marker line.
    pub marker: Rgb,
    /// Library line markers.
    pub library: Rgb,
    /// The area the expanded view covers, in the overview.
    pub view_box: Rgb,
    /// Panels and window chrome.
    pub panel: Rgb,
    /// Alarms and errors. Kept out of the data palette on purpose.
    pub alarm: Rgb,
    /// Healthy status.
    pub healthy: Rgb,
}

pub open spec fn deep_space_colors() -> SpectrumColors {
    SpectrumColors {
        background: Rgb(11, 16, 32),
        foreground: Rgb(64, 224, 208),
        roi: Rgb(255, 176, 32),
        compare: Rgb(167, 139, 250),
        composite: Rgb(251, 146, 130),
        axes: Rgb(138, 148, 172),
        marker: Rgb(255, 247, 220),
        library: Rgb(244, 114, 182),
        view_box: Rgb(96, 116, 168),
        panel: Rgb(20, 24, 34),
        alarm: Rgb(239, 68, 68),
        healthy: Rgb(52, 211, 153),
    }
}

pub open spec fn midnight_colors() -> SpectrumColors {
    SpectrumColors {
        background: Rgb(9, 10, 13),
        foreground: Rgb(96, 205, 255),
        roi: Rgb(255, 158, 60),
        compare: Rgb(87, 201, 138),
        composite: Rgb(244, 164, 96),
        axes: Rgb(130, 136, 148),
        marker: Rgb(255, 245, 200),
        library: Rgb(216, 148, 255),
        view_box: Rgb(88, 96, 112),
        panel: Rgb(15, 17, 21),
        alarm: Rgb(248, 81, 73),
        healthy: Rgb(63, 185, 130),
    }
}

pub open spec fn amber_crt_colors() -> SpectrumColors {
    SpectrumColors {
        background: Rgb(12, 9, 4),
        foreground: Rgb(255, 176, 48),
        roi: Rgb(70, 183, 224),
        compare: Rgb(127, 191, 95),
        composite: Rgb(255, 120, 90),
        axes: Rgb(150, 126, 88),
        marker: Rgb(255, 244, 214),
        library: Rgb(255, 130, 200),
        view_box: Rgb(140, 110, 60),
        panel: Rgb(20, 15, 8),
        alarm: Rgb(255, 70, 60),
        healthy: Rgb(150, 230, 120),
    }
}

pub open spec fn paper_colors() -> SpectrumColors {
    SpectrumColors {
        background: Rgb(252, 252, 250),
        foreground: Rgb(11, 78, 115),
        roi: Rgb(160, 72, 10),
        compare: Rgb(96, 60, 180),
        composite: Rgb(178, 60, 60),
        axes: Rgb(90, 96, 110),
        marker: Rgb(30, 30, 34),
        library: Rgb(160, 40, 130),
        view_box: Rgb(140, 150, 175),
        panel: Rgb(238, 238, 236),
        alarm: Rgb(190, 30, 30),
        healthy: Rgb(20, 120, 80),
    }
}

/// The name a scheme goes by in the picker.
pub open spec fn theme_label(theme: Theme) -> Seq<char> {
    match theme {
        Theme::DeepSpace => "Deep space"@,
        Theme::Midnight => "Midnight"@,
        Theme::AmberCrt => "Amber CRT"@,
        Theme::Paper => "Paper"@,
    }
}

/// The first scheme, in the picker's order, whose name in lower case
/// contains `name`.
pub open spec fn theme_matching(name: Seq<char>) -> Option<Theme> {
    if has_substring(lowercase_of(theme_label(Theme::DeepSpace)), name) {
        Some(Theme::DeepSpace)
    } else if has_substring(lowercase_of(theme_label(Theme::Midnight)), name) {
        Some(Theme::Midnight)
    } else if has_substring(lowercase_of(theme_label(Theme::AmberCrt)), name) {
        Some(Theme::AmberCrt)
    } else if has_substring(lowercase_of(theme_label(Theme::Paper)), name) {
        Some(Theme::Paper)
    } else {
        None
    }
}

/// The colours of a scheme.
pub open spec fn theme_colors(theme: Theme) -> SpectrumColors {
    match theme {
        Theme::DeepSpace => deep_space_colors(),
        Theme::Midnight => midnight_colors(),
        Theme::AmberCrt => amber_crt_colors(),
        Theme::Paper => paper_colors(),
    }
}

impl Theme {
    /// Every theme, for the picker.
    pub fn all() -> (themes: &'static [Theme])
        ensures
            themes@ == seq![Theme::DeepSpace, Theme::Midnight, Theme::AmberCrt, Theme::Paper],
    {
        &[Theme::DeepSpace, Theme::Midnight, Theme::AmberCrt, Theme::Paper]
    }

    /// Name for the picker.
    pub fn label(&self) -> (label: &'static str)
        ensures
            label@ == theme_label(*self),
    {
        match self {
            Theme::DeepSpace => "Deep space",
            Theme::Midnight => "Midnight",
            Theme::AmberCrt => "Amber CRT",
            Theme::Paper => "Paper",
        }
    }

    /// Whether the scheme is a dark one.
    pub fn is_dark(&self) -> (dark: bool)
        ensures
            dark == (*self != Theme::Paper),
    {
        !matches!(self, Theme::Paper)
    }

    /// The colours of the scheme.
    pub fn colors(&self) -> (colors: SpectrumColors)
        ensures
            colors == theme_colors(*self),
    {
        match self {
            Theme::DeepSpace => SpectrumColors::deep_space(),
            Theme::Midnight => SpectrumColors::midnight(),
            Theme::AmberCrt => SpectrumColors::amber_crt(),
            Theme::Paper => SpectrumColors::paper(),
        }
    }

    /// The first scheme whose name, in lower case, contains `name`: how a
    /// request such as `amber` picks the Amber CRT scheme.
    pub fn matching(name: &str) -> (theme: Option<Theme>)
        ensures
            theme == theme_matching(name@),
    {
        let wanted = chars_of(name);
        let themes = Theme::all();
        let mut i: usize = 0;
        while i < themes.len()
            invariant
                i <= themes@.len(),
                themes@ == seq![Theme::DeepSpace, Theme::Midnight, Theme::AmberCrt, Theme::Paper],
                wanted@ == name@,
                forall|j: int| 0 <= j < i ==> !has_substring(lowercase_of(theme_label(#[trigger] themes@[j])), name@),
            decreases themes.len() - i,
        {
            let theme = themes[i];
            let lower = to_lowercase(theme.label());
            if contains_chars(&chars_of(lower.as_str()), &wanted) {
                return Some(theme);
            }
            i = i + 1;
        }
        assert(!has_substring(lowercase_of(theme_label(themes@[3])), name@));
        None
    }
}

impl Default for SpectrumColors {
    fn default() -> (colors: Self)
        ensures
            colors == deep_space_colors(),
    {
        Self::deep_space()
    }
}

impl SpectrumColors {
    /// Dark blue with aqua data and amber regions.
    pub fn deep_space() -> (colors: Self)
        ensures
            colors == deep_space_colors(),
    {
        SpectrumColors {
            background: Rgb(11, 16, 32),
            foreground: Rgb(64, 224, 208),
            roi: Rgb(255, 176, 32),
            compare: Rgb(167, 139, 250),
            composite: Rgb(251, 146, 130),
            axes: Rgb(138, 148, 172),
            marker: Rgb(255, 247, 220),
            library: Rgb(244, 114, 182),
            view_box: Rgb(96, 116, 168),
            panel: Rgb(20, 24, 34),
            alarm: Rgb(239, 68, 68),
            healthy: Rgb(52, 211, 153),
        }
    }

    /// Near-black neutral with a cooler data colour.
    pub fn midnight() -> (colors: Self)
        ensures
            colors == midnight_colors(),
    {
        SpectrumColors {
            background: Rgb(9, 10, 13),
            foreground: Rgb(96, 205, 255),
            roi: Rgb(255, 158, 60),
            compare: Rgb(87, 201, 138),
            composite: Rgb(244, 164, 96),
            axes: Rgb(130, 136, 148),
            marker: Rgb(255, 245, 200),
            library: Rgb(216, 148, 255),
            view_box: Rgb(88, 96, 112),
            panel: Rgb(15, 17, 21),
            alarm: Rgb(248, 81, 73),
            healthy: Rgb(63, 185, 130),
        }
    }

    /// A phosphor display: amber data on near black.
    pub fn amber_crt() -> (colors: Self)
        ensures
            colors == amber_crt_colors(),
    {
        SpectrumColors {
            background: Rgb(12, 9, 4),
            foreground: Rgb(255, 176, 48),
            roi: Rgb(70, 183, 224),
            compare: Rgb(127, 191, 95),
            composite: Rgb(255, 120, 90),
            axes: Rgb(150, 126, 88),
            marker: Rgb(255, 244, 214),
            library: Rgb(255, 130, 200),
            view_box: Rgb(140, 110, 60),
            panel: Rgb(20, 15, 8),
            alarm: Rgb(255, 70, 60),
            healthy: Rgb(150, 230, 120),
        }
    }

    /// Light, for bright rooms and printing.
    pub fn paper() -> (colors: Self)
        ensures
            colors == paper_colors(),
    {
        SpectrumColors {
            background: Rgb(252, 252, 250),
            foreground: Rgb(11, 78, 115),
            roi: Rgb(160, 72, 10),
            compare: Rgb(96, 60, 180),
            composite: Rgb(178, 60, 60),
            axes: Rgb(90, 96, 110),
            marker: Rgb(30, 30, 34),
            library: Rgb(160, 40, 130),
            view_box: Rgb(140, 150, 175),
            panel: Rgb(238, 238, 236),
            alarm: Rgb(190, 30, 30),
            healthy: Rgb(20, 120, 80),
        }
    }

    /// The far end of the plot's background wash: the background carrying a
    /// trace of the data hue (9% of the way towards it), so the plot has
    /// depth without competing with the trace drawn over it.
    pub fn background_wash(&self) -> (wash_colour: Rgb)
        ensures
            wash_colour == Rgb(
                wash_channel(self.background.0, self.foreground.0),
                wash_channel(self.background.1, self.foreground.1),
                wash_channel(self.background.2, self.foreground.2),
            ),
    {
        Rgb(
            wash(self.background.0, self.foreground.0),
            wash(self.background.1, self.foreground.1),
            wash(self.background.2, self.foreground.2),
        )
    }
}

} // verus!
