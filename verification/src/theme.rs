//! The color themes and accents.
use vstd::prelude::*;

use crate::text::{chars_of, is_text};

verus! {

/// A color as red, green and blue.
#[derive(Debug, Clone, Copy, PartialEq, Eq, Structural)]
pub struct Rgb(pub u8, pub u8, pub u8);

/// The colors that the screen is drawn with.
#[derive(Debug, Clone, Copy, PartialEq, Eq, Structural)]
pub struct DawnTheme {
    pub fg: Rgb,
    pub muted: Rgb,
    pub faint: Rgb,
    pub accent: Rgb,
    pub soft: Rgb,
}

/// The `dawn` theme.
pub open spec fn dawn_theme() -> DawnTheme {
    DawnTheme {
        fg: Rgb(218, 216, 207),
        muted: Rgb(142, 139, 132),
        faint: Rgb(72, 70, 132),
        accent: Rgb(213, 183, 122),
        soft: Rgb(174, 184, 178),
    }
}

/// The `opal` theme.
pub open spec fn opal_theme() -> DawnTheme {
    DawnTheme {
        fg: Rgb(226, 228, 232),
        muted: Rgb(150, 156, 166),
        faint: Rgb(78, 84, 96),
        accent: Rgb(184, 164, 214),
        soft: Rgb(168, 190, 206),
    }
}

/// The `mist` theme.
pub open spec fn mist_theme() -> DawnTheme {
    DawnTheme {
        fg: Rgb(208, 216, 214),
        muted: Rgb(136, 148, 148),
        faint: Rgb(64, 76, 78),
        accent: Rgb(132, 170, 206),
        soft: Rgb(160, 186, 176),
    }
}

/// The theme of a name; an unknown name gives `dawn`.
pub open spec fn theme_named(name: Seq<char>) -> DawnTheme {
    if name == "opal"@ {
        opal_theme()
    } else if name == "mist"@ {
        mist_theme()
    } else {
        dawn_theme()
    }
}

/// The accent color of a name: `gold`, `rose`, `sage`, `blue` or `lilac`.
pub open spec fn accent_named(name: Seq<char>) -> Option<Rgb> {
    if name == "gold"@ {
        Some(Rgb(213, 183, 122))
    } else if name == "rose"@ {
        Some(Rgb(214, 150, 160))
    } else if name == "sage"@ {
        Some(Rgb(150, 180, 140))
    } else if name == "blue"@ {
        Some(Rgb(132, 170, 206))
    } else if name == "lilac"@ {
        Some(Rgb(184, 164, 214))
    } else {
        None
    }
}

impl DawnTheme {
    /// The `dawn` theme.
    pub fn dawn() -> (t: Self)
        ensures
            t == dawn_theme(),
    {
        DawnTheme {
            fg: Rgb(218, 216, 207),
            muted: Rgb(142, 139, 132),
            faint: Rgb(72, 70, 132),
            accent: Rgb(213, 183, 122),
            soft: Rgb(174, 184, 178),
        }
    }

    /// The `opal` theme.
    pub fn opal() -> (t: Self)
        ensures
            t == opal_theme(),
    {
        DawnTheme {
            fg: Rgb(226, 228, 232),
            muted: Rgb(150, 156, 166),
            faint: Rgb(78, 84, 96),
            accent: Rgb(184, 164, 214),
            soft: Rgb(168, 190, 206),
        }
    }

    /// The `mist` theme.
    pub fn mist() -> (t: Self)
        ensures
            t == mist_theme(),
    {
        DawnTheme {
            fg: Rgb(208, 216, 214),
            muted: Rgb(136, 148, 148),
            faint: Rgb(64, 76, 78),
            accent: Rgb(132, 170, 206),
            soft: Rgb(160, 186, 176),
        }
    }

    /// The theme of a name; an unknown name gives `dawn`.
    pub fn named(name: &str) -> (t: Self)
        ensures
            t == theme_named(name@),
    {
        let cs = chars_of(name);
        if is_text(&cs, "opal") {
            DawnTheme::opal()
        } else if is_text(&cs, "mist") {
            DawnTheme::mist()
        } else {
            DawnTheme::dawn()
        }
    }

    /// The theme with the accent of a name; an unknown name keeps the accent.
    pub fn with_accent_name(self, accent: &str) -> (t: Self)
        ensures
            t == (match accent_named(accent@) {
                Some(a) => DawnTheme { accent: a, ..self },
                None => self,
            }),
    {
        let cs = chars_of(accent);
        let a = if is_text(&cs, "gold") {
            Some(Rgb(213, 183, 122))
        } else if is_text(&cs, "rose") {
            Some(Rgb(214, 150, 160))
        } else if is_text(&cs, "sage") {
            Some(Rgb(150, 180, 140))
        } else if is_text(&cs, "blue") {
            Some(Rgb(132, 170, 206))
        } else if is_text(&cs, "lilac") {
            Some(Rgb(184, 164, 214))
        } else {
            None
        };
        match a {
            Some(a) => DawnTheme { accent: a, ..self },
            None => self,
        }
    }
}

} // verus!
