//! Theme identifiers and runtime switching between them.

use vstd::prelude::*;

use crate::text::{chars_eq_str, chars_of, lowercase, to_lowercase};

verus! {

/// The colour themes the monitor offers.
#[derive(Debug, Clone, Copy, PartialEq, Eq, Structural)]
pub enum ThemeId {
    TokyoNight,
    CatppuccinMocha,
    GruvboxDark,
    RosePine,
    Nord,
    Kanagawa,
    Dracula,
    Everforest,
    OneDark,
    Moonfly,
}

/// The theme that a lowercase name selects; unknown names select Tokyo Night.
pub open spec fn theme_named(l: Seq<char>) -> ThemeId {
    if l == "tokyonight"@ || l == "tokyo"@ || l == "tokyo_night"@ {
        ThemeId::TokyoNight
    } else if l == "catppuccin"@ || l == "mocha"@ || l == "catppuccin_mocha"@ {
        ThemeId::CatppuccinMocha
    } else if l == "gruvbox"@ || l == "gruvbox_dark"@ {
        ThemeId::GruvboxDark
    } else if l == "rosepine"@ || l == "rose_pine"@ || l == "rose"@ {
        ThemeId::RosePine
    } else if l == "nord"@ {
        ThemeId::Nord
    } else if l == "kanagawa"@ {
        ThemeId::Kanagawa
    } else if l == "dracula"@ {
        ThemeId::Dracula
    } else if l == "everforest"@ {
        ThemeId::Everforest
    } else if l == "onedark"@ || l == "one_dark"@ {
        ThemeId::OneDark
    } else if l == "moonfly"@ {
        ThemeId::Moonfly
    } else {
        ThemeId::TokyoNight
    }
}

/// Every theme is selected by its configuration name, the lowercase form of
/// its label (with the spaces dropped or written as `_`), and by the
/// aliases the configuration accepts.
pub proof fn themes_selected_by_name()
    ensures
        theme_named("tokyonight"@) == ThemeId::TokyoNight,
        theme_named("tokyo_night"@) == ThemeId::TokyoNight,
        theme_named("tokyo"@) == ThemeId::TokyoNight,
        theme_named("catppuccin"@) == ThemeId::CatppuccinMocha,
        theme_named("catppuccin_mocha"@) == ThemeId::CatppuccinMocha,
        theme_named("mocha"@) == ThemeId::CatppuccinMocha,
        theme_named("gruvbox"@) == ThemeId::GruvboxDark,
        theme_named("gruvbox_dark"@) == ThemeId::GruvboxDark,
        theme_named("rosepine"@) == ThemeId::RosePine,
        theme_named("rose_pine"@) == ThemeId::RosePine,
        theme_named("rose"@) == ThemeId::RosePine,
        theme_named("nord"@) == ThemeId::Nord,
        theme_named("kanagawa"@) == ThemeId::Kanagawa,
        theme_named("dracula"@) == ThemeId::Dracula,
        theme_named("everforest"@) == ThemeId::Everforest,
        theme_named("onedark"@) == ThemeId::OneDark,
        theme_named("one_dark"@) == ThemeId::OneDark,
        theme_named("moonfly"@) == ThemeId::Moonfly,
{
    reveal_strlit("tokyonight");
    reveal_strlit("tokyo");
    reveal_strlit("tokyo_night");
    reveal_strlit("catppuccin");
    reveal_strlit("mocha");
    reveal_strlit("catppuccin_mocha");
    reveal_strlit("gruvbox");
    reveal_strlit("gruvbox_dark");
    reveal_strlit("rosepine");
    reveal_strlit("rose_pine");
    reveal_strlit("rose");
    reveal_strlit("nord");
    reveal_strlit("kanagawa");
    reveal_strlit("dracula");
    reveal_strlit("everforest");
    reveal_strlit("onedark");
    reveal_strlit("one_dark");
    reveal_strlit("moonfly");
    assert("tokyonight"@.len() == 10);
    assert("tokyo"@.len() == 5);
    assert("tokyo_night"@.len() == 11);
    assert("catppuccin"@.len() == 10);
    assert("mocha"@.len() == 5);
    assert("catppuccin_mocha"@.len() == 16);
    assert("gruvbox"@.len() == 7);
    assert("gruvbox_dark"@.len() == 12);
    assert("rosepine"@.len() == 8);
    assert("rose_pine"@.len() == 9);
    assert("rose"@.len() == 4);
    assert("nord"@.len() == 4);
    assert("kanagawa"@.len() == 8);
    assert("dracula"@.len() == 7);
    assert("everforest"@.len() == 10);
    assert("onedark"@.len() == 7);
    assert("one_dark"@.len() == 8);
    assert("moonfly"@.len() == 7);
    assert("catppuccin"@[0] != "tokyonight"@[0]);
    assert("mocha"@[0] != "tokyo"@[0]);
    assert("nord"@[0] != "rose"@[0]);
    assert("kanagawa"@[0] != "rosepine"@[0]);
    assert("dracula"@[0] != "gruvbox"@[0]);
    assert("everforest"@[0] != "tokyonight"@[0]);
    assert("everforest"@[0] != "catppuccin"@[0]);
    assert("onedark"@[0] != "gruvbox"@[0]);
    assert("onedark"@[0] != "dracula"@[0]);
    assert("one_dark"@[0] != "rosepine"@[0]);
    assert("one_dark"@[0] != "kanagawa"@[0]);
    assert("moonfly"@[0] != "gruvbox"@[0]);
    assert("moonfly"@[0] != "dracula"@[0]);
    assert("moonfly"@[0] != "onedark"@[0]);
}

/// Every theme can be chosen in the configuration: some name selects it,
/// and the name that selects one theme never selects another.
pub proof fn every_theme_has_a_name(t: ThemeId)
    ensures
        exists|name: Seq<char>| #[trigger] theme_named(name) == t,
{
    themes_selected_by_name();
    match t {
        ThemeId::TokyoNight => assert(theme_named("tokyonight"@) == t),
        ThemeId::CatppuccinMocha => assert(theme_named("catppuccin"@) == t),
        ThemeId::GruvboxDark => assert(theme_named("gruvbox"@) == t),
        ThemeId::RosePine => assert(theme_named("rosepine"@) == t),
        ThemeId::Nord => assert(theme_named("nord"@) == t),
        ThemeId::Kanagawa => assert(theme_named("kanagawa"@) == t),
        ThemeId::Dracula => assert(theme_named("dracula"@) == t),
        ThemeId::Everforest => assert(theme_named("everforest"@) == t),
        ThemeId::OneDark => assert(theme_named("onedark"@) == t),
        ThemeId::Moonfly => assert(theme_named("moonfly"@) == t),
    }
}

/// The theme that follows `t` when the theme key is pressed.
pub open spec fn theme_after(t: ThemeId) -> ThemeId {
    match t {
        ThemeId::TokyoNight => ThemeId::CatppuccinMocha,
        ThemeId::CatppuccinMocha => ThemeId::GruvboxDark,
        ThemeId::GruvboxDark => ThemeId::RosePine,
        ThemeId::RosePine => ThemeId::Nord,
        ThemeId::Nord => ThemeId::Kanagawa,
        ThemeId::Kanagawa => ThemeId::Dracula,
        ThemeId::Dracula => ThemeId::Everforest,
        ThemeId::Everforest => ThemeId::OneDark,
        ThemeId::OneDark => ThemeId::Moonfly,
        ThemeId::Moonfly => ThemeId::TokyoNight,
    }
}

/// The name shown for theme `t`.
pub open spec fn theme_label(t: ThemeId) -> Seq<char> {
    match t {
        ThemeId::TokyoNight => "Tokyo Night"@,
        ThemeId::CatppuccinMocha => "Catppuccin"@,
        ThemeId::GruvboxDark => "Gruvbox"@,
        ThemeId::RosePine => "Rose Pine"@,
        ThemeId::Nord => "Nord"@,
        ThemeId::Kanagawa => "Kanagawa"@,
        ThemeId::Dracula => "Dracula"@,
        ThemeId::Everforest => "Everforest"@,
        ThemeId::OneDark => "One Dark"@,
        ThemeId::Moonfly => "Moonfly"@,
    }
}

impl ThemeId {
    /// The theme named by `s`, compared case-insensitively; unknown names
    /// select Tokyo Night.
    pub fn from_str(s: &str) -> (r: Self)
        ensures
            r == theme_named(lowercase(s@)),
    {
        let l = to_lowercase(s);
        Self::from_lowercase(l.as_str())
    }

    /// The theme named by the already lowercased name `l`.
    pub fn from_lowercase(l: &str) -> (r: Self)
        ensures
            r == theme_named(l@),
    {
        let c = chars_of(l);
        let c = c.as_slice();
        if chars_eq_str(c, "tokyonight") || chars_eq_str(c, "tokyo") || chars_eq_str(c, "tokyo_night") {
            Self::TokyoNight
        } else if chars_eq_str(c, "catppuccin") || chars_eq_str(c, "mocha") || chars_eq_str(
            c,
            "catppuccin_mocha",
        ) {
            Self::CatppuccinMocha
        } else if chars_eq_str(c, "gruvbox") || chars_eq_str(c, "gruvbox_dark") {
            Self::GruvboxDark
        } else if chars_eq_str(c, "rosepine") || chars_eq_str(c, "rose_pine") || chars_eq_str(
            c,
            "rose",
        ) {
            Self::RosePine
        } else if chars_eq_str(c, "nord") {
            Self::Nord
        } else if chars_eq_str(c, "kanagawa") {
            Self::Kanagawa
        } else if chars_eq_str(c, "dracula") {
            Self::Dracula
        } else if chars_eq_str(c, "everforest") {
            Self::Everforest
        } else if chars_eq_str(c, "onedark") || chars_eq_str(c, "one_dark") {
            Self::OneDark
        } else if chars_eq_str(c, "moonfly") {
            Self::Moonfly
        } else {
            Self::TokyoNight
        }
    }

    /// The next theme in the cycle.
    pub fn next(self) -> (r: Self)
        ensures
            r == theme_after(self),
    {
        match self {
            Self::TokyoNight => Self::CatppuccinMocha,
            Self::CatppuccinMocha => Self::GruvboxDark,
            Self::GruvboxDark => Self::RosePine,
            Self::RosePine => Self::Nord,
            Self::Nord => Self::Kanagawa,
            Self::Kanagawa => Self::Dracula,
            Self::Dracula => Self::Everforest,
            Self::Everforest => Self::OneDark,
            Self::OneDark => Self::Moonfly,
            Self::Moonfly => Self::TokyoNight,
        }
    }

    /// The theme's display name.
    pub fn label(self) -> (r: &'static str)
        ensures
            r@ == theme_label(self),
    {
        match self {
            Self::TokyoNight => "Tokyo Night",
            Self::CatppuccinMocha => "Catppuccin",
            Self::GruvboxDark => "Gruvbox",
            Self::RosePine => "Rose Pine",
            Self::Nord => "Nord",
            Self::Kanagawa => "Kanagawa",
            Self::Dracula => "Dracula",
            Self::Everforest => "Everforest",
            Self::OneDark => "One Dark",
            Self::Moonfly => "Moonfly",
        }
    }
}

/// `n` presses of the theme key starting from `t`.
pub open spec fn theme_after_n(t: ThemeId, n: nat) -> ThemeId
    decreases n,
{
    if n == 0 {
        t
    } else {
        theme_after(theme_after_n(t, (n - 1) as nat))
    }
}

/// The theme key visits all ten themes before coming back: ten presses
/// return to the starting theme, and no smaller positive number does.
pub proof fn theme_cycle(t: ThemeId)
    ensures
        theme_after_n(t, 10) == t,
        forall|n: nat| 0 < n < 10 ==> #[trigger] theme_after_n(t, n) != t,
{
    let t1 = theme_after(t);
    let t2 = theme_after(t1);
    let t3 = theme_after(t2);
    let t4 = theme_after(t3);
    let t5 = theme_after(t4);
    let t6 = theme_after(t5);
    let t7 = theme_after(t6);
    let t8 = theme_after(t7);
    let t9 = theme_after(t8);
    assert(theme_after_n(t, 0) == t);
    assert(theme_after_n(t, 1) == t1);
    assert(theme_after_n(t, 2) == t2);
    assert(theme_after_n(t, 3) == t3);
    assert(theme_after_n(t, 4) == t4);
    assert(theme_after_n(t, 5) == t5);
    assert(theme_after_n(t, 6) == t6);
    assert(theme_after_n(t, 7) == t7);
    assert(theme_after_n(t, 8) == t8);
    assert(theme_after_n(t, 9) == t9);
    assert(theme_after_n(t, 10) == theme_after(t9));
    assert(theme_after(t9) == t && t1 != t && t2 != t && t3 != t && t4 != t && t5 != t && t6 != t
        && t7 != t && t8 != t && t9 != t) by {
        match t {
            ThemeId::TokyoNight => {},
            ThemeId::CatppuccinMocha => {},
            ThemeId::GruvboxDark => {},
            ThemeId::RosePine => {},
            ThemeId::Nord => {},
            ThemeId::Kanagawa => {},
            ThemeId::Dracula => {},
            ThemeId::Everforest => {},
            ThemeId::OneDark => {},
            ThemeId::Moonfly => {},
        }
    }
    assert forall|n: nat| 0 < n < 10 implies #[trigger] theme_after_n(t, n) != t by {
        if n == 1 {} else if n == 2 {} else if n == 3 {} else if n == 4 {} else if n == 5 {
        } else if n == 6 {} else if n == 7 {} else if n == 8 {} else {}
    }
}

} // verus!
