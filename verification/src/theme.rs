//! Colour themes of the user interface.
use vstd::prelude::*;
use crate::style::TermColor;
use crate::text::str_eq;

verus! {

broadcast use vstd::string::group_string_axioms;

/// A user interface theme.
#[derive(Debug, Clone, Copy, PartialEq, Eq, Structural)]
pub struct Theme {
    pub bg: TermColor,
    pub fg: TermColor,
    pub rx: TermColor,
    pub tx: TermColor,
    pub sys: TermColor,
    pub err: TermColor,
    pub accent: TermColor,
    pub border: TermColor,
}

/// The names of all themes, in the order they are offered.
pub open spec fn theme_names() -> Seq<Seq<char>> {
    seq!["github-dark"@, "dracula"@, "monokai"@, "solarized-dark"@, "nord"@, "one-dark"@, "gruvbox"@, "tokyo-night"@]
}

pub open spec fn spec_github_dark() -> Theme {
    Theme { bg: TermColor::Rgb(0x0d, 0x11, 0x17), fg: TermColor::Rgb(0xc9, 0xd1, 0xd9), rx: TermColor::Rgb(0x3f, 0xb9, 0x50), tx: TermColor::Rgb(0xd2, 0x99, 0x22), sys: TermColor::Rgb(0x58, 0xa6, 0xff), err: TermColor::Rgb(0xf8, 0x51, 0x49), accent: TermColor::Rgb(0x22, 0xd3, 0xee), border: TermColor::Rgb(0x30, 0x3d, 0x50) }
}

pub open spec fn spec_dracula() -> Theme {
    Theme { bg: TermColor::Rgb(0x28, 0x2a, 0x36), fg: TermColor::Rgb(0xf8, 0xf8, 0xf2), rx: TermColor::Rgb(0x50, 0xfa, 0x7b), tx: TermColor::Rgb(0xf1, 0xfa, 0x8c), sys: TermColor::Rgb(0x8b, 0xe9, 0xfd), err: TermColor::Rgb(0xff, 0x55, 0x55), accent: TermColor::Rgb(0xff, 0x79, 0xc6), border: TermColor::Rgb(0x44, 0x4b, 0x5a) }
}

pub open spec fn spec_monokai() -> Theme {
    Theme { bg: TermColor::Rgb(0x27, 0x28, 0x22), fg: TermColor::Rgb(0xf8, 0xf8, 0xf2), rx: TermColor::Rgb(0xa6, 0xe2, 0x2e), tx: TermColor::Rgb(0xfd, 0x97, 0x1f), sys: TermColor::Rgb(0x66, 0xd9, 0xef), err: TermColor::Rgb(0xf9, 0x26, 0x72), accent: TermColor::Rgb(0xae, 0x81, 0xff), border: TermColor::Rgb(0x75, 0x71, 0x5e) }
}

pub open spec fn spec_solarized_dark() -> Theme {
    Theme { bg: TermColor::Rgb(0x00, 0x2b, 0x36), fg: TermColor::Rgb(0x83, 0x94, 0x96), rx: TermColor::Rgb(0x85, 0x99, 0x00), tx: TermColor::Rgb(0xb5, 0x89, 0x00), sys: TermColor::Rgb(0x26, 0x8b, 0xd2), err: TermColor::Rgb(0xdc, 0x32, 0x2f), accent: TermColor::Rgb(0x2a, 0xa1, 0x98), border: TermColor::Rgb(0x58, 0x6e, 0x75) }
}

pub open spec fn spec_nord() -> Theme {
    Theme { bg: TermColor::Rgb(0x2e, 0x34, 0x40), fg: TermColor::Rgb(0xd8, 0xde, 0xe9), rx: TermColor::Rgb(0xa3, 0xbe, 0x8c), tx: TermColor::Rgb(0xeb, 0xcb, 0x8b), sys: TermColor::Rgb(0x88, 0xc0, 0xd0), err: TermColor::Rgb(0xbf, 0x61, 0x6a), accent: TermColor::Rgb(0x81, 0xa1, 0xc1), border: TermColor::Rgb(0x4c, 0x56, 0x6a) }
}

pub open spec fn spec_one_dark() -> Theme {
    Theme { bg: TermColor::Rgb(0x28, 0x2c, 0x34), fg: TermColor::Rgb(0xab, 0xb2, 0xbf), rx: TermColor::Rgb(0x98, 0xc3, 0x79), tx: TermColor::Rgb(0xe5, 0xc0, 0x7b), sys: TermColor::Rgb(0x61, 0xaf, 0xef), err: TermColor::Rgb(0xe0, 0x6c, 0x75), accent: TermColor::Rgb(0x56, 0xb6, 0xc2), border: TermColor::Rgb(0x3e, 0x44, 0x51) }
}

pub open spec fn spec_gruvbox() -> Theme {
    Theme { bg: TermColor::Rgb(0x28, 0x28, 0x28), fg: TermColor::Rgb(0xeb, 0xdb, 0xb2), rx: TermColor::Rgb(0xb8, 0xbb, 0x26), tx: TermColor::Rgb(0xfe, 0xb9, 0x65), sys: TermColor::Rgb(0x83, 0xa5, 0x98), err: TermColor::Rgb(0xfb, 0x49, 0x34), accent: TermColor::Rgb(0xd7, 0x99, 0x21), border: TermColor::Rgb(0x50, 0x49, 0x45) }
}

pub open spec fn spec_tokyo_night() -> Theme {
    Theme { bg: TermColor::Rgb(0x1a, 0x1b, 0x26), fg: TermColor::Rgb(0xc0, 0xca, 0xf5), rx: TermColor::Rgb(0x9e, 0xce, 0x6a), tx: TermColor::Rgb(0xe0, 0xaf, 0x68), sys: TermColor::Rgb(0x7a, 0xa2, 0xf7), err: TermColor::Rgb(0xf7, 0x76, 0x8e), accent: TermColor::Rgb(0xbb, 0x9a, 0xf7), border: TermColor::Rgb(0x33, 0x35, 0x4a) }
}

/// The theme called `name`; unknown names give github-dark.
pub open spec fn theme_named(name: Seq<char>) -> Theme {
    if name == "dracula"@ {
        spec_dracula()
    }     else if name == "monokai"@ {
        spec_monokai()
    }     else if name == "solarized-dark"@ {
        spec_solarized_dark()
    }     else if name == "nord"@ {
        spec_nord()
    }     else if name == "one-dark"@ {
        spec_one_dark()
    }     else if name == "gruvbox"@ {
        spec_gruvbox()
    }     else if name == "tokyo-night"@ {
        spec_tokyo_night()
    } else {
        spec_github_dark()
    }
}

/// The name a theme is saved under; a theme that is none of the built-in ones saves as github-dark.
pub open spec fn theme_name_of(t: Theme) -> Seq<char> {
    if t == spec_dracula() {
        "dracula"@
    }     else if t == spec_monokai() {
        "monokai"@
    }     else if t == spec_solarized_dark() {
        "solarized-dark"@
    }     else if t == spec_nord() {
        "nord"@
    }     else if t == spec_one_dark() {
        "one-dark"@
    }     else if t == spec_gruvbox() {
        "gruvbox"@
    }     else if t == spec_tokyo_night() {
        "tokyo-night"@
    } else {
        "github-dark"@
    }
}

impl Theme {

    /// All theme names, for completion and validation.
    pub fn names() -> (v: Vec<&'static str>)
        ensures
            v@.map_values(|s: &'static str| s@) == theme_names(),
    {
        let v = vec!["github-dark", "dracula", "monokai", "solarized-dark", "nord", "one-dark", "gruvbox", "tokyo-night"];
        assert(v@.map_values(|s: &'static str| s@) =~= theme_names());
        v
    }


    /// The theme called `name`; unknown names fall back to github-dark.
    pub fn from_name(name: &str) -> (t: Theme)
        ensures
            t == theme_named(name@),
    {
        if str_eq(name, "dracula") {
            Self::dracula()
        }         else if str_eq(name, "monokai") {
            Self::monokai()
        }         else if str_eq(name, "solarized-dark") {
            Self::solarized_dark()
        }         else if str_eq(name, "nord") {
            Self::nord()
        }         else if str_eq(name, "one-dark") {
            Self::one_dark()
        }         else if str_eq(name, "gruvbox") {
            Self::gruvbox()
        }         else if str_eq(name, "tokyo-night") {
            Self::tokyo_night()
        } else {
            Self::github_dark()
        }
    }


    /// The name the theme is persisted under.
    pub fn name_of(&self) -> (s: &'static str)
        ensures
            s@ == theme_name_of(*self),
    {
        if *self == Self::dracula() {
            "dracula"
        }         else if *self == Self::monokai() {
            "monokai"
        }         else if *self == Self::solarized_dark() {
            "solarized-dark"
        }         else if *self == Self::nord() {
            "nord"
        }         else if *self == Self::one_dark() {
            "one-dark"
        }         else if *self == Self::gruvbox() {
            "gruvbox"
        }         else if *self == Self::tokyo_night() {
            "tokyo-night"
        } else {
            "github-dark"
        }
    }


    pub fn github_dark() -> (t: Theme)
        ensures
            t == spec_github_dark(),
    {
        Theme { bg: TermColor::Rgb(0x0d, 0x11, 0x17), fg: TermColor::Rgb(0xc9, 0xd1, 0xd9), rx: TermColor::Rgb(0x3f, 0xb9, 0x50), tx: TermColor::Rgb(0xd2, 0x99, 0x22), sys: TermColor::Rgb(0x58, 0xa6, 0xff), err: TermColor::Rgb(0xf8, 0x51, 0x49), accent: TermColor::Rgb(0x22, 0xd3, 0xee), border: TermColor::Rgb(0x30, 0x3d, 0x50) }
    }


    pub fn dracula() -> (t: Theme)
        ensures
            t == spec_dracula(),
    {
        Theme { bg: TermColor::Rgb(0x28, 0x2a, 0x36), fg: TermColor::Rgb(0xf8, 0xf8, 0xf2), rx: TermColor::Rgb(0x50, 0xfa, 0x7b), tx: TermColor::Rgb(0xf1, 0xfa, 0x8c), sys: TermColor::Rgb(0x8b, 0xe9, 0xfd), err: TermColor::Rgb(0xff, 0x55, 0x55), accent: TermColor::Rgb(0xff, 0x79, 0xc6), border: TermColor::Rgb(0x44, 0x4b, 0x5a) }
    }


    pub fn monokai() -> (t: Theme)
        ensures
            t == spec_monokai(),
    {
        Theme { bg: TermColor::Rgb(0x27, 0x28, 0x22), fg: TermColor::Rgb(0xf8, 0xf8, 0xf2), rx: TermColor::Rgb(0xa6, 0xe2, 0x2e), tx: TermColor::Rgb(0xfd, 0x97, 0x1f), sys: TermColor::Rgb(0x66, 0xd9, 0xef), err: TermColor::Rgb(0xf9, 0x26, 0x72), accent: TermColor::Rgb(0xae, 0x81, 0xff), border: TermColor::Rgb(0x75, 0x71, 0x5e) }
    }


    pub fn solarized_dark() -> (t: Theme)
        ensures
            t == spec_solarized_dark(),
    {
        Theme { bg: TermColor::Rgb(0x00, 0x2b, 0x36), fg: TermColor::Rgb(0x83, 0x94, 0x96), rx: TermColor::Rgb(0x85, 0x99, 0x00), tx: TermColor::Rgb(0xb5, 0x89, 0x00), sys: TermColor::Rgb(0x26, 0x8b, 0xd2), err: TermColor::Rgb(0xdc, 0x32, 0x2f), accent: TermColor::Rgb(0x2a, 0xa1, 0x98), border: TermColor::Rgb(0x58, 0x6e, 0x75) }
    }


    pub fn nord() -> (t: Theme)
        ensures
            t == spec_nord(),
    {
        Theme { bg: TermColor::Rgb(0x2e, 0x34, 0x40), fg: TermColor::Rgb(0xd8, 0xde, 0xe9), rx: TermColor::Rgb(0xa3, 0xbe, 0x8c), tx: TermColor::Rgb(0xeb, 0xcb, 0x8b), sys: TermColor::Rgb(0x88, 0xc0, 0xd0), err: TermColor::Rgb(0xbf, 0x61, 0x6a), accent: TermColor::Rgb(0x81, 0xa1, 0xc1), border: TermColor::Rgb(0x4c, 0x56, 0x6a) }
    }


    pub fn one_dark() -> (t: Theme)
        ensures
            t == spec_one_dark(),
    {
        Theme { bg: TermColor::Rgb(0x28, 0x2c, 0x34), fg: TermColor::Rgb(0xab, 0xb2, 0xbf), rx: TermColor::Rgb(0x98, 0xc3, 0x79), tx: TermColor::Rgb(0xe5, 0xc0, 0x7b), sys: TermColor::Rgb(0x61, 0xaf, 0xef), err: TermColor::Rgb(0xe0, 0x6c, 0x75), accent: TermColor::Rgb(0x56, 0xb6, 0xc2), border: TermColor::Rgb(0x3e, 0x44, 0x51) }
    }


    pub fn gruvbox() -> (t: Theme)
        ensures
            t == spec_gruvbox(),
    {
        Theme { bg: TermColor::Rgb(0x28, 0x28, 0x28), fg: TermColor::Rgb(0xeb, 0xdb, 0xb2), rx: TermColor::Rgb(0xb8, 0xbb, 0x26), tx: TermColor::Rgb(0xfe, 0xb9, 0x65), sys: TermColor::Rgb(0x83, 0xa5, 0x98), err: TermColor::Rgb(0xfb, 0x49, 0x34), accent: TermColor::Rgb(0xd7, 0x99, 0x21), border: TermColor::Rgb(0x50, 0x49, 0x45) }
    }


    pub fn tokyo_night() -> (t: Theme)
        ensures
            t == spec_tokyo_night(),
    {
        Theme { bg: TermColor::Rgb(0x1a, 0x1b, 0x26), fg: TermColor::Rgb(0xc0, 0xca, 0xf5), rx: TermColor::Rgb(0x9e, 0xce, 0x6a), tx: TermColor::Rgb(0xe0, 0xaf, 0x68), sys: TermColor::Rgb(0x7a, 0xa2, 0xf7), err: TermColor::Rgb(0xf7, 0x76, 0x8e), accent: TermColor::Rgb(0xbb, 0x9a, 0xf7), border: TermColor::Rgb(0x33, 0x35, 0x4a) }
    }

}


proof fn lemma_theme_names_distinct()
    ensures
        "github-dark"@ != "dracula"@ && "github-dark"@ != "monokai"@ && "github-dark"@ != "solarized-dark"@ && "github-dark"@ != "nord"@ && "github-dark"@ != "one-dark"@ && "github-dark"@ != "gruvbox"@ && "github-dark"@ != "tokyo-night"@,
        "dracula"@ != "github-dark"@ && "dracula"@ != "monokai"@ && "dracula"@ != "solarized-dark"@ && "dracula"@ != "nord"@ && "dracula"@ != "one-dark"@ && "dracula"@ != "gruvbox"@ && "dracula"@ != "tokyo-night"@,
        "monokai"@ != "github-dark"@ && "monokai"@ != "dracula"@ && "monokai"@ != "solarized-dark"@ && "monokai"@ != "nord"@ && "monokai"@ != "one-dark"@ && "monokai"@ != "gruvbox"@ && "monokai"@ != "tokyo-night"@,
        "solarized-dark"@ != "github-dark"@ && "solarized-dark"@ != "dracula"@ && "solarized-dark"@ != "monokai"@ && "solarized-dark"@ != "nord"@ && "solarized-dark"@ != "one-dark"@ && "solarized-dark"@ != "gruvbox"@ && "solarized-dark"@ != "tokyo-night"@,
        "nord"@ != "github-dark"@ && "nord"@ != "dracula"@ && "nord"@ != "monokai"@ && "nord"@ != "solarized-dark"@ && "nord"@ != "one-dark"@ && "nord"@ != "gruvbox"@ && "nord"@ != "tokyo-night"@,
        "one-dark"@ != "github-dark"@ && "one-dark"@ != "dracula"@ && "one-dark"@ != "monokai"@ && "one-dark"@ != "solarized-dark"@ && "one-dark"@ != "nord"@ && "one-dark"@ != "gruvbox"@ && "one-dark"@ != "tokyo-night"@,
        "gruvbox"@ != "github-dark"@ && "gruvbox"@ != "dracula"@ && "gruvbox"@ != "monokai"@ && "gruvbox"@ != "solarized-dark"@ && "gruvbox"@ != "nord"@ && "gruvbox"@ != "one-dark"@ && "gruvbox"@ != "tokyo-night"@,
        "tokyo-night"@ != "github-dark"@ && "tokyo-night"@ != "dracula"@ && "tokyo-night"@ != "monokai"@ && "tokyo-night"@ != "solarized-dark"@ && "tokyo-night"@ != "nord"@ && "tokyo-night"@ != "one-dark"@ && "tokyo-night"@ != "gruvbox"@,
{
    reveal_strlit("github-dark");
    reveal_strlit("dracula");
    reveal_strlit("monokai");
    reveal_strlit("solarized-dark");
    reveal_strlit("nord");
    reveal_strlit("one-dark");
    reveal_strlit("gruvbox");
    reveal_strlit("tokyo-night");
    assert("github-dark"@.len() == 11 && "github-dark"@[0] == 'g');
    assert("dracula"@.len() == 7 && "dracula"@[0] == 'd');
    assert("monokai"@.len() == 7 && "monokai"@[0] == 'm');
    assert("solarized-dark"@.len() == 14 && "solarized-dark"@[0] == 's');
    assert("nord"@.len() == 4 && "nord"@[0] == 'n');
    assert("one-dark"@.len() == 8 && "one-dark"@[0] == 'o');
    assert("gruvbox"@.len() == 7 && "gruvbox"@[0] == 'g');
    assert("tokyo-night"@.len() == 11 && "tokyo-night"@[0] == 't');
}

/// Every built-in theme is found again by the name it is saved under.
pub proof fn law_theme_saved_name_round_trip(t: Theme)
    requires
        t == spec_github_dark() || t == spec_dracula() || t == spec_monokai() || t == spec_solarized_dark() || t == spec_nord() || t == spec_one_dark() || t == spec_gruvbox() || t == spec_tokyo_night(),
    ensures
        theme_named(theme_name_of(t)) == t,
{
    lemma_theme_names_distinct();
}

/// Every theme name selects a theme that is saved under that same name.
pub proof fn law_theme_name_round_trip(name: Seq<char>)
    requires
        theme_names().contains(name),
    ensures
        theme_name_of(theme_named(name)) == name,
{
    lemma_theme_names_distinct();
    let k = choose|k: int| 0 <= k < theme_names().len() && theme_names()[k] == name;
    assert(theme_names()[0] == "github-dark"@);
    assert(theme_names()[1] == "dracula"@);
    assert(theme_names()[2] == "monokai"@);
    assert(theme_names()[3] == "solarized-dark"@);
    assert(theme_names()[4] == "nord"@);
    assert(theme_names()[5] == "one-dark"@);
    assert(theme_names()[6] == "gruvbox"@);
    assert(theme_names()[7] == "tokyo-night"@);
}

/// A name that is not a theme name selects github-dark.
pub proof fn law_unknown_theme_is_github_dark(name: Seq<char>)
    requires
        !theme_names().contains(name),
    ensures
        theme_named(name) == spec_github_dark(),
{
    assert(theme_names()[0] == "github-dark"@);
    assert(theme_names()[1] == "dracula"@);
    assert(theme_names()[2] == "monokai"@);
    assert(theme_names()[3] == "solarized-dark"@);
    assert(theme_names()[4] == "nord"@);
    assert(theme_names()[5] == "one-dark"@);
    assert(theme_names()[6] == "gruvbox"@);
    assert(theme_names()[7] == "tokyo-night"@);
}

} // verus!
