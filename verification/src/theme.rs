use crate::chars::str_eq;
use vstd::prelude::*;

verus! {

/// The closed set of visual themes the renderer knows.
#[derive(Debug, PartialEq, Eq, Structural, Clone, Copy)]
pub enum Theme {
    Ayu,
    Base16Ocean,
    Coldark,
    Gruvbox,
    Monokai,
    Onehalf,
    Solarized,
}

/// The name under which each theme is selected. Matching is exact and
/// case-sensitive.
pub open spec fn theme_name(t: Theme) -> Seq<char> {
    match t {
        Theme::Ayu => "ayu"@,
        Theme::Base16Ocean => "base16ocean"@,
        Theme::Coldark => "coldark"@,
        Theme::Gruvbox => "gruvbox"@,
        Theme::Monokai => "monokai"@,
        Theme::Onehalf => "onehalf"@,
        Theme::Solarized => "solarized"@,
    }
}

/// The theme a name selects, if the name is known.
pub open spec fn theme_of(s: Seq<char>) -> Option<Theme> {
    if s == "ayu"@ {
        Some(Theme::Ayu)
    } else if s == "base16ocean"@ {
        Some(Theme::Base16Ocean)
    } else if s == "coldark"@ {
        Some(Theme::Coldark)
    } else if s == "gruvbox"@ {
        Some(Theme::Gruvbox)
    } else if s == "monokai"@ {
        Some(Theme::Monokai)
    } else if s == "onehalf"@ {
        Some(Theme::Onehalf)
    } else if s == "solarized"@ {
        Some(Theme::Solarized)
    } else {
        None
    }
}

/// Looks a theme up by its exact name.
pub fn theme_from_name(s: &str) -> (r: Option<Theme>)
    ensures
        r == theme_of(s@),
{
    if str_eq(s, "ayu") {
        Some(Theme::Ayu)
    } else if str_eq(s, "base16ocean") {
        Some(Theme::Base16Ocean)
    } else if str_eq(s, "coldark") {
        Some(Theme::Coldark)
    } else if str_eq(s, "gruvbox") {
        Some(Theme::Gruvbox)
    } else if str_eq(s, "monokai") {
        Some(Theme::Monokai)
    } else if str_eq(s, "onehalf") {
        Some(Theme::Onehalf)
    } else if str_eq(s, "solarized") {
        Some(Theme::Solarized)
    } else {
        None
    }
}

/// Every theme's name maps back to that theme: the fixed names round-trip.
pub proof fn lemma_theme_round_trip(t: Theme)
    ensures
        theme_of(theme_name(t)) == Some(t),
{
    reveal_strlit("ayu");
    reveal_strlit("base16ocean");
    reveal_strlit("coldark");
    reveal_strlit("gruvbox");
    reveal_strlit("monokai");
    reveal_strlit("onehalf");
    reveal_strlit("solarized");
    assert("ayu"@.len() == 3);
    assert("base16ocean"@.len() == 11);
    assert("coldark"@.len() == 7);
    assert("gruvbox"@.len() == 7);
    assert("monokai"@.len() == 7);
    assert("onehalf"@.len() == 7);
    assert("solarized"@.len() == 9);
    assert("coldark"@[0] == 'c');
    assert("gruvbox"@[0] == 'g');
    assert("monokai"@[0] == 'm');
    assert("onehalf"@[0] == 'o');
}

} // verus!
