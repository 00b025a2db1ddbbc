//! The names of the colour themes; their colours live with the renderer.
use vstd::prelude::*;

verus! {

/// Number of colour themes.
pub const THEME_COUNT: usize = 9;

/// The name of theme `i`.
pub open spec fn theme_label(i: int) -> Seq<char> {
    if i == 0 { "Default"@ }
    else if i == 1 { "Nord"@ }
    else if i == 2 { "Dracula"@ }
    else if i == 3 { "Solarized"@ }
    else if i == 4 { "Monokai"@ }
    else if i == 5 { "Gruvbox"@ }
    else if i == 6 { "Tokyo Night"@ }
    else if i == 7 { "Retro"@ }
    else { "Royal Purple"@ }
}

/// The name of theme `i`.
pub fn theme_name(i: usize) -> (r: &'static str)
    requires
        i < THEME_COUNT,
    ensures
        r@ == theme_label(i as int),
{
    if i == 0 { "Default" }
    else if i == 1 { "Nord" }
    else if i == 2 { "Dracula" }
    else if i == 3 { "Solarized" }
    else if i == 4 { "Monokai" }
    else if i == 5 { "Gruvbox" }
    else if i == 6 { "Tokyo Night" }
    else if i == 7 { "Retro" }
    else { "Royal Purple" }
}

} // verus!
