//! The terminal easter-egg animations, and the words that ask for them.
use vstd::prelude::*;
use crate::text::{chars_of, eq_str};

verus! {

/// The animations.
#[derive(Debug, Clone, Copy, PartialEq, Eq, Structural)]
pub enum AnimationType {
    Orbit,
    MiniOrbit,
    Heart,
    MiniHeart,
}

/// The words that ask for a heart.
pub open spec fn is_love_word(s: Seq<char>) -> bool {
    s == "love"@ || s == "luv"@ || s == "<3"@ || s == "heart"@
}

/// Whether `s` asks for a heart.
pub fn love_word(s: &str) -> (r: bool)
    ensures
        r == is_love_word(s@),
{
    let c = chars_of(s);
    let w = c.as_slice();
    eq_str(w, "love") || eq_str(w, "luv") || eq_str(w, "<3") || eq_str(w, "heart")
}

/// The animation of the mini subcommand: the mini heart for a love word,
/// else the mini orbit.
pub open spec fn mini_animation_of(variant: Option<Seq<char>>) -> AnimationType {
    match variant {
        Some(v) => if is_love_word(v) {
            AnimationType::MiniHeart
        } else {
            AnimationType::MiniOrbit
        },
        None => AnimationType::MiniOrbit,
    }
}

/// The animation of the mini subcommand.
pub fn mini_animation(variant: Option<&str>) -> (r: AnimationType)
    ensures
        r == mini_animation_of(crate::shell::opt_str(variant)),
{
    match variant {
        Some(v) => if love_word(v) {
            AnimationType::MiniHeart
        } else {
            AnimationType::MiniOrbit
        },
        None => AnimationType::MiniOrbit,
    }
}

} // verus!
