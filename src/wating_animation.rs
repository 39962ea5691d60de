//! The text of the animation shown while a video is being prepared.
use vstd::prelude::*;
use crate::text::push_char;

verus! {

/// The number of steps before the animation starts over.
pub const ANIMATION_STEPS: usize = 4;

/// The dots at `step`: one more dot at each step, up to four, then padding
/// spaces, so that the text keeps one length.
pub open spec fn dots(step: nat) -> Seq<char> {
    Seq::new(ANIMATION_STEPS as nat, |j: int| if j <= step % (ANIMATION_STEPS as nat) { '.' } else { ' ' })
}

pub fn waiting_dots(step: usize) -> (r: String)
    ensures
        r@ == dots(step as nat),
{
    let filled = step % ANIMATION_STEPS;
    let mut text = String::new();
    let mut j: usize = 0;
    while j < ANIMATION_STEPS
        invariant
            j <= ANIMATION_STEPS,
            filled == step % ANIMATION_STEPS,
            text@ == dots(step as nat).take(j as int),
        decreases ANIMATION_STEPS - j,
    {
        push_char(&mut text, if j <= filled { '.' } else { ' ' });
        assert(dots(step as nat).take(j + 1) == dots(step as nat).take(j as int).push(dots(step as nat)[j as int]));
        j = j + 1;
    }
    assert(dots(step as nat).take(ANIMATION_STEPS as int) == dots(step as nat));
    text
}

} // verus!
