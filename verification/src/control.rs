//! The display loop's decisions: which keys quit, and what one
//! render/poll/advance iteration does to the grid.

use crate::engine::{next_generation, next_generation_spec};
use vstd::prelude::*;

verus! {

/// A key observed during the poll phase, reduced to what the loop
/// reads: a printable character, the escape key, or anything else
/// (other keys and non-key events alike are ignored).
#[derive(Clone, Copy, PartialEq, Eq, Structural, Debug)]
pub enum KeyPress {
    Character(char),
    Escape,
    Other,
}

/// Whether a key stops the display loop: lowercase 'q' or Escape.
pub open spec fn is_quit_key(k: KeyPress) -> bool {
    k == KeyPress::Character('q') || k == KeyPress::Escape
}

/// Whether the poll phase observed a quit key. `None` means no event
/// arrived within the frame interval.
pub open spec fn is_quit_event(event: Option<KeyPress>) -> bool {
    event matches Some(k) && is_quit_key(k)
}

/// Decides whether a polled key quits the loop.
pub fn should_quit(k: &KeyPress) -> (r: bool)
    ensures
        r == is_quit_key(*k),
{
    match k {
        KeyPress::Character(c) => *c == 'q',
        KeyPress::Escape => true,
        KeyPress::Other => false,
    }
}

/// What one iteration of the display loop decided after its poll phase.
pub enum StepOutcome {
    /// A quit key arrived: the loop stops, and the grid already
    /// rendered stays the last generation shown.
    Stopped,
    /// No quit key arrived: the loop goes on with this next generation.
    Running(Vec<bool>),
}

/// One iteration's decision after rendering: stop on a quit key
/// without advancing further, otherwise advance the grid by exactly
/// one generation.
pub fn loop_step(grid: &[bool], width: usize, height: usize, event: Option<KeyPress>) -> (out:
    StepOutcome)
    requires
        1 <= width <= isize::MAX,
        1 <= height <= isize::MAX,
        width * height <= usize::MAX,
        grid@.len() == width * height,
    ensures
        out is Stopped <==> is_quit_event(event),
        out matches StepOutcome::Running(g) ==> g@ == next_generation_spec(
            grid@,
            width as int,
            height as int,
        ) && g@.len() == width * height,
{
    match event {
        Option::Some(k) => {
            if should_quit(&k) {
                StepOutcome::Stopped
            } else {
                StepOutcome::Running(next_generation(grid, width, height))
            }
        },
        Option::None => StepOutcome::Running(next_generation(grid, width, height)),
    }
}

} // verus!
