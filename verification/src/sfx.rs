use vstd::prelude::*;

verus! {

/// One-shot sound effects that the game asks the front end to play.
#[derive(Clone, Copy, PartialEq, Eq, Structural, Debug)]
pub enum Sfx {
    Buzzer,
    Shot,
    Steel,
    Paper,
    Penalty,
    Clear,
    Reload,
    Empty,
    /// An outlaw goes down.
    Down,
    /// The shooter is hit by an outlaw.
    Hurt,
}

} // verus!
