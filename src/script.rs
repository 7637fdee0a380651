use vstd::prelude::*;

verus! {

/// What the game tells a level's script.
#[derive(Clone, Copy, Debug, PartialEq, Eq, Structural)]
pub enum Input {
    BrokeSeed,
    GoalReached,
    Abort,
}

/// What a level's script tells the game.
#[derive(Clone, Debug)]
pub enum Output {
    Message(String),
    End,
}

impl Input {
    /// Whether the script stops waiting and closes the level on this input.
    pub fn ends_level(&self) -> (r: bool)
        ensures
            r == (*self is GoalReached || *self is Abort),
    {
        match self {
            Input::GoalReached | Input::Abort => true,
            Input::BrokeSeed => false,
        }
    }
}

} // verus!
