use vstd::prelude::*;

verus! {

/// The coarse state of a game: which update and draw behaviour runs.
#[derive(Clone, Copy, Debug, PartialEq, Eq, Structural)]
pub enum Mode {
    Start,
    Play,
    Over,
}

/// The mode that follows `m` when the confirm key is `confirm` and a
/// player/enemy collision is `hit`.
pub open spec fn next_mode(m: Mode, confirm: bool, hit: bool) -> Mode {
    match m {
        Mode::Start => if confirm { Mode::Play } else { Mode::Start },
        Mode::Play => if hit { Mode::Over } else { Mode::Play },
        Mode::Over => if confirm { Mode::Start } else { Mode::Over },
    }
}

/// Confirm starts play from the start screen and restarts from the
/// game-over screen; a hit ends play; nothing else changes the mode.
pub proof fn lemma_mode_transitions(confirm: bool, hit: bool)
    ensures
        next_mode(Mode::Start, true, hit) == Mode::Play,
        next_mode(Mode::Play, confirm, true) == Mode::Over,
        next_mode(Mode::Over, true, hit) == Mode::Start,
        next_mode(Mode::Start, false, hit) == Mode::Start,
        next_mode(Mode::Play, confirm, false) == Mode::Play,
        next_mode(Mode::Over, false, hit) == Mode::Over,
{
}

impl Mode {
    /// Applies one transition of the mode state machine.
    pub fn next(self, confirm: bool, hit: bool) -> (r: Mode)
        ensures
            r == next_mode(self, confirm, hit),
    {
        match self {
            Mode::Start => if confirm { Mode::Play } else { Mode::Start },
            Mode::Play => if hit { Mode::Over } else { Mode::Play },
            Mode::Over => if confirm { Mode::Start } else { Mode::Over },
        }
    }
}

} // verus!
