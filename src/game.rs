//! The guess loop as a state machine: a secret fixed at the start, and one step
//! per line of input that answers with a response and may end the game.

use rand::Rng;
use vstd::prelude::*;

use crate::input::{capped, guess_of, read_guess, written_number};

verus! {

/// Smallest value the secret can take.
pub const LOWEST: u32 = 1;

/// Largest value the secret can take.
pub const HIGHEST: u32 = 100;

/// What the game answers to one line of input.
#[derive(Clone, Copy, Debug, PartialEq, Eq, Structural)]
pub enum Response {
    /// The line did not hold a number.
    NotANumber,
    /// The guess is below the secret.
    TooSmall,
    /// The guess is above the secret.
    TooBig,
    /// The guess is the secret: the game is over.
    YouWin,
}

/// The answer to a guess, or to a line that held none.
pub open spec fn judge(secret: u32, guess: Option<u32>) -> Response {
    match guess {
        None => Response::NotANumber,
        Some(g) => if g < secret {
            Response::TooSmall
        } else if g > secret {
            Response::TooBig
        } else {
            Response::YouWin
        },
    }
}

/// Compares a guess with the secret.
pub fn compare_guess(guess: u32, secret: u32) -> (r: Response)
    ensures
        r == judge(secret, Some(guess)),
{
    if guess < secret {
        Response::TooSmall
    } else if guess > secret {
        Response::TooBig
    } else {
        Response::YouWin
    }
}

/// Where a game stands: waiting for a guess, or over.
#[derive(Clone, Copy, Debug, PartialEq, Eq, Structural)]
pub enum Phase {
    AwaitingGuess,
    Won,
}

/// A game seen as values: its secret and its phase.
pub struct GameView {
    pub secret: u32,
    pub phase: Phase,
}

/// The secrets a game may be played with.
pub open spec fn valid_secret(secret: u32) -> bool {
    LOWEST <= secret <= HIGHEST
}

/// One step of the game: the state after a guess (or a line without one),
/// and the answer. The secret never changes; only the right guess ends the
/// game.
pub open spec fn step(s: GameView, guess: Option<u32>) -> (GameView, Response) {
    let r = judge(s.secret, guess);
    let phase = if r == Response::YouWin {
        Phase::Won
    } else {
        Phase::AwaitingGuess
    };
    (GameView { secret: s.secret, phase }, r)
}

/// What a game shows of its secret: all of it once won, nothing before.
pub open spec fn disclosed(s: GameView) -> Option<u32> {
    if s.phase == Phase::Won {
        Some(s.secret)
    } else {
        None
    }
}

/// One game: the secret, fixed when the game starts, and the phase.
pub struct Game {
    secret: u32,
    phase: Phase,
}

impl Game {
    /// The secret lies in the range a game is played on.
    #[verifier::type_invariant]
    closed spec fn secret_in_range(&self) -> bool {
        valid_secret(self.secret)
    }
}

impl View for Game {
    type V = GameView;

    closed spec fn view(&self) -> GameView {
        GameView { secret: self.secret, phase: self.phase }
    }
}

/// Relies on rand's `Rng::gen_range` on the thread's generator: the value lies
/// in `[low, high)`. It panics when `low >= high`, which `requires` rules out.
#[verifier::external_body]
fn draw_in_range(low: u32, high: u32) -> (r: u32)
    requires
        low < high,
    ensures
        low <= r < high,
{
    rand::thread_rng().gen_range(low, high)
}

impl Game {
    /// A game on the given secret, if it lies in `[LOWEST, HIGHEST]`.
    pub fn with_secret(secret: u32) -> (r: Option<Game>)
        ensures
            r is Some <==> valid_secret(secret),
            r matches Some(g) ==> g@.secret == secret && g@.phase == Phase::AwaitingGuess,
    {
        if LOWEST <= secret && secret <= HIGHEST {
            Some(Game { secret, phase: Phase::AwaitingGuess })
        } else {
            None
        }
    }

    /// A game on a secret drawn at random from `[LOWEST, HIGHEST]`.
    pub fn start() -> (r: Game)
        ensures
            valid_secret(r@.secret),
            r@.phase == Phase::AwaitingGuess,
    {
        let secret = draw_in_range(LOWEST, HIGHEST + 1);
        Game { secret, phase: Phase::AwaitingGuess }
    }

    /// Answers a guess, or a line that held none (`None`), and ends the game
    /// on the right guess.
    pub fn answer(&mut self, guess: Option<u32>) -> (r: Response)
        requires
            old(self)@.phase == Phase::AwaitingGuess,
        ensures
            (final(self)@, r) == step(old(self)@, guess),
            final(self)@.secret == old(self)@.secret,
            guess is None ==> r == Response::NotANumber && final(self)@.phase
                == Phase::AwaitingGuess,
            guess matches Some(g) && g < old(self)@.secret ==> r == Response::TooSmall
                && final(self)@.phase == Phase::AwaitingGuess,
            guess matches Some(g) && g > old(self)@.secret ==> r == Response::TooBig
                && final(self)@.phase == Phase::AwaitingGuess,
            guess == Some(old(self)@.secret) ==> r == Response::YouWin && final(self)@.phase
                == Phase::Won,
    {
        proof {
            use_type_invariant(&*self);
        }
        let r = match guess {
            None => Response::NotANumber,
            Some(g) => compare_guess(g, self.secret),
        };
        if r == Response::YouWin {
            self.phase = Phase::Won;
        }
        r
    }

    /// Reads a guess out of one line of input and answers it.
    pub fn play_line(&mut self, line: &str) -> (r: Response)
        requires
            old(self)@.phase == Phase::AwaitingGuess,
        ensures
            (final(self)@, r) == step(old(self)@, guess_of(line@)),
            final(self)@.secret == old(self)@.secret,
            written_number(line@) is None ==> r == Response::NotANumber
                && final(self)@.phase == Phase::AwaitingGuess,
            written_number(line@) matches Some(g) && g < old(self)@.secret ==> r
                == Response::TooSmall && final(self)@.phase == Phase::AwaitingGuess,
            written_number(line@) matches Some(g) && g > old(self)@.secret ==> r
                == Response::TooBig && final(self)@.phase == Phase::AwaitingGuess,
            written_number(line@) == Some(old(self)@.secret as nat) ==> r == Response::YouWin
                && final(self)@.phase == Phase::Won,
    {
        let guess = read_guess(line);
        proof {
            if let Some(v) = written_number(line@) {
                let g = capped(v, u32::MAX as nat);
                assert(g <= u32::MAX);
                assert(guess == Some(g as u32));
            }
            use_type_invariant(&*self);
        }
        self.answer(guess)
    }

    /// Whether the secret has been found.
    pub fn is_won(&self) -> (r: bool)
        ensures
            r == (self@.phase == Phase::Won),
    {
        self.phase == Phase::Won
    }

    /// The phase the game is in.
    pub fn phase(&self) -> (r: Phase)
        ensures
            r == self@.phase,
    {
        self.phase
    }

    /// The secret, disclosed once the game is won and kept back before.
    pub fn disclosed_secret(&self) -> (r: Option<u32>)
        ensures
            r == disclosed(self@),
    {
        if self.phase == Phase::Won {
            Some(self.secret)
        } else {
            None
        }
    }
}

/// The same wrong guess, sent again and again, always gets the same answer,
/// and leaves the game as it was: a step keeps no other state.
pub proof fn law_wrong_guess_repeats(s: GameView, guess: Option<u32>)
    requires
        s.phase == Phase::AwaitingGuess,
        guess != Some(s.secret),
    ensures
        step(s, guess).0 == s,
        step(step(s, guess).0, guess) == step(s, guess),
        step(s, guess).1 != Response::YouWin,
{
}

/// The right guess ends the game, after which the secret is disclosed.
pub proof fn law_right_guess_wins(s: GameView)
    requires
        s.phase == Phase::AwaitingGuess,
    ensures
        step(s, Some(s.secret)).1 == Response::YouWin,
        step(s, Some(s.secret)).0.phase == Phase::Won,
        disclosed(step(s, Some(s.secret)).0) == Some(s.secret),
{
}

} // verus!
