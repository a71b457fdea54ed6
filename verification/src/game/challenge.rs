//! The revival challenge as a state of the session.
use super::{FrameInput, Game, GameState};
use crate::entities::tank::Tank;
use crate::fixed::trunc_div;
use crate::text::{byte_len, digit_char, digit_of, parsed_i32};
use vstd::prelude::*;

verus! {

/// The text that the digit keys of one frame add to a typed answer, key `from` onward:
/// each key that is down types its digit, in rising order, as long as the answer takes
/// fewer than four bytes.
pub open spec fn typed(text: Seq<char>, digits: Seq<bool>, from: int) -> Seq<char>
    decreases digits.len() - from,
{
    if from >= digits.len() || from < 0 {
        text
    } else if digits[from] && byte_len(text) < 4 {
        typed(text.push(digit_char(from)), digits, from + 1)
    } else {
        typed(text, digits, from + 1)
    }
}

/// The answer as it stands when the keys of one frame have acted on it: first the
/// digit keys, then backspace.
pub open spec fn edited(text: Seq<char>, input: FrameInput) -> Seq<char> {
    let with_digits = typed(text, input.digits@, 0);
    if input.backspace && with_digits.len() > 0 {
        with_digits.drop_last()
    } else {
        with_digits
    }
}

impl Game {
    /// This session is what the keys of one frame make of `before` while the revival
    /// challenge is on. Digits and backspace edit the answer. Enter with the right
    /// answer revives the player at half of the maximum health and resumes play; Enter
    /// with any other text ends the session, and so does Escape, whatever else is
    /// pressed. A session that ends records its score if that is the highest. Without a
    /// challenge on record nothing happens.
    pub open spec fn challenge_handled(&self, before: &Game, input: FrameInput) -> bool {
        &&& before.math_challenge.is_none() ==> self.untouched(before)
        &&& before.math_challenge.is_some() ==> ({
            let asked = before.math_challenge.unwrap();
            let text = edited(asked.user_input@, input);
            let correct = input.enter && parsed_i32(text) == Some(asked.correct_answer);
            let over = input.escape || (input.enter && !correct);
            &&& self.state == if over {
                GameState::GameOver
            } else if correct {
                GameState::Playing
            } else {
                before.state
            }
            &&& self.player_tank == if correct {
                Tank {
                    health: trunc_div(before.player_tank.max_health as int, 2) as i32,
                    ..before.player_tank
                }
            } else {
                before.player_tank
            }
            &&& self.high_score == if over && before.score > before.high_score {
                before.score
            } else {
                before.high_score
            }
            &&& self.math_challenge.is_some() == (!over && !correct)
            &&& self.math_challenge.is_some() ==> {
                let left = self.math_challenge.unwrap();
                &&& left.user_input@ == text
                &&& left.same_question(&asked)
                &&& left.same_verdict(&asked)
            }
        })
        &&& self.enemy_tanks == before.enemy_tanks
        &&& self.enemy_ais == before.enemy_ais
        &&& self.bullets == before.bullets
        &&& self.obstacles == before.obstacles
        &&& self.powerups == before.powerups
        &&& self.spawn_system == before.spawn_system
        &&& self.same_counters(before)
    }

    /// Handles the keys of one frame while the revival challenge is on: digits and
    /// backspace edit the answer, Enter hands it in, Escape gives up. The right answer
    /// revives the player with half of the maximum health and resumes play; a wrong
    /// answer, or one that is no number, ends the session, and so does Escape, which
    /// prevails over Enter. A session that ends records its score if that is the highest.
    pub fn update_math_challenge(&mut self, input: &FrameInput)
        ensures
            final(self).challenge_handled(old(self), *input),
            old(self).wf() ==> final(self).wf(),
    {
        if self.math_challenge.is_none() {
            return ;
        }
        let mut challenge = self.math_challenge.take().unwrap();
        let ghost asked = challenge;
        let mut i: usize = 0;
        while i < 10
            invariant
                0 <= i <= 10,
                input.digits@.len() == 10,
                challenge.same_question(&asked),
                challenge.same_verdict(&asked),
                typed(asked.user_input@, input.digits@, 0) == typed(
                    challenge.user_input@,
                    input.digits@,
                    i as int,
                ),
            decreases 10 - i,
        {
            if input.digits[i] {
                challenge.add_digit(digit_of(i as u32));
            }
            i += 1;
        }
        if input.backspace {
            challenge.remove_digit();
        }
        let mut done = false;
        if input.enter {
            if challenge.submit_answer() {
                self.player_tank.health = self.player_tank.max_health / 2;
                self.state = GameState::Playing;
            } else {
                if self.score > self.high_score {
                    self.high_score = self.score;
                }
                self.state = GameState::GameOver;
            }
            done = true;
        }
        if input.escape {
            if self.score > self.high_score {
                self.high_score = self.score;
            }
            self.state = GameState::GameOver;
            done = true;
        }
        if !done {
            self.math_challenge = Some(challenge);
        }
    }
}

} // verus!
