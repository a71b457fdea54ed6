//! Scores, waves and the effects of pickups.
use super::Game;
use crate::entities::powerup::PowerUpType;
use crate::entities::tank::{Shield, Tank};
use crate::fixed::{
    lemma_trunc_div_bound, min, mul_div, sat_i32, saturate_i32, scaled, TIME_MAX, UNIT,
};
use vstd::prelude::*;

verus! {

/// How long a shield from a pickup lasts, in milliseconds.
pub const SHIELD_DURATION: i64 = 30_000;

/// The speed that a speed boost never exceeds.
pub const BOOST_CAP: i64 = 300_000;

/// Points that a pickup of the kind is worth.
pub open spec fn bonus(kind: PowerUpType) -> int {
    match kind {
        PowerUpType::Health => 20,
        PowerUpType::Shield => 30,
        PowerUpType::ScatterShot => 25,
        PowerUpType::SpeedBoost => 25,
        PowerUpType::Damage => 40,
    }
}

/// The player's tank after a pickup of the kind took effect at `now`: 50 points of
/// health, a shield of 30 seconds, the scatter shot, or half as much speed again up to
/// `BOOST_CAP`. A damage pickup changes nothing of the tank.
pub open spec fn boosted(t: Tank, kind: PowerUpType, now: i64) -> Tank {
    match kind {
        PowerUpType::Health => t.healed(50),
        PowerUpType::Shield => Tank {
            shield: Some(Shield { duration: SHIELD_DURATION, start_time: now }),
            ..t
        },
        PowerUpType::ScatterShot => Tank { scatter_shot: true, ..t },
        PowerUpType::SpeedBoost => Tank {
            speed: min(scaled(t.speed as int, 1500, UNIT as int), BOOST_CAP as int) as i64,
            ..t
        },
        PowerUpType::Damage => t,
    }
}

/// A counter after it was raised by `step` the given number of times, stopping at the
/// largest number it can hold.
pub open spec fn raised(v: i32, step: int, times: nat) -> i32
    decreases times,
{
    if times == 0 {
        v
    } else {
        sat_i32(raised(v, step, (times - 1) as nat) + step) as i32
    }
}

/// The player's tank after the pickups of the given kinds took effect, in order.
pub open spec fn rewarded_tank(t: Tank, kinds: Seq<PowerUpType>, now: i64) -> Tank
    decreases kinds.len(),
{
    if kinds.len() == 0 {
        t
    } else {
        boosted(rewarded_tank(t, kinds.drop_last(), now), kinds.last(), now)
    }
}

/// The score after the bonus of each pickup of the given kinds was added, in order.
pub open spec fn rewarded_score(score: i32, kinds: Seq<PowerUpType>) -> i32
    decreases kinds.len(),
{
    if kinds.len() == 0 {
        score
    } else {
        sat_i32(rewarded_score(score, kinds.drop_last()) + bonus(kinds.last())) as i32
    }
}

/// The player's tank stays where it is, and as large, through any pickups.
pub proof fn lemma_rewards_keep_body(t: Tank, kinds: Seq<PowerUpType>, now: i64)
    requires
        t.wf(),
        0 <= now <= TIME_MAX,
    ensures
        rewarded_tank(t, kinds, now).position == t.position,
        rewarded_tank(t, kinds, now).size == t.size,
    decreases kinds.len(),
{
    if kinds.len() > 0 {
        lemma_rewards_keep_body(t, kinds.drop_last(), now);
    }
}

impl Game {
    /// The player's tank takes the effect of a pickup, and the score its bonus. A score
    /// that the largest number of its type cannot hold stops there.
    pub fn apply_powerup(&mut self, powerup_type: PowerUpType, now: i64)
        requires
            old(self).player_tank.wf(),
            0 <= now <= TIME_MAX,
        ensures
            final(self).player_tank == boosted(old(self).player_tank, powerup_type, now),
            final(self).score == sat_i32(old(self).score + bonus(powerup_type)),
            old(self).score <= i32::MAX - 40 ==> final(self).score == old(self).score + bonus(
                powerup_type,
            ),
            final(self).player_tank.wf(),
            final(self).player_tank.position == old(self).player_tank.position,
            final(self).player_tank.size == old(self).player_tank.size,
            final(self).state == old(self).state,
            final(self).enemy_tanks == old(self).enemy_tanks,
            final(self).enemy_ais == old(self).enemy_ais,
            final(self).bullets == old(self).bullets,
            final(self).obstacles == old(self).obstacles,
            final(self).powerups == old(self).powerups,
            final(self).spawn_system == old(self).spawn_system,
            final(self).high_score == old(self).high_score,
            final(self).wave == old(self).wave,
            final(self).enemies_killed_this_wave == old(self).enemies_killed_this_wave,
            final(self).enemies_per_wave == old(self).enemies_per_wave,
            final(self).difficulty == old(self).difficulty,
            final(self).last_difficulty_increase == old(self).last_difficulty_increase,
            final(self).math_challenge == old(self).math_challenge,
    {
        match powerup_type {
            PowerUpType::Health => {
                self.player_tank.heal(50);
                self.score = saturate_i32(self.score as i64 + 20);
            },
            PowerUpType::Shield => {
                self.player_tank.add_shield(SHIELD_DURATION, now);
                self.score = saturate_i32(self.score as i64 + 30);
            },
            PowerUpType::ScatterShot => {
                self.player_tank.scatter_shot = true;
                self.score = saturate_i32(self.score as i64 + 25);
            },
            PowerUpType::SpeedBoost => {
                proof {
                    lemma_trunc_div_bound(self.player_tank.speed * 1500, UNIT as int, 15_000_000);
                }
                let faster = mul_div(self.player_tank.speed, 1500, UNIT);
                self.player_tank.speed = if faster <= BOOST_CAP {
                    faster
                } else {
                    BOOST_CAP
                };
                self.score = saturate_i32(self.score as i64 + 25);
            },
            PowerUpType::Damage => {
                self.score = saturate_i32(self.score as i64 + 40);
            },
        }
    }

    /// Starts the next wave: the wave number rises by one and the kill quota by two,
    /// the kills of the wave start again at zero, the score grows by 50 times the new
    /// wave number, the difficulty rises a step, and the player regains 25 points of
    /// health. Counters stop at the largest number they can hold.
    pub fn next_wave(&mut self)
        requires
            old(self).spawn_system.wf(),
        ensures
            final(self).wave == sat_i32(old(self).wave + 1),
            final(self).enemies_killed_this_wave == 0,
            final(self).enemies_per_wave == sat_i32(old(self).enemies_per_wave + 2),
            final(self).score == sat_i32(old(self).score + final(self).wave * 50),
            final(self).spawn_system == old(self).spawn_system.harder(),
            final(self).player_tank == old(self).player_tank.healed(25),
            final(self).spawn_system.wf(),
            final(self).state == old(self).state,
            final(self).enemy_tanks == old(self).enemy_tanks,
            final(self).enemy_ais == old(self).enemy_ais,
            final(self).bullets == old(self).bullets,
            final(self).obstacles == old(self).obstacles,
            final(self).powerups == old(self).powerups,
            final(self).high_score == old(self).high_score,
            final(self).difficulty == old(self).difficulty,
            final(self).last_difficulty_increase == old(self).last_difficulty_increase,
            final(self).math_challenge == old(self).math_challenge,
    {
        self.wave = saturate_i32(self.wave as i64 + 1);
        self.enemies_killed_this_wave = 0;
        self.enemies_per_wave = saturate_i32(self.enemies_per_wave as i64 + 2);
        self.score = saturate_i32(self.score as i64 + self.wave as i64 * 50);
        self.spawn_system.increase_difficulty();
        self.player_tank.heal(25);
    }
}

} // verus!
