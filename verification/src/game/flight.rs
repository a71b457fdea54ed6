//! The flight of projectiles and the ageing of pickups.
use super::Game;
use crate::entities::Arena;
use crate::entities::bullet::Bullet;
use crate::entities::powerup::PowerUp;
use crate::fixed::DT_MAX;
use crate::systems::collision::{bullets_wf, powerups_wf};
use vstd::prelude::*;

verus! {

/// The projectiles that are still in play after `dt` more milliseconds, each moved and
/// aged, in the order of the set.
pub open spec fn flying(bullets: Seq<Bullet>, dt: i64, arena: Arena) -> Seq<Bullet>
    decreases bullets.len(),
{
    if bullets.len() == 0 {
        Seq::empty()
    } else {
        let earlier = flying(bullets.drop_last(), dt, arena);
        if bullets.last().advanced(dt).active(&arena) {
            earlier.push(bullets.last().advanced(dt))
        } else {
            earlier
        }
    }
}

/// The pickups that are still in play after `dt` more milliseconds, each aged, in the
/// order of the set.
pub open spec fn lying(powerups: Seq<PowerUp>, dt: i64) -> Seq<PowerUp>
    decreases powerups.len(),
{
    if powerups.len() == 0 {
        Seq::empty()
    } else {
        let earlier = lying(powerups.drop_last(), dt);
        if powerups.last().aged(dt).active() {
            earlier.push(powerups.last().aged(dt))
        } else {
            earlier
        }
    }
}

/// Moves and ages every projectile, and keeps those that are still in play.
pub fn advance_bullets(bullets: &mut Vec<Bullet>, dt: i64, arena: &Arena)
    requires
        bullets_wf(old(bullets)@),
        arena.wf(),
        0 <= dt <= DT_MAX,
    ensures
        final(bullets)@ == flying(old(bullets)@, dt, *arena),
        bullets_wf(final(bullets)@),
        forall|i: int| 0 <= i < final(bullets)@.len() ==> (#[trigger] final(bullets)@[i]).active(arena),
{
    let mut kept: Vec<Bullet> = Vec::new();
    let mut i: usize = 0;
    while i < bullets.len()
        invariant
            0 <= i <= bullets.len(),
            bullets@ == old(bullets)@,
            bullets_wf(bullets@),
            arena.wf(),
            0 <= dt <= DT_MAX,
            kept@ == flying(bullets@.take(i as int), dt, *arena),
            bullets_wf(kept@),
            forall|j: int| 0 <= j < kept@.len() ==> (#[trigger] kept@[j]).active(arena),
        decreases bullets.len() - i,
    {
        let mut bullet = bullets[i];
        proof {
            assert(bullets@.take(i as int + 1).drop_last() =~= bullets@.take(i as int));
            assert(bullets@[i as int].wf());
        }
        if bullet.update(dt, arena) {
            kept.push(bullet);
        }
        i += 1;
    }
    proof {
        assert(bullets@.take(i as int) =~= bullets@);
    }
    *bullets = kept;
}

/// Ages every pickup, and keeps those that are still in play.
pub fn advance_powerups(powerups: &mut Vec<PowerUp>, dt: i64)
    requires
        powerups_wf(old(powerups)@),
        0 <= dt <= DT_MAX,
    ensures
        final(powerups)@ == lying(old(powerups)@, dt),
        powerups_wf(final(powerups)@),
{
    let mut kept: Vec<PowerUp> = Vec::new();
    let mut i: usize = 0;
    while i < powerups.len()
        invariant
            0 <= i <= powerups.len(),
            powerups@ == old(powerups)@,
            powerups_wf(powerups@),
            0 <= dt <= DT_MAX,
            kept@ == lying(powerups@.take(i as int), dt),
            powerups_wf(kept@),
        decreases powerups.len() - i,
    {
        let mut powerup = powerups[i];
        proof {
            assert(powerups@.take(i as int + 1).drop_last() =~= powerups@.take(i as int));
            assert(powerups@[i as int].wf());
        }
        if powerup.update(dt) {
            kept.push(powerup);
        }
        i += 1;
    }
    proof {
        assert(powerups@.take(i as int) =~= powerups@);
    }
    *powerups = kept;
}

impl Game {
    /// This session is `before` after projectiles and pickups have moved and aged for
    /// `dt` milliseconds, and those out of play have left.
    #[verifier::opaque]
    pub open spec fn flown(&self, before: &Game, dt: i64, arena: Arena) -> bool {
        &&& self.bullets@ == flying(before.bullets@, dt, arena)
        &&& self.powerups@ == lying(before.powerups@, dt)
        &&& self.player_tank == before.player_tank
        &&& self.enemy_tanks == before.enemy_tanks
        &&& self.enemy_ais == before.enemy_ais
        &&& self.obstacles == before.obstacles
        &&& self.spawn_system == before.spawn_system
        &&& self.same_counters(before)
        &&& self.state == before.state
        &&& self.high_score == before.high_score
        &&& self.math_challenge == before.math_challenge
    }

    /// Moves and ages every projectile and pickup, and drops those out of play.
    pub fn advance(&mut self, dt: i64, arena: &Arena)
        requires
            old(self).wf(),
            arena.wf(),
            0 <= dt <= DT_MAX,
        ensures
            final(self).flown(old(self), dt, *arena),
            final(self).steady(old(self)),
            final(self).player_tank == old(self).player_tank,
            final(self).enemy_tanks == old(self).enemy_tanks,
            final(self).wf(),
            final(self).bullets_active(arena),
    {
        reveal(Game::flown);
        advance_bullets(&mut self.bullets, dt, arena);
        advance_powerups(&mut self.powerups, dt);
    }
}

} // verus!
