//! Resolving the collisions of one tick.
use super::Game;
use super::removal::{
    ascending_below, lemma_fallen_ascending, lemma_removal_keeps_pairs, lemma_without_subset,
    without,
};
use super::scoring::{lemma_rewards_keep_body, raised, rewarded_score, rewarded_tank};
use crate::entities::Arena;
use crate::entities::bullet::Bullet;
use crate::entities::enemy::EnemyAI;
use crate::entities::tank::{lemma_hits_touch_health_only, Tank};
use crate::fixed::{saturate_i32, TIME_MAX};
use crate::systems::collision::{
    battered, check_bullet_obstacle_collisions, check_bullet_tank_collisions,
    check_powerup_collisions, fallen, flying_on, gathered, hits_on, left_lying,
    lemma_flying_on_keeps, lemma_hits_not_negative, lemma_unspent_keeps, standing, unspent, PLAYER,
};
use vstd::prelude::*;

verus! {

impl Game {
    /// This session is `before` after the collisions of a tick at `now` were resolved.
    /// Projectiles have struck agents; the hostile agents destroyed have left together
    /// with their memories, each for 100 points and one kill. The projectiles left have
    /// struck obstacles, and the obstacles destroyed have left the field. The player
    /// has collected the pickups it overlapped, and each has taken effect.
    #[verifier::opaque]
    pub open spec fn collisions_resolved(&self, before: &Game, now: i64) -> bool {
        let b0 = before.bullets@;
        let player0 = before.player_tank;
        let t0 = before.enemy_tanks@;
        let destroyed = fallen(t0.len() as int, b0, player0, t0);
        let b1 = unspent(b0, player0, t0);
        let player1 = player0.after_hits(hits_on(PLAYER as int, b0, player0, t0));
        let kinds = gathered(player1, before.powerups@);
        &&& self.enemy_tanks@ == without(battered(t0.len() as int, b0, player0, t0), destroyed)
        &&& self.enemy_ais@ == without(before.enemy_ais@, destroyed)
        &&& self.bullets@ == flying_on(b1, before.obstacles@)
        &&& self.obstacles@ == standing(before.obstacles@.len() as int, b1, before.obstacles@)
        &&& self.powerups@ == left_lying(player1, before.powerups@)
        &&& self.player_tank == rewarded_tank(player1, kinds, now)
        &&& self.score == rewarded_score(raised(before.score, 100, destroyed.len()), kinds)
        &&& self.enemies_killed_this_wave == raised(
            before.enemies_killed_this_wave,
            1,
            destroyed.len(),
        )
        &&& self.state == before.state
        &&& self.spawn_system == before.spawn_system
        &&& self.high_score == before.high_score
        &&& self.wave == before.wave
        &&& self.enemies_per_wave == before.enemies_per_wave
        &&& self.difficulty == before.difficulty
        &&& self.last_difficulty_increase == before.last_difficulty_increase
        &&& self.math_challenge == before.math_challenge
    }

    /// Resolves the collisions of one tick. Projectiles strike agents, and the hostile
    /// agents destroyed leave together with their memories, highest index first, each
    /// for 100 points and one kill. The projectiles left strike obstacles, and the
    /// obstacles destroyed leave the field. The player collects the pickups it
    /// overlaps, and each takes effect.
    pub fn resolve_collisions(&mut self, now: i64)
        requires
            old(self).wf(),
            0 <= now <= TIME_MAX,
        ensures
            final(self).collisions_resolved(old(self), now),
            final(self).steady(old(self)),
            final(self).wf(),
            forall|arena: Arena| #[trigger]
                old(self).agents_contained(&arena) ==> final(self).agents_contained(&arena),
            forall|arena: Arena| #[trigger]
                old(self).bullets_active(&arena) ==> final(self).bullets_active(&arena),
    {
        reveal(Game::collisions_resolved);
        let ghost b0 = self.bullets@;
        let ghost player0 = self.player_tank;
        let ghost t0 = self.enemy_tanks@;
        let ghost a0 = self.enemy_ais@;
        let ghost n = t0.len() as int;
        let count = self.enemy_tanks.len();
        assert(n == count);
        let destroyed = check_bullet_tank_collisions(
            &mut self.bullets,
            &mut self.enemy_tanks,
            &mut self.player_tank,
        );
        let ghost b1 = self.bullets@;
        let ghost player1 = self.player_tank;
        let ghost hit = self.enemy_tanks@;
        proof {
            lemma_fallen_ascending(n, b0, player0, t0);
            lemma_removal_keeps_pairs(hit, a0, destroyed@);
            lemma_without_subset(hit, destroyed@, |t: Tank| t.wf());
            lemma_without_subset(a0, destroyed@, |ai: EnemyAI| ai.wf());
            assert(destroyed@.take(destroyed@.len() as int) =~= destroyed@);
        }
        let mut k: usize = destroyed.len();
        while k > 0
            invariant
                0 <= k <= destroyed.len(),
                ascending_below(destroyed@, n),
                hit.len() == n,
                a0.len() == n,
                self.enemy_tanks@.len() == n - (destroyed.len() - k),
                self.enemy_ais@.len() == n - (destroyed.len() - k),
                forall|j: int| 0 <= j < k ==> destroyed@[j] < self.enemy_tanks@.len(),
                without(hit, destroyed@) == without(self.enemy_tanks@, destroyed@.take(k as int)),
                without(a0, destroyed@) == without(self.enemy_ais@, destroyed@.take(k as int)),
                self.score == raised(old(self).score, 100, (destroyed.len() - k) as nat),
                self.enemies_killed_this_wave == raised(
                    old(self).enemies_killed_this_wave,
                    1,
                    (destroyed.len() - k) as nat,
                ),
                self.bullets@ == b1,
                self.player_tank == player1,
                self.obstacles == old(self).obstacles,
                self.powerups == old(self).powerups,
                self.state == old(self).state,
                self.spawn_system == old(self).spawn_system,
                self.high_score == old(self).high_score,
                self.wave == old(self).wave,
                self.enemies_per_wave == old(self).enemies_per_wave,
                self.difficulty == old(self).difficulty,
                self.last_difficulty_increase == old(self).last_difficulty_increase,
                self.math_challenge == old(self).math_challenge,
            decreases k,
        {
            k -= 1;
            let tank_idx = destroyed[k];
            proof {
                assert(destroyed@.take(k as int + 1).drop_last() =~= destroyed@.take(k as int));
                assert(destroyed@.take(k as int + 1).last() == tank_idx);
                assert forall|j: int| 0 <= j < k implies destroyed@[j] < self.enemy_tanks@.len()
                    - 1 by {
                    assert(destroyed@[j] < destroyed@[k as int]);
                }
            }
            let _ = self.enemy_tanks.remove(tank_idx);
            let _ = self.enemy_ais.remove(tank_idx);
            self.score = saturate_i32(self.score as i64 + 100);
            self.enemies_killed_this_wave = saturate_i32(self.enemies_killed_this_wave as i64 + 1);
        }
        proof {
            assert(destroyed@.take(0) =~= Seq::<usize>::empty());
        }
        check_bullet_obstacle_collisions(&mut self.bullets, &mut self.obstacles);
        let collected = check_powerup_collisions(&mut self.player_tank, &mut self.powerups);
        let ghost s1 = self.score;
        let mut j: usize = 0;
        while j < collected.len()
            invariant
                0 <= j <= collected.len(),
                0 <= now <= TIME_MAX,
                player1.wf(),
                self.player_tank.wf(),
                self.player_tank == rewarded_tank(player1, collected@.take(j as int), now),
                self.score == rewarded_score(s1, collected@.take(j as int)),
                self.enemy_tanks@ == without(hit, destroyed@),
                self.enemy_ais@ == without(a0, destroyed@),
                self.bullets@ == flying_on(b1, old(self).obstacles@),
                self.obstacles@ == standing(
                    old(self).obstacles@.len() as int,
                    b1,
                    old(self).obstacles@,
                ),
                self.powerups@ == left_lying(player1, old(self).powerups@),
                self.enemies_killed_this_wave == raised(
                    old(self).enemies_killed_this_wave,
                    1,
                    destroyed.len() as nat,
                ),
                self.state == old(self).state,
                self.spawn_system == old(self).spawn_system,
                self.high_score == old(self).high_score,
                self.wave == old(self).wave,
                self.enemies_per_wave == old(self).enemies_per_wave,
                self.difficulty == old(self).difficulty,
                self.last_difficulty_increase == old(self).last_difficulty_increase,
                self.math_challenge == old(self).math_challenge,
            decreases collected.len() - j,
        {
            proof {
                assert(collected@.take(j as int + 1).drop_last() =~= collected@.take(j as int));
            }
            self.apply_powerup(collected[j], now);
            j += 1;
        }
        proof {
            assert(collected@.take(j as int) =~= collected@);
            lemma_rewards_keep_body(player1, collected@, now);
            lemma_hits_not_negative(PLAYER as int, b0, player0, t0);
            lemma_hits_touch_health_only(player0, hits_on(PLAYER as int, b0, player0, t0));
            assert forall|arena: Arena| #[trigger]
                old(self).agents_contained(&arena) implies self.agents_contained(&arena) by {
                assert forall|i: int| 0 <= i < hit.len() implies (#[trigger] hit[i]).contained(
                    &arena,
                ) by {
                    lemma_hits_not_negative(i, b0, player0, t0);
                    lemma_hits_touch_health_only(t0[i], hits_on(i, b0, player0, t0));
                    assert(t0[i].contained(&arena));
                }
                lemma_without_subset(hit, destroyed@, |t: Tank| t.contained(&arena));
            }
            assert forall|arena: Arena| #[trigger]
                old(self).bullets_active(&arena) implies self.bullets_active(&arena) by {
                lemma_unspent_keeps(b0, player0, t0, |b: Bullet| b.active(&arena));
                lemma_flying_on_keeps(b1, old(self).obstacles@, |b: Bullet| b.active(&arena));
            }
        }
    }
}

} // verus!
