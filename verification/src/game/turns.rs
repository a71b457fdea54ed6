//! The turns of the player and of the hostile agents.
use super::{ais_wf, Game};
use crate::entities::Arena;
use crate::entities::bullet::Bullet;
use crate::entities::enemy::{decided, lemma_decision_keeps_body, AiDraws, EnemyAI};
use crate::entities::obstacle::Obstacle;
use crate::entities::tank::{field_wf, Tank};
use crate::fixed::{lemma_scaled_within, mul_div, DT_MAX, TIME_MAX, UNIT};
use crate::systems::collision::{bullets_wf, tanks_wf};
use crate::systems::input::{
    commanded, fires, handle_player_input, muzzle_x, muzzle_y, volley, InputIntent, MUZZLE_MARGIN,
};
use vstd::prelude::*;

verus! {

/// The projectile that a hostile agent fires: an ordinary one from its muzzle, along
/// its facing.
pub open spec fn muzzle_shot(t: Tank) -> Bullet {
    Bullet::shot(muzzle_x(t) as i64, muzzle_y(t) as i64, t.angle, false)
}

/// A hostile agent at the end of its turn: after its decision on the draws `d`, the
/// check of its shield, and its move.
pub open spec fn enemy_moved(
    ai: EnemyAI,
    e: Tank,
    p: Tank,
    obstacles: Seq<Obstacle>,
    arena: Arena,
    now: i64,
    dt: i64,
    d: AiDraws,
) -> Tank {
    decided(ai, e, p, obstacles, arena, now, dt, d).1.shield_checked(now).moved_safely(
        dt,
        obstacles,
        &arena,
    )
}

/// The projectiles that the first `k` hostile agents fire in their turns, in order, agent
/// `i` deciding on the draws `ds[i]`. A projectile starts at the muzzle of the agent
/// where its move has brought it.
pub open spec fn enemy_fire(
    ais: Seq<EnemyAI>,
    tanks: Seq<Tank>,
    p: Tank,
    obstacles: Seq<Obstacle>,
    arena: Arena,
    now: i64,
    dt: i64,
    ds: Seq<AiDraws>,
    k: int,
) -> Seq<Bullet>
    decreases k,
{
    if k <= 0 {
        Seq::empty()
    } else {
        let earlier = enemy_fire(ais, tanks, p, obstacles, arena, now, dt, ds, k - 1);
        if decided(ais[k - 1], tanks[k - 1], p, obstacles, arena, now, dt, ds[k - 1]).2 {
            earlier.push(
                muzzle_shot(
                    enemy_moved(ais[k - 1], tanks[k - 1], p, obstacles, arena, now, dt, ds[k - 1]),
                ),
            )
        } else {
            earlier
        }
    }
}

/// The hostile agents, their memories and the projectiles are as the turns of all
/// agents leave them, agent `i` deciding on the draws `ds[i]`.
pub open spec fn enemies_driven(
    before: &Game,
    after: &Game,
    arena: Arena,
    now: i64,
    dt: i64,
    ds: Seq<AiDraws>,
) -> bool {
    let n = before.enemy_tanks@.len();
    let p = before.player_tank;
    let obstacles = before.obstacles@;
    &&& ds.len() == n
    &&& forall|i: int| 0 <= i < n ==> (#[trigger] ds[i]).wf()
    &&& after.enemy_ais@.len() == n
    &&& after.enemy_tanks@.len() == n
    &&& forall|i: int|
        0 <= i < n ==> #[trigger] after.enemy_ais@[i] == decided(
            before.enemy_ais@[i],
            before.enemy_tanks@[i],
            p,
            obstacles,
            arena,
            now,
            dt,
            ds[i],
        ).0
    &&& forall|i: int|
        0 <= i < n ==> #[trigger] after.enemy_tanks@[i] == enemy_moved(
            before.enemy_ais@[i],
            before.enemy_tanks@[i],
            p,
            obstacles,
            arena,
            now,
            dt,
            ds[i],
        )
    &&& after.bullets@ == before.bullets@ + enemy_fire(
        before.enemy_ais@,
        before.enemy_tanks@,
        p,
        obstacles,
        arena,
        now,
        dt,
        ds,
        n as int,
    )
}

/// What the first `k` agents fire depends on the draws of those agents alone.
pub proof fn lemma_enemy_fire_prefix(
    ais: Seq<EnemyAI>,
    tanks: Seq<Tank>,
    p: Tank,
    obstacles: Seq<Obstacle>,
    arena: Arena,
    now: i64,
    dt: i64,
    ds: Seq<AiDraws>,
    es: Seq<AiDraws>,
    k: int,
)
    requires
        k <= ds.len(),
        k <= es.len(),
        forall|i: int| 0 <= i < k ==> ds[i] == es[i],
    ensures
        enemy_fire(ais, tanks, p, obstacles, arena, now, dt, ds, k) == enemy_fire(
            ais,
            tanks,
            p,
            obstacles,
            arena,
            now,
            dt,
            es,
            k,
        ),
    decreases k,
{
    if k > 0 {
        lemma_enemy_fire_prefix(ais, tanks, p, obstacles, arena, now, dt, ds, es, k - 1);
    }
}

/// Creates the projectile that a hostile agent fires.
pub fn fire_from_muzzle(tank: &Tank) -> (b: Bullet)
    requires
        tank.wf(),
    ensures
        b == muzzle_shot(*tank),
        b.wf(),
{
    proof {
        lemma_scaled_within(tank.angle.cos as int, tank.size + MUZZLE_MARGIN, UNIT as int);
        lemma_scaled_within(tank.angle.sin as int, tank.size + MUZZLE_MARGIN, UNIT as int);
    }
    let bullet_x = tank.position.x + mul_div(tank.angle.cos, tank.size + MUZZLE_MARGIN, UNIT);
    let bullet_y = tank.position.y + mul_div(tank.angle.sin, tank.size + MUZZLE_MARGIN, UNIT);
    Bullet::new(bullet_x, bullet_y, tank.angle, false)
}

impl Game {
    /// This session is `before` after the player's turn: the intent has acted on the
    /// tank, the projectiles it fired have joined those in play, the shield was
    /// checked, and the tank has moved.
    #[verifier::opaque]
    pub open spec fn player_commanded(
        &self,
        before: &Game,
        intent: InputIntent,
        arena: Arena,
        now: i64,
        dt: i64,
    ) -> bool {
        let ordered = commanded(before.player_tank, intent, dt, now);
        &&& self.player_tank == ordered.shield_checked(now).moved_safely(
            dt,
            before.obstacles@,
            &arena,
        )
        &&& self.bullets@ == before.bullets@ + if fires(before.player_tank, intent, now) {
            volley(ordered)
        } else {
            Seq::<Bullet>::empty()
        }
        &&& self.enemy_tanks == before.enemy_tanks
        &&& self.enemy_ais == before.enemy_ais
        &&& self.obstacles == before.obstacles
        &&& self.powerups == before.powerups
        &&& self.spawn_system == before.spawn_system
        &&& self.same_counters(before)
        &&& self.state == before.state
        &&& self.high_score == before.high_score
        &&& self.math_challenge == before.math_challenge
    }

    /// This session is `before` after the turns of the hostile agents, whatever chance
    /// has contributed to their decisions.
    #[verifier::opaque]
    pub open spec fn enemies_turned(&self, before: &Game, arena: Arena, now: i64, dt: i64) -> bool {
        &&& exists|ds: Seq<AiDraws>| #[trigger] enemies_driven(before, self, arena, now, dt, ds)
        &&& self.player_tank == before.player_tank
        &&& self.obstacles == before.obstacles
        &&& self.powerups == before.powerups
        &&& self.spawn_system == before.spawn_system
        &&& self.same_counters(before)
        &&& self.state == before.state
        &&& self.high_score == before.high_score
        &&& self.math_challenge == before.math_challenge
    }

    /// The player's turn: the intent acts on the tank, the projectiles it fires join
    /// those in play, the shield is checked, and the tank moves.
    pub fn command_player(&mut self, intent: &InputIntent, arena: &Arena, now: i64, dt: i64)
        requires
            old(self).wf(),
            intent.wf(),
            arena.wf(),
            0 <= now <= TIME_MAX,
            0 <= dt <= DT_MAX,
        ensures
            final(self).player_commanded(old(self), *intent, *arena, now, dt),
            final(self).steady(old(self)),
            final(self).enemy_tanks == old(self).enemy_tanks,
            final(self).wf(),
            old(self).player_tank.contained(arena) ==> final(self).player_tank.contained(arena),
    {
        reveal(Game::player_commanded);
        let mut new_bullets = handle_player_input(&mut self.player_tank, intent, dt, now);
        let ghost fired = new_bullets@;
        self.bullets.append(&mut new_bullets);
        proof {
            assert forall|i: int| 0 <= i < self.bullets@.len() implies (#[trigger] self.bullets@[i]).wf() by {
                if i < old(self).bullets@.len() {
                    assert(old(self).bullets@[i].wf());
                } else {
                    assert(fired[i - old(self).bullets@.len()].wf());
                }
            }
        }
        self.player_tank.expire_shield(now);
        self.player_tank.safe_move(dt, self.obstacles.as_slice(), arena);
    }

    /// The turns of the hostile agents, in order: each decides, has its shield checked,
    /// moves, and fires a projectile from where it then stands if it decided to.
    pub fn drive_enemies(&mut self, arena: &Arena, now: i64, dt: i64, rng: &mut rand::rngs::StdRng)
        requires
            old(self).wf(),
            arena.wf(),
            0 <= now <= TIME_MAX,
            0 <= dt <= DT_MAX,
        ensures
            final(self).enemies_turned(old(self), *arena, now, dt),
            final(self).steady(old(self)),
            final(self).wf(),
            old(self).agents_contained(arena) ==> final(self).agents_contained(arena),
    {
        reveal(Game::enemies_turned);
        let ghost a0 = self.enemy_ais@;
        let ghost t0 = self.enemy_tanks@;
        let ghost b0 = self.bullets@;
        let ghost p = self.player_tank;
        let ghost obstacles = self.obstacles@;
        let ghost mut ds: Seq<AiDraws> = Seq::empty();
        let n = self.enemy_tanks.len();
        let mut i: usize = 0;
        while i < n
            invariant
                0 <= i <= n,
                arena.wf(),
                0 <= now <= TIME_MAX,
                0 <= dt <= DT_MAX,
                a0.len() == n,
                t0.len() == n,
                tanks_wf(t0),
                ais_wf(a0),
                self.enemy_tanks@.len() == n,
                self.enemy_ais@.len() == n,
                ds.len() == i,
                forall|j: int| 0 <= j < i ==> (#[trigger] ds[j]).wf(),
                forall|j: int|
                    0 <= j < i ==> #[trigger] self.enemy_ais@[j] == decided(
                        a0[j],
                        t0[j],
                        p,
                        obstacles,
                        *arena,
                        now,
                        dt,
                        ds[j],
                    ).0,
                forall|j: int|
                    0 <= j < i ==> #[trigger] self.enemy_tanks@[j] == enemy_moved(
                        a0[j],
                        t0[j],
                        p,
                        obstacles,
                        *arena,
                        now,
                        dt,
                        ds[j],
                    ),
                forall|j: int| i <= j < n ==> #[trigger] self.enemy_ais@[j] == a0[j],
                forall|j: int| i <= j < n ==> #[trigger] self.enemy_tanks@[j] == t0[j],
                forall|j: int|
                    0 <= j < n && (#[trigger] t0[j]).contained(arena) ==> self.enemy_tanks@[j].contained(
                        arena,
                    ),
                self.bullets@ == b0 + enemy_fire(a0, t0, p, obstacles, *arena, now, dt, ds, i as int),
                tanks_wf(self.enemy_tanks@),
                ais_wf(self.enemy_ais@),
                bullets_wf(self.bullets@),
                field_wf(self.obstacles@),
                self.player_tank.wf(),
                self.player_tank == p,
                self.obstacles@ == obstacles,
                self.obstacles == old(self).obstacles,
                self.powerups == old(self).powerups,
                self.spawn_system == old(self).spawn_system,
                self.same_counters(old(self)),
                self.state == old(self).state,
                self.high_score == old(self).high_score,
                self.math_challenge == old(self).math_challenge,
            decreases n - i,
        {
            let mut ai = self.enemy_ais[i];
            let mut tank = self.enemy_tanks[i];
            proof {
                assert(self.enemy_ais@[i as int].wf());
                assert(self.enemy_tanks@[i as int].wf());
                assert(ai == a0[i as int] && tank == t0[i as int]);
            }
            let fire = ai.update(
                &mut tank,
                &self.player_tank,
                self.obstacles.as_slice(),
                arena,
                now,
                dt,
                rng,
            );
            let ghost d = choose|d: AiDraws|
                d.wf() && (ai, tank, fire) == #[trigger] decided(
                    a0[i as int],
                    t0[i as int],
                    p,
                    obstacles,
                    *arena,
                    now,
                    dt,
                    d,
                );
            tank.expire_shield(now);
            tank.safe_move(dt, self.obstacles.as_slice(), arena);
            self.enemy_ais.set(i, ai);
            self.enemy_tanks.set(i, tank);
            let ghost earlier = ds;
            proof {
                ds = ds.push(d);
                lemma_enemy_fire_prefix(a0, t0, p, obstacles, *arena, now, dt, earlier, ds, i as int);
                lemma_decision_keeps_body(a0[i as int], t0[i as int], p, obstacles, *arena, now, dt, d);
            }
            if fire {
                let bullet = fire_from_muzzle(&tank);
                self.bullets.push(bullet);
                proof {
                    assert(self.bullets@ =~= b0 + enemy_fire(
                        a0,
                        t0,
                        p,
                        obstacles,
                        *arena,
                        now,
                        dt,
                        ds,
                        i as int + 1,
                    ));
                }
            }
            i += 1;
        }
        proof {
            assert(enemies_driven(old(self), self, *arena, now, dt, ds));
        }
    }
}

} // verus!
