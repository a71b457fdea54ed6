//! Collision detection and response between projectiles, agents, obstacles and pickups.
use crate::entities::bullet::Bullet;
use crate::entities::obstacle::{lemma_indestructible_stays, Obstacle};
use crate::entities::powerup::{PowerUp, PowerUpType};
use crate::entities::tank::{field_wf, lemma_hits_touch_health_only, lemma_shield_absorbs, Tank};
use crate::entities::{Position, Velocity};
use crate::fixed::{align, aligned};
use vstd::prelude::*;

verus! {

/// Every projectile of the set is well formed.
pub open spec fn bullets_wf(bullets: Seq<Bullet>) -> bool {
    forall|i: int| 0 <= i < bullets.len() ==> #[trigger] bullets[i].wf()
}

/// Every agent of the set is well formed.
pub open spec fn tanks_wf(tanks: Seq<Tank>) -> bool {
    forall|i: int| 0 <= i < tanks.len() ==> #[trigger] tanks[i].wf()
}

/// Every pickup of the set is well formed.
pub open spec fn powerups_wf(powerups: Seq<PowerUp>) -> bool {
    forall|i: int| 0 <= i < powerups.len() ==> #[trigger] powerups[i].wf()
}

/// The projectile overlaps the agent.
pub open spec fn reaches(b: Bullet, t: Tank) -> bool {
    b.touches_circle(&t.position, t.size as int)
}

/// Index of the first agent from `from` on that the projectile overlaps, or the number
/// of agents if there is none.
pub open spec fn first_reached(b: Bullet, tanks: Seq<Tank>, from: int) -> int
    decreases tanks.len() - from,
{
    if from >= tanks.len() {
        tanks.len() as int
    } else if reaches(b, tanks[from]) {
        from
    } else {
        first_reached(b, tanks, from + 1)
    }
}

/// The number that stands for the player among the targets of a projectile.
pub const PLAYER: i64 = -1;

/// The number that stands for no target at all.
pub const NOTHING: i64 = -2;

/// What the projectile strikes: the player if a hostile one overlaps it, the first
/// overlapping hostile agent if the player fired it, and otherwise nothing.
pub open spec fn struck(b: Bullet, player: Tank, tanks: Seq<Tank>) -> int {
    if !b.from_player {
        if reaches(b, player) {
            PLAYER as int
        } else {
            NOTHING as int
        }
    } else if first_reached(b, tanks, 0) < tanks.len() {
        first_reached(b, tanks, 0)
    } else {
        NOTHING as int
    }
}

/// The damage of each projectile that strikes the target `me`, in the order of the set.
pub open spec fn hits_on(me: int, bullets: Seq<Bullet>, player: Tank, tanks: Seq<Tank>) -> Seq<i32>
    decreases bullets.len(),
{
    if bullets.len() == 0 {
        Seq::empty()
    } else {
        let earlier = hits_on(me, bullets.drop_last(), player, tanks);
        if struck(bullets.last(), player, tanks) == me {
            earlier.push(bullets.last().damage)
        } else {
            earlier
        }
    }
}

/// The projectiles that strike nothing, in the order of the set.
pub open spec fn unspent(bullets: Seq<Bullet>, player: Tank, tanks: Seq<Tank>) -> Seq<Bullet>
    decreases bullets.len(),
{
    if bullets.len() == 0 {
        Seq::empty()
    } else {
        let earlier = unspent(bullets.drop_last(), player, tanks);
        if struck(bullets.last(), player, tanks) == NOTHING {
            earlier.push(bullets.last())
        } else {
            earlier
        }
    }
}

/// The first `n` hostile agents as the projectiles leave them.
pub open spec fn battered(n: int, bullets: Seq<Bullet>, player: Tank, tanks: Seq<Tank>) -> Seq<Tank> {
    Seq::new(n as nat, |i: int| tanks[i].after_hits(hits_on(i, bullets, player, tanks)))
}

/// The indices below `n`, in rising order, of the hostile agents that the projectiles
/// destroy.
pub open spec fn fallen(n: int, bullets: Seq<Bullet>, player: Tank, tanks: Seq<Tank>) -> Seq<usize>
    decreases n,
{
    if n <= 0 {
        Seq::empty()
    } else {
        let lower = fallen(n - 1, bullets, player, tanks);
        if tanks[n - 1].withstands(hits_on(n - 1, bullets, player, tanks)) {
            lower
        } else {
            lower.push((n - 1) as usize)
        }
    }
}

/// Every hit on a target is the damage of a well-formed projectile, so none is negative.
pub proof fn lemma_hits_not_negative(me: int, bullets: Seq<Bullet>, player: Tank, tanks: Seq<Tank>)
    requires
        bullets_wf(bullets),
    ensures
        forall|i: int|
            0 <= i < hits_on(me, bullets, player, tanks).len() ==> #[trigger] hits_on(
                me,
                bullets,
                player,
                tanks,
            )[i] >= 0,
    decreases bullets.len(),
{
    if bullets.len() > 0 {
        let earlier = hits_on(me, bullets.drop_last(), player, tanks);
        let all = hits_on(me, bullets, player, tanks);
        lemma_hits_not_negative(me, bullets.drop_last(), player, tanks);
        assert(bullets.last().wf());
        assert forall|i: int| 0 <= i < all.len() implies #[trigger] all[i] >= 0 by {
            if i < earlier.len() {
                assert(all[i] == earlier[i]);
            }
        }
    }
}

/// Which agent a projectile reaches first depends on where the agents are and how
/// large, and on nothing else.
pub proof fn lemma_first_reached_by_place(b: Bullet, a: Seq<Tank>, c: Seq<Tank>, from: int)
    requires
        a.len() == c.len(),
        0 <= from,
        forall|i: int|
            0 <= i < a.len() ==> (#[trigger] a[i]).position == c[i].position && a[i].size
                == c[i].size,
    ensures
        first_reached(b, a, from) == first_reached(b, c, from),
    decreases a.len() - from,
{
    if from < a.len() {
        assert(a[from].position == c[from].position && a[from].size == c[from].size);
        if !reaches(b, a[from]) {
            lemma_first_reached_by_place(b, a, c, from + 1);
        }
    }
}

/// Finds the first agent that the projectile overlaps.
fn find_reached(bullet: &Bullet, tanks: &Vec<Tank>) -> (k: usize)
    requires
        bullet.wf(),
        tanks_wf(tanks@),
    ensures
        k == first_reached(*bullet, tanks@, 0),
        k <= tanks.len(),
{
    let mut i: usize = 0;
    while i < tanks.len()
        invariant
            0 <= i <= tanks.len(),
            bullet.wf(),
            tanks_wf(tanks@),
            first_reached(*bullet, tanks@, 0) == first_reached(*bullet, tanks@, i as int),
        decreases tanks.len() - i,
    {
        assert(tanks@[i as int].wf());
        if bullet.collides_with_circle(&tanks[i].position, tanks[i].size) {
            return i;
        }
        i += 1;
    }
    i
}

/// Lets every projectile strike what it overlaps: a hostile projectile the player, a
/// projectile of the player the first hostile agent it reaches. The struck agent takes
/// the damage unless a shield absorbs it, and the projectile is spent either way.
/// Returns, in rising order, the index of each hostile agent that was destroyed; those
/// agents are still in `tanks`.
pub fn check_bullet_tank_collisions(
    bullets: &mut Vec<Bullet>,
    tanks: &mut Vec<Tank>,
    player_tank: &mut Tank,
) -> (destroyed: Vec<usize>)
    requires
        bullets_wf(old(bullets)@),
        tanks_wf(old(tanks)@),
        old(player_tank).wf(),
    ensures
        final(bullets)@ == unspent(old(bullets)@, *old(player_tank), old(tanks)@),
        *final(player_tank) == old(player_tank).after_hits(
            hits_on(PLAYER as int, old(bullets)@, *old(player_tank), old(tanks)@),
        ),
        final(tanks)@ == battered(
            old(tanks)@.len() as int,
            old(bullets)@,
            *old(player_tank),
            old(tanks)@,
        ),
        destroyed@ == fallen(
            old(tanks)@.len() as int,
            old(bullets)@,
            *old(player_tank),
            old(tanks)@,
        ),
        old(player_tank).shield.is_some() ==> *final(player_tank) == *old(player_tank),
        forall|i: int|
            0 <= i < old(tanks)@.len() && (#[trigger] old(tanks)@[i]).shield.is_some()
                ==> final(tanks)@[i] == old(tanks)@[i],
        bullets_wf(final(bullets)@),
        tanks_wf(final(tanks)@),
        final(player_tank).wf(),
{
    let ghost bullets0 = bullets@;
    let ghost tanks0 = tanks@;
    let ghost player0 = *player_tank;
    let n = tanks.len();
    let mut flags: Vec<bool> = Vec::new();
    while flags.len() < n
        invariant
            flags.len() <= n,
            forall|i: int| 0 <= i < flags.len() ==> !(#[trigger] flags@[i]),
        decreases n - flags.len(),
    {
        flags.push(false);
    }
    let mut kept: Vec<Bullet> = Vec::new();
    let mut k: usize = 0;
    while k < bullets.len()
        invariant
            0 <= k <= bullets.len(),
            bullets@ == bullets0,
            bullets_wf(bullets0),
            tanks_wf(tanks0),
            player0.wf(),
            tanks.len() == n,
            tanks0.len() == n,
            flags.len() == n,
            kept@ == unspent(bullets0.take(k as int), player0, tanks0),
            *player_tank == player0.after_hits(
                hits_on(PLAYER as int, bullets0.take(k as int), player0, tanks0),
            ),
            forall|i: int|
                0 <= i < n ==> #[trigger] tanks@[i] == tanks0[i].after_hits(
                    hits_on(i, bullets0.take(k as int), player0, tanks0),
                ),
            forall|i: int|
                0 <= i < n ==> #[trigger] flags@[i] == !tanks0[i].withstands(
                    hits_on(i, bullets0.take(k as int), player0, tanks0),
                ),
        decreases bullets.len() - k,
    {
        let bullet = bullets[k];
        let ghost before = bullets0.take(k as int);
        let ghost after = bullets0.take(k as int + 1);
        proof {
            assert(after.drop_last() =~= before);
            assert(after.last() == bullet);
            assert(bullet.wf());
            lemma_hits_not_negative(PLAYER as int, before, player0, tanks0);
            lemma_hits_touch_health_only(
                player0,
                hits_on(PLAYER as int, before, player0, tanks0),
            );
            assert forall|i: int| 0 <= i < n implies (#[trigger] tanks@[i]).position
                == tanks0[i].position && tanks@[i].size == tanks0[i].size && tanks@[i].wf() by {
                lemma_hits_not_negative(i, before, player0, tanks0);
                lemma_hits_touch_health_only(tanks0[i], hits_on(i, before, player0, tanks0));
                assert(tanks0[i].wf());
            }
            lemma_first_reached_by_place(bullet, tanks@, tanks0, 0);
        }
        if !bullet.from_player {
            if bullet.collides_with_circle(&player_tank.position, player_tank.size) {
                let _ = player_tank.take_damage(bullet.damage);
                proof {
                    assert(struck(bullet, player0, tanks0) == PLAYER);
                    let hits = hits_on(PLAYER as int, before, player0, tanks0);
                    assert(hits.push(bullet.damage).drop_last() =~= hits);
                }
            } else {
                kept.push(bullet);
                proof {
                    assert(struck(bullet, player0, tanks0) == NOTHING);
                }
            }
        } else {
            let target = find_reached(&bullet, tanks);
            if target < n {
                let mut tank = tanks[target];
                let ghost hits = hits_on(target as int, before, player0, tanks0);
                proof {
                    assert(tanks@[target as int] == tanks0[target as int].after_hits(hits));
                    assert(flags@[target as int] == !tanks0[target as int].withstands(hits));
                    assert(hits.push(bullet.damage).drop_last() =~= hits);
                }
                let destroyed_now = tank.take_damage(bullet.damage);
                tanks.set(target, tank);
                if destroyed_now {
                    flags.set(target, true);
                }
                proof {
                    assert(struck(bullet, player0, tanks0) == target as int);
                }
            } else {
                kept.push(bullet);
                proof {
                    assert(struck(bullet, player0, tanks0) == NOTHING);
                }
            }
        }
        k += 1;
    }
    proof {
        assert(bullets0.take(k as int) =~= bullets0);
        assert(tanks@ =~= battered(n as int, bullets0, player0, tanks0));
        lemma_hits_not_negative(PLAYER as int, bullets0, player0, tanks0);
        lemma_hits_touch_health_only(player0, hits_on(PLAYER as int, bullets0, player0, tanks0));
        assert forall|i: int| 0 <= i < n implies (#[trigger] tanks@[i]).wf() by {
            lemma_hits_not_negative(i, bullets0, player0, tanks0);
            lemma_hits_touch_health_only(tanks0[i], hits_on(i, bullets0, player0, tanks0));
            assert(tanks0[i].wf());
        }
        lemma_unspent_wf(bullets0, player0, tanks0);
        if player0.shield.is_some() {
            lemma_shield_absorbs(player0, hits_on(PLAYER as int, bullets0, player0, tanks0));
        }
        assert forall|i: int| 0 <= i < n && (#[trigger] tanks0[i]).shield.is_some() implies tanks@[i]
            == tanks0[i] by {
            lemma_shield_absorbs(tanks0[i], hits_on(i, bullets0, player0, tanks0));
        }
    }
    *bullets = kept;
    let mut destroyed: Vec<usize> = Vec::new();
    let mut i: usize = 0;
    while i < n
        invariant
            0 <= i <= n,
            flags.len() == n,
            tanks0.len() == n,
            destroyed@ == fallen(i as int, bullets0, player0, tanks0),
            forall|j: int|
                0 <= j < n ==> #[trigger] flags@[j] == !tanks0[j].withstands(
                    hits_on(j, bullets0, player0, tanks0),
                ),
        decreases n - i,
    {
        if flags[i] {
            destroyed.push(i);
        }
        i += 1;
    }
    destroyed
}

/// The projectiles that strike nothing are among those of the set, so they are well
/// formed when those are.
pub proof fn lemma_unspent_wf(bullets: Seq<Bullet>, player: Tank, tanks: Seq<Tank>)
    requires
        bullets_wf(bullets),
    ensures
        bullets_wf(unspent(bullets, player, tanks)),
        unspent(bullets, player, tanks).len() <= bullets.len(),
    decreases bullets.len(),
{
    if bullets.len() > 0 {
        lemma_unspent_wf(bullets.drop_last(), player, tanks);
        assert(bullets.last().wf());
    }
}

/// The projectile overlaps the obstacle.
pub open spec fn lands_on(b: Bullet, o: Obstacle) -> bool {
    o.touches_circle(&b.position, b.size as int)
}

/// Index of the first obstacle from `from` on that the projectile overlaps, or the
/// number of obstacles if there is none.
pub open spec fn first_landed(b: Bullet, obstacles: Seq<Obstacle>, from: int) -> int
    decreases obstacles.len() - from,
{
    if from >= obstacles.len() {
        obstacles.len() as int
    } else if lands_on(b, obstacles[from]) {
        from
    } else {
        first_landed(b, obstacles, from + 1)
    }
}

/// The damage of each projectile whose first overlapping obstacle is number `me`, in
/// the order of the set.
pub open spec fn impacts_on(me: int, bullets: Seq<Bullet>, obstacles: Seq<Obstacle>) -> Seq<i32>
    decreases bullets.len(),
{
    if bullets.len() == 0 {
        Seq::empty()
    } else {
        let earlier = impacts_on(me, bullets.drop_last(), obstacles);
        if first_landed(bullets.last(), obstacles, 0) == me {
            earlier.push(bullets.last().damage)
        } else {
            earlier
        }
    }
}

/// The projectiles that overlap no obstacle, in the order of the set.
pub open spec fn flying_on(bullets: Seq<Bullet>, obstacles: Seq<Obstacle>) -> Seq<Bullet>
    decreases bullets.len(),
{
    if bullets.len() == 0 {
        Seq::empty()
    } else {
        let earlier = flying_on(bullets.drop_last(), obstacles);
        if first_landed(bullets.last(), obstacles, 0) >= obstacles.len() {
            earlier.push(bullets.last())
        } else {
            earlier
        }
    }
}

/// Of the first `n` obstacles, those that withstand the projectiles, each as its
/// impacts leave it, in the order of the field.
pub open spec fn standing(n: int, bullets: Seq<Bullet>, obstacles: Seq<Obstacle>) -> Seq<Obstacle>
    decreases n,
{
    if n <= 0 {
        Seq::empty()
    } else {
        let lower = standing(n - 1, bullets, obstacles);
        let impacts = impacts_on(n - 1, bullets, obstacles);
        if obstacles[n - 1].withstands(impacts) {
            lower.push(obstacles[n - 1].after_hits(impacts))
        } else {
            lower
        }
    }
}

/// Impacts change nothing of an obstacle but its health.
pub proof fn lemma_impacts_touch_health_only(o: Obstacle, damages: Seq<i32>)
    ensures
        o.after_hits(damages) == (Obstacle { health: o.after_hits(damages).health, ..o }),
    decreases damages.len(),
{
    if damages.len() > 0 {
        lemma_impacts_touch_health_only(o, damages.drop_last());
    }
}

/// Which obstacle a projectile overlaps first depends on the rectangles alone.
pub proof fn lemma_first_landed_by_place(b: Bullet, a: Seq<Obstacle>, c: Seq<Obstacle>, from: int)
    requires
        a.len() == c.len(),
        0 <= from,
        forall|i: int|
            0 <= i < a.len() ==> (#[trigger] a[i]).position == c[i].position && a[i].width
                == c[i].width && a[i].height == c[i].height,
    ensures
        first_landed(b, a, from) == first_landed(b, c, from),
    decreases a.len() - from,
{
    if from < a.len() {
        assert(a[from].position == c[from].position && a[from].width == c[from].width
            && a[from].height == c[from].height);
        if !lands_on(b, a[from]) {
            lemma_first_landed_by_place(b, a, c, from + 1);
        }
    }
}

/// The obstacles left standing are well formed when the field is, and no more than
/// there were.
pub proof fn lemma_standing_wf(n: int, bullets: Seq<Bullet>, obstacles: Seq<Obstacle>)
    requires
        field_wf(obstacles),
        0 <= n <= obstacles.len(),
    ensures
        field_wf(standing(n, bullets, obstacles)),
        standing(n, bullets, obstacles).len() <= n,
    decreases n,
{
    if n > 0 {
        lemma_standing_wf(n - 1, bullets, obstacles);
        lemma_impacts_touch_health_only(obstacles[n - 1], impacts_on(n - 1, bullets, obstacles));
        assert(obstacles[n - 1].wf());
    }
}

/// The projectiles that overlap no obstacle are well formed when the set is.
pub proof fn lemma_flying_on_wf(bullets: Seq<Bullet>, obstacles: Seq<Obstacle>)
    requires
        bullets_wf(bullets),
    ensures
        bullets_wf(flying_on(bullets, obstacles)),
        flying_on(bullets, obstacles).len() <= bullets.len(),
    decreases bullets.len(),
{
    if bullets.len() > 0 {
        lemma_flying_on_wf(bullets.drop_last(), obstacles);
        assert(bullets.last().wf());
    }
}

/// Finds the first obstacle that the projectile overlaps.
fn find_landed(bullet: &Bullet, obstacles: &Vec<Obstacle>) -> (k: usize)
    requires
        bullet.wf(),
        field_wf(obstacles@),
    ensures
        k == first_landed(*bullet, obstacles@, 0),
        k <= obstacles.len(),
{
    let mut i: usize = 0;
    while i < obstacles.len()
        invariant
            0 <= i <= obstacles.len(),
            bullet.wf(),
            field_wf(obstacles@),
            first_landed(*bullet, obstacles@, 0) == first_landed(*bullet, obstacles@, i as int),
        decreases obstacles.len() - i,
    {
        assert(obstacles@[i as int].wf());
        if obstacles[i].collides_with_circle(&bullet.position, bullet.size) {
            return i;
        }
        i += 1;
    }
    i
}

/// Lets every projectile strike the first obstacle it overlaps. The obstacle takes the
/// damage unless it is indestructible, and the projectile is spent either way. The
/// obstacles that an impact destroyed leave the field once all projectiles are through.
pub fn check_bullet_obstacle_collisions(bullets: &mut Vec<Bullet>, obstacles: &mut Vec<Obstacle>)
    requires
        bullets_wf(old(bullets)@),
        field_wf(old(obstacles)@),
    ensures
        final(bullets)@ == flying_on(old(bullets)@, old(obstacles)@),
        final(obstacles)@ == standing(
            old(obstacles)@.len() as int,
            old(bullets)@,
            old(obstacles)@,
        ),
        bullets_wf(final(bullets)@),
        field_wf(final(obstacles)@),
{
    let ghost bullets0 = bullets@;
    let ghost field0 = obstacles@;
    let n = obstacles.len();
    let mut flags: Vec<bool> = Vec::new();
    while flags.len() < n
        invariant
            flags.len() <= n,
            forall|i: int| 0 <= i < flags.len() ==> !(#[trigger] flags@[i]),
        decreases n - flags.len(),
    {
        flags.push(false);
    }
    let mut kept: Vec<Bullet> = Vec::new();
    let mut k: usize = 0;
    while k < bullets.len()
        invariant
            0 <= k <= bullets.len(),
            bullets@ == bullets0,
            bullets_wf(bullets0),
            field_wf(field0),
            obstacles.len() == n,
            field0.len() == n,
            flags.len() == n,
            kept@ == flying_on(bullets0.take(k as int), field0),
            forall|i: int|
                0 <= i < n ==> #[trigger] obstacles@[i] == field0[i].after_hits(
                    impacts_on(i, bullets0.take(k as int), field0),
                ),
            forall|i: int|
                0 <= i < n ==> #[trigger] flags@[i] == !field0[i].withstands(
                    impacts_on(i, bullets0.take(k as int), field0),
                ),
        decreases bullets.len() - k,
    {
        let bullet = bullets[k];
        let ghost before = bullets0.take(k as int);
        let ghost after = bullets0.take(k as int + 1);
        proof {
            assert(after.drop_last() =~= before);
            assert(after.last() == bullet);
            assert(bullet.wf());
            assert forall|i: int| 0 <= i < n implies (#[trigger] obstacles@[i]).position
                == field0[i].position && obstacles@[i].width == field0[i].width
                && obstacles@[i].height == field0[i].height && obstacles@[i].wf() by {
                lemma_impacts_touch_health_only(field0[i], impacts_on(i, before, field0));
                assert(field0[i].wf());
            }
            lemma_first_landed_by_place(bullet, obstacles@, field0, 0);
        }
        let target = find_landed(&bullet, obstacles);
        if target < n {
            let mut obstacle = obstacles[target];
            let ghost impacts = impacts_on(target as int, before, field0);
            proof {
                assert(obstacles@[target as int] == field0[target as int].after_hits(impacts));
                assert(flags@[target as int] == !field0[target as int].withstands(impacts));
                assert(impacts.push(bullet.damage).drop_last() =~= impacts);
            }
            let destroyed_now = obstacle.take_damage(bullet.damage);
            obstacles.set(target, obstacle);
            if destroyed_now {
                flags.set(target, true);
            }
        } else {
            kept.push(bullet);
        }
        k += 1;
    }
    proof {
        assert(bullets0.take(k as int) =~= bullets0);
        lemma_flying_on_wf(bullets0, field0);
        lemma_standing_wf(n as int, bullets0, field0);
    }
    *bullets = kept;
    let mut left: Vec<Obstacle> = Vec::new();
    let mut i: usize = 0;
    while i < n
        invariant
            0 <= i <= n,
            flags.len() == n,
            obstacles.len() == n,
            field0.len() == n,
            left@ == standing(i as int, bullets0, field0),
            forall|j: int|
                0 <= j < n ==> #[trigger] obstacles@[j] == field0[j].after_hits(
                    impacts_on(j, bullets0, field0),
                ),
            forall|j: int|
                0 <= j < n ==> #[trigger] flags@[j] == !field0[j].withstands(
                    impacts_on(j, bullets0, field0),
                ),
        decreases n - i,
    {
        if !flags[i] {
            left.push(obstacles[i]);
        }
        i += 1;
    }
    *obstacles = left;
}

/// An indestructible obstacle is left standing by any set of projectiles.
pub proof fn lemma_steel_stands(i: int, bullets: Seq<Bullet>, obstacles: Seq<Obstacle>)
    requires
        0 <= i < obstacles.len(),
        !obstacles[i].destructible,
    ensures
        standing(obstacles.len() as int, bullets, obstacles).contains(obstacles[i]),
{
    lemma_indestructible_stays(obstacles[i], impacts_on(i, bullets, obstacles));
    lemma_standing_holds(i, obstacles.len() as int, bullets, obstacles);
}

/// An obstacle that withstands its impacts is among those left standing, as its impacts
/// leave it.
pub proof fn lemma_standing_holds(i: int, n: int, bullets: Seq<Bullet>, obstacles: Seq<Obstacle>)
    requires
        0 <= i < n <= obstacles.len(),
        obstacles[i].withstands(impacts_on(i, bullets, obstacles)),
    ensures
        standing(n, bullets, obstacles).contains(
            obstacles[i].after_hits(impacts_on(i, bullets, obstacles)),
        ),
    decreases n,
{
    let kept = obstacles[i].after_hits(impacts_on(i, bullets, obstacles));
    let lower = standing(n - 1, bullets, obstacles);
    let all = standing(n, bullets, obstacles);
    if i == n - 1 {
        assert(all == lower.push(kept));
        assert(all[all.len() - 1] == kept);
    } else {
        lemma_standing_holds(i, n - 1, bullets, obstacles);
        let at = choose|at: int| 0 <= at < lower.len() && lower[at] == kept;
        assert(all[at] == kept);
    }
}

/// How far from the centre of an obstacle an agent is put that overlapped it, beyond
/// the agent's own radius.
pub const PUSH_MARGIN: i64 = 5000;

/// The agent after one obstacle has acted on it: where the two overlap, the agent
/// stops and is put on the ray from the obstacle's centre through the agent, at its
/// radius plus `PUSH_MARGIN` from that centre. An agent at the very centre only stops.
pub open spec fn pushed_from(t: Tank, o: Obstacle) -> Tank {
    if o.touches_circle(&t.position, t.size as int) {
        let dx = t.position.x - o.center_x();
        let dy = t.position.y - o.center_y();
        let reach = t.size + PUSH_MARGIN;
        Tank {
            position: if dx != 0 || dy != 0 {
                Position {
                    x: (o.center_x() + aligned(dx, dy, reach).0) as i64,
                    y: (o.center_y() + aligned(dx, dy, reach).1) as i64,
                }
            } else {
                t.position
            },
            velocity: Velocity { x: 0, y: 0 },
            ..t
        }
    } else {
        t
    }
}

/// The agent after every obstacle of the field has acted on it, in order.
pub open spec fn pushed_out(t: Tank, obstacles: Seq<Obstacle>) -> Tank
    decreases obstacles.len(),
{
    if obstacles.len() == 0 {
        t
    } else {
        pushed_from(pushed_out(t, obstacles.drop_last()), obstacles.last())
    }
}

/// Pushes an agent out of every obstacle that it overlaps, one obstacle after the other.
pub fn check_tank_obstacle_collisions(tank: &mut Tank, obstacles: &[Obstacle])
    requires
        old(tank).wf(),
        field_wf(obstacles@),
    ensures
        *final(tank) == pushed_out(*old(tank), obstacles@),
        final(tank).wf(),
{
    let mut i: usize = 0;
    while i < obstacles.len()
        invariant
            0 <= i <= obstacles.len(),
            field_wf(obstacles@),
            tank.wf(),
            *tank == pushed_out(*old(tank), obstacles@.take(i as int)),
        decreases obstacles.len() - i,
    {
        let obstacle = &obstacles[i];
        proof {
            assert(obstacles@.take(i as int + 1).drop_last() =~= obstacles@.take(i as int));
            assert(obstacles@[i as int].wf());
        }
        if obstacle.collides_with_circle(&tank.position, tank.size) {
            tank.velocity.x = 0;
            tank.velocity.y = 0;
            let center_x = obstacle.position.x + obstacle.width / 2;
            let center_y = obstacle.position.y + obstacle.height / 2;
            let dx = tank.position.x - center_x;
            let dy = tank.position.y - center_y;
            if dx != 0 || dy != 0 {
                let push_distance = tank.size + PUSH_MARGIN;
                let out = align(dx, dy, push_distance);
                tank.position.x = center_x + out.0;
                tank.position.y = center_y + out.1;
            }
        }
        i += 1;
    }
    proof {
        assert(obstacles@.take(i as int) =~= obstacles@);
    }
}

/// The kinds of the pickups that the agent overlaps, in the order of the set.
pub open spec fn gathered(t: Tank, powerups: Seq<PowerUp>) -> Seq<PowerUpType>
    decreases powerups.len(),
{
    if powerups.len() == 0 {
        Seq::empty()
    } else {
        let earlier = gathered(t, powerups.drop_last());
        if powerups.last().touches_circle(&t.position, t.size as int) {
            earlier.push(powerups.last().power_type)
        } else {
            earlier
        }
    }
}

/// The pickups that the agent does not overlap, in the order of the set.
pub open spec fn left_lying(t: Tank, powerups: Seq<PowerUp>) -> Seq<PowerUp>
    decreases powerups.len(),
{
    if powerups.len() == 0 {
        Seq::empty()
    } else {
        let earlier = left_lying(t, powerups.drop_last());
        if powerups.last().touches_circle(&t.position, t.size as int) {
            earlier
        } else {
            earlier.push(powerups.last())
        }
    }
}

/// Collects every pickup that the agent overlaps: the pickup leaves the set, and its
/// kind is reported for the caller to apply.
pub fn check_powerup_collisions(tank: &mut Tank, powerups: &mut Vec<PowerUp>) -> (collected: Vec<
    PowerUpType,
>)
    requires
        old(tank).wf(),
        powerups_wf(old(powerups)@),
    ensures
        collected@ == gathered(*old(tank), old(powerups)@),
        final(powerups)@ == left_lying(*old(tank), old(powerups)@),
        *final(tank) == *old(tank),
        powerups_wf(final(powerups)@),
        final(powerups)@.len() <= old(powerups)@.len(),
{
    let mut collected_powerups: Vec<PowerUpType> = Vec::new();
    let mut left: Vec<PowerUp> = Vec::new();
    let mut idx: usize = 0;
    while idx < powerups.len()
        invariant
            0 <= idx <= powerups.len(),
            powerups@ == old(powerups)@,
            *tank == *old(tank),
            tank.wf(),
            powerups_wf(powerups@),
            powerups_wf(left@),
            left@.len() <= idx,
            collected_powerups@ == gathered(*tank, powerups@.take(idx as int)),
            left@ == left_lying(*tank, powerups@.take(idx as int)),
        decreases powerups.len() - idx,
    {
        let mut powerup = powerups[idx];
        proof {
            assert(powerups@.take(idx as int + 1).drop_last() =~= powerups@.take(idx as int));
            assert(powerups@[idx as int].wf());
        }
        if powerup.collides_with_circle(&tank.position, tank.size) {
            powerup.collect();
            collected_powerups.push(powerup.power_type);
        } else {
            left.push(powerup);
        }
        idx += 1;
    }
    proof {
        assert(powerups@.take(idx as int) =~= powerups@);
    }
    *powerups = left;
    collected_powerups
}

/// A property of every projectile of the set holds of every one that strikes nothing.
pub proof fn lemma_unspent_keeps(
    bullets: Seq<Bullet>,
    player: Tank,
    tanks: Seq<Tank>,
    p: spec_fn(Bullet) -> bool,
)
    requires
        forall|i: int| 0 <= i < bullets.len() ==> p(#[trigger] bullets[i]),
    ensures
        forall|i: int|
            0 <= i < unspent(bullets, player, tanks).len() ==> p(
                #[trigger] unspent(bullets, player, tanks)[i],
            ),
    decreases bullets.len(),
{
    if bullets.len() > 0 {
        let earlier = unspent(bullets.drop_last(), player, tanks);
        let all = unspent(bullets, player, tanks);
        assert forall|i: int| 0 <= i < bullets.drop_last().len() implies p(
            #[trigger] bullets.drop_last()[i],
        ) by {
            assert(bullets.drop_last()[i] == bullets[i]);
        }
        lemma_unspent_keeps(bullets.drop_last(), player, tanks, p);
        assert(p(bullets[bullets.len() - 1]));
        assert forall|i: int| 0 <= i < all.len() implies p(#[trigger] all[i]) by {
            if i < earlier.len() {
                assert(all[i] == earlier[i]);
            }
        }
    }
}

/// A property of every projectile of the set holds of every one that overlaps no
/// obstacle.
pub proof fn lemma_flying_on_keeps(
    bullets: Seq<Bullet>,
    obstacles: Seq<Obstacle>,
    p: spec_fn(Bullet) -> bool,
)
    requires
        forall|i: int| 0 <= i < bullets.len() ==> p(#[trigger] bullets[i]),
    ensures
        forall|i: int|
            0 <= i < flying_on(bullets, obstacles).len() ==> p(
                #[trigger] flying_on(bullets, obstacles)[i],
            ),
    decreases bullets.len(),
{
    if bullets.len() > 0 {
        let earlier = flying_on(bullets.drop_last(), obstacles);
        let all = flying_on(bullets, obstacles);
        assert forall|i: int| 0 <= i < bullets.drop_last().len() implies p(
            #[trigger] bullets.drop_last()[i],
        ) by {
            assert(bullets.drop_last()[i] == bullets[i]);
        }
        lemma_flying_on_keeps(bullets.drop_last(), obstacles, p);
        assert(p(bullets[bullets.len() - 1]));
        assert forall|i: int| 0 <= i < all.len() implies p(#[trigger] all[i]) by {
            if i < earlier.len() {
                assert(all[i] == earlier[i]);
            }
        }
    }
}

} // verus!
