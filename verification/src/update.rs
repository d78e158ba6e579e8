//! The executable update step, verified against [`crate::frame::frame_spec`].

use vstd::prelude::*;

use crate::frame::{
    bullets_after_fire, counter_after, fan_child, fan_children, fired_bullet,
    frame_spec, kids_for_mult, kids_for_mults, mark_collided, mark_killed, mark_triggered,
    move_bullets, move_enemies, moved_bullet, moved_enemy, moved_player_x,
    prune_bullets, prune_enemies, spawn_step, spawned_enemy, triggered_by_any, triggers, hover_line,
    bullet_live, enemy_live, collides, killed_by_any, hit_by_any_enemy, frame_kids,
    marked_bullets, mid_bullets, mid_enemies,
};
use crate::game::{
    BULLET_SIZE, ENEMY_MOVE_SPEED, FAN_HALF_STEP, CLAMP_GUARD, ENEMY_SIZE, ENEMY_SPAWN_Y,
    PLAYER_MOVE_STEP, SPAWN_DRAW_RANGE, SPAWN_X_RANGE, ConfigError, dims_ok, dims_error,
    multipliers_ok, initial_model,
    bullet_views, bullet_wf, bullet_wf_moved, enemy_views, enemy_wf, multiplier_views,
    multiplier_wf, App, AppModel, Bullet, BulletModel, Enemy, EnemyModel, Multiplier,
    MultiplierModel, BULLET_SPEED, FIRE_RATE, HALF_PLAYER_SIZE, MAX_DIM, MAX_ENEMIES, PLAYER_SIZE,
    SPAWN_THRESHOLD,
};
use crate::laws::{lemma_frame_preserves_wf, lemma_mid_bullets_wf};

verus! {

/// A bullet with its mark possibly raised; positions never change after the
/// move step, so every later step produces bullets of this shape.
pub open spec fn with_hit(b: BulletModel, extra: bool) -> BulletModel {
    BulletModel { hit: b.hit || extra, ..b }
}

/// An enemy with its mark possibly raised.
pub open spec fn with_killed(e: EnemyModel, extra: bool) -> EnemyModel {
    EnemyModel { killed: e.killed || extra, ..e }
}

/// Step three of a frame: every bullet climbs one bullet-speed and is marked
/// once it reaches the top edge.
pub(crate) fn step_move_bullets(bullets: &mut Vec<Bullet>)
    requires
        forall|j: int|
            0 <= j < old(bullets)@.len() ==> -(BULLET_SPEED as int) <= (#[trigger] old(
                bullets,
            )@[j])@.y <= MAX_DIM as int,
    ensures
        bullet_views(final(bullets)@) == move_bullets(bullet_views(old(bullets)@)),
{
    let ghost orig = old(bullets)@;
    let n = bullets.len();
    let mut j: usize = 0;
    while j < n
        invariant
            j <= n,
            n == orig.len(),
            bullets@.len() == n,
            forall|k: int|
                0 <= k < orig.len() ==> -(BULLET_SPEED as int) <= (#[trigger] orig[k])@.y
                    <= MAX_DIM as int,
            forall|k: int| 0 <= k < j ==> (#[trigger] bullets@[k])@ == moved_bullet(orig[k]@),
            forall|k: int| j <= k < n ==> #[trigger] bullets@[k] == orig[k],
        decreases n - j,
    {
        let y = bullets[j].y_pos - BULLET_SPEED;
        let b = Bullet {
            x_pos: bullets[j].x_pos,
            y_pos: y,
            size: bullets[j].size,
            hit: bullets[j].hit || y <= 0,
        };
        bullets[j] = b;
        j += 1;
    }
    proof {
        assert(bullet_views(bullets@) =~= move_bullets(bullet_views(orig)));
    }
}

/// Step seven of a frame, for bullets: drop everything marked.
pub(crate) fn step_prune_bullets(bullets: &mut Vec<Bullet>)
    ensures
        bullet_views(final(bullets)@) == prune_bullets(bullet_views(old(bullets)@)),
{
    let ghost s = bullet_views(old(bullets)@);
    let n = bullets.len();
    let mut out: Vec<Bullet> = Vec::new();
    let mut j: usize = 0;
    while j < n
        invariant
            j <= n,
            n == s.len(),
            bullets@.len() == n,
            bullet_views(bullets@) == s,
            bullet_views(out@) == prune_bullets(s.take(j as int)),
        decreases n - j,
    {
        let keep = !bullets[j].hit;
        let ghost prev = out@;
        if keep {
            let b = Bullet {
                x_pos: bullets[j].x_pos,
                y_pos: bullets[j].y_pos,
                size: bullets[j].size,
                hit: bullets[j].hit,
            };
            out.push(b);
        }
        proof {
            lemma_prune_bullets_take_succ(s, j as int);
            assert(s.index(j as int) == bullets@[j as int]@);
            if keep {
                assert(bullet_views(out@) =~= bullet_views(prev).push(bullets@[j as int]@));
            }
        }
        j += 1;
    }
    proof {
        assert(s.take(n as int) =~= s);
    }
    *bullets = out;
}

/// Step seven of a frame, for enemies: drop everything marked.
pub(crate) fn step_prune_enemies(enemies: &mut Vec<Enemy>)
    ensures
        enemy_views(final(enemies)@) == prune_enemies(enemy_views(old(enemies)@)),
{
    let ghost s = enemy_views(old(enemies)@);
    let n = enemies.len();
    let mut out: Vec<Enemy> = Vec::new();
    let mut j: usize = 0;
    while j < n
        invariant
            j <= n,
            n == s.len(),
            enemies@.len() == n,
            enemy_views(enemies@) == s,
            enemy_views(out@) == prune_enemies(s.take(j as int)),
        decreases n - j,
    {
        let keep = !enemies[j].killed;
        let ghost prev = out@;
        if keep {
            let e = Enemy {
                x_pos: enemies[j].x_pos,
                y_pos: enemies[j].y_pos,
                size: enemies[j].size,
                killed: enemies[j].killed,
            };
            out.push(e);
        }
        proof {
            lemma_prune_enemies_take_succ(s, j as int);
            assert(s.index(j as int) == enemies@[j as int]@);
            if keep {
                assert(enemy_views(out@) =~= enemy_views(prev).push(enemies@[j as int]@));
            }
        }
        j += 1;
    }
    proof {
        assert(s.take(n as int) =~= s);
    }
    *enemies = out;
}

/// Pruning one more bullet keeps it exactly when it is live.
pub proof fn lemma_prune_bullets_take_succ(s: Seq<BulletModel>, j: int)
    requires
        0 <= j < s.len(),
    ensures
        prune_bullets(s.take(j + 1)) == if bullet_live(s[j]) {
            prune_bullets(s.take(j)).push(s[j])
        } else {
            prune_bullets(s.take(j))
        },
{
    reveal(Seq::filter);
    let t = s.take(j + 1);
    assert(t.drop_last() =~= s.take(j));
    assert(t.last() == s[j]);
}

/// A bullet well-formed after the move step stays far from the `i64` edges.
pub proof fn lemma_bullet_moved_coarse(b: BulletModel)
    requires
        bullet_wf_moved(b),
    ensures
        -(100 * MAX_DIM as int) <= b.x <= MAX_DIM as int + 100000,
{
    assert((BULLET_SPEED as int) * b.x >= -16065 * (MAX_DIM as int + 720));
    assert(-16065 * (MAX_DIM as int + 720) >= (BULLET_SPEED as int) * (-(100 * MAX_DIM as int)));
}

/// Extending the multiplier prefix by one line triggers a bullet exactly when
/// the prefix did or the new line does.
pub proof fn lemma_triggered_take_succ(b: BulletModel, ms: Seq<MultiplierModel>, w: int, k: int)
    requires
        0 <= k < ms.len(),
    ensures
        triggered_by_any(b, ms.take(k + 1), w) == (triggered_by_any(b, ms.take(k), w) || triggers(
            ms[k],
            b,
            w,
        )),
{
    if triggered_by_any(b, ms.take(k + 1), w) {
        let i = choose|i: int| 0 <= i < k + 1 && triggers(#[trigger] ms.take(k + 1)[i], b, w);
        if i < k {
            assert(triggers(ms.take(k)[i], b, w));
        } else {
            assert(triggers(ms[k], b, w));
        }
    }
    if triggered_by_any(b, ms.take(k), w) {
        let i = choose|i: int| 0 <= i < k && triggers(#[trigger] ms.take(k)[i], b, w);
        assert(triggers(ms.take(k + 1)[i], b, w));
    }
    if triggers(ms[k], b, w) {
        assert(triggers(ms.take(k + 1)[k], b, w));
    }
}

/// One more bullet contributes its fan to a multiplier's children exactly
/// when the line triggers on it.
pub proof fn lemma_kids_mult_take_succ(m: MultiplierModel, bs: Seq<BulletModel>, w: int, j: int)
    requires
        0 <= j < bs.len(),
    ensures
        kids_for_mult(m, bs.take(j + 1), w) == kids_for_mult(m, bs.take(j), w) + (if triggers(
            m,
            bs[j],
            w,
        ) {
            fan_children(bs[j], m.fan)
        } else {
            Seq::<BulletModel>::empty()
        }),
{
    let t = bs.take(j + 1);
    assert(t.drop_last() =~= bs.take(j));
    assert(t.last() == bs[j]);
}

/// One more multiplier appends its children after those of the lines before
/// it.
pub proof fn lemma_kids_mults_take_succ(
    ms: Seq<MultiplierModel>,
    bs: Seq<BulletModel>,
    w: int,
    k: int,
)
    requires
        0 <= k < ms.len(),
    ensures
        kids_for_mults(ms.take(k + 1), bs, w) == kids_for_mults(ms.take(k), bs, w) + kids_for_mult(
            ms[k],
            bs,
            w,
        ),
{
    let t = ms.take(k + 1);
    assert(t.drop_last() =~= ms.take(k));
    assert(t.last() == ms[k]);
}

/// Step four of a frame: every (multiplier, bullet) pair where the line
/// triggers marks the bullet and spawns the line's fan. The children are
/// returned separately; they join the live set only after the collision step.
pub(crate) fn step_apply_multipliers(
    bullets: &mut Vec<Bullet>,
    multipliers: &Vec<Multiplier>,
    w: i64,
) -> (kids: Vec<Bullet>)
    requires
        PLAYER_SIZE as int <= w as int <= MAX_DIM as int,
        forall|j: int|
            0 <= j < old(bullets)@.len() ==> bullet_wf_moved((#[trigger] old(bullets)@[j])@),
        forall|k: int|
            0 <= k < multipliers@.len() ==> multiplier_wf((#[trigger] multipliers@[k])@),
    ensures
        bullet_views(final(bullets)@) == mark_triggered(
            bullet_views(old(bullets)@),
            multiplier_views(multipliers@),
            w as int,
        ),
        bullet_views(kids@) == kids_for_mults(
            multiplier_views(multipliers@),
            bullet_views(old(bullets)@),
            w as int,
        ),
{
    let ghost bs0 = bullet_views(old(bullets)@);
    let ghost ms = multiplier_views(multipliers@);
    let mut kids: Vec<Bullet> = Vec::new();
    let n_m = multipliers.len();
    let n_b = bullets.len();
    let mut k: usize = 0;
    while k < n_m
        invariant
            k <= n_m,
            n_m == ms.len(),
            n_b == bs0.len(),
            bullets@.len() == n_b,
            multiplier_views(multipliers@) == ms,
            PLAYER_SIZE as int <= w as int <= MAX_DIM as int,
            forall|j: int| 0 <= j < n_b ==> bullet_wf_moved(#[trigger] bs0[j]),
            forall|kk: int| 0 <= kk < n_m ==> multiplier_wf(#[trigger] ms[kk]),
            forall|j: int|
                0 <= j < n_b ==> (#[trigger] bullets@[j])@ == with_hit(
                    bs0[j],
                    triggered_by_any(bs0[j], ms.take(k as int), w as int),
                ),
            bullet_views(kids@) == kids_for_mults(ms.take(k as int), bs0, w as int),
        decreases n_m - k,
    {
        let my = multipliers[k].y_pos;
        let fan = multipliers[k].multiplier;
        let mut j: usize = 0;
        while j < n_b
            invariant
                j <= n_b,
                k < n_m,
                n_m == ms.len(),
                n_b == bs0.len(),
                bullets@.len() == n_b,
                multiplier_views(multipliers@) == ms,
                PLAYER_SIZE as int <= w as int <= MAX_DIM as int,
                my as int == ms[k as int].y,
                fan as int == ms[k as int].fan,
                forall|jj: int| 0 <= jj < n_b ==> bullet_wf_moved(#[trigger] bs0[jj]),
                forall|kk: int| 0 <= kk < n_m ==> multiplier_wf(#[trigger] ms[kk]),
                forall|jj: int|
                    0 <= jj < j ==> (#[trigger] bullets@[jj])@ == with_hit(
                        bs0[jj],
                        triggered_by_any(bs0[jj], ms.take(k as int + 1), w as int),
                    ),
                forall|jj: int|
                    j <= jj < n_b ==> (#[trigger] bullets@[jj])@ == with_hit(
                        bs0[jj],
                        triggered_by_any(bs0[jj], ms.take(k as int), w as int),
                    ),
                bullet_views(kids@) == kids_for_mults(ms.take(k as int), bs0, w as int)
                    + kids_for_mult(ms[k as int], bs0.take(j as int), w as int),
            decreases n_b - j,
        {
            proof {
                lemma_bullet_moved_coarse(bs0[j as int]);
                assert(bullets@[j as int]@ == with_hit(
                    bs0[j as int],
                    triggered_by_any(bs0[j as int], ms.take(k as int), w as int),
                ));
            }
            let bx = bullets[j].x_pos;
            let by = bullets[j].y_pos;
            let dyv = my - by;
            let trig = (2 * bx < w) && (0 <= dyv) && (dyv < BULLET_SPEED);
            proof {
                assert(trig == triggers(ms[k as int], bs0[j as int], w as int));
                lemma_kids_mult_take_succ(ms[k as int], bs0, w as int, j as int);
                lemma_triggered_take_succ(bs0[j as int], ms, w as int, k as int);
            }
            if trig {
                let marked = Bullet { x_pos: bx, y_pos: by, size: bullets[j].size, hit: true };
                bullets[j] = marked;
                let ghost base = bullet_views(kids@);
                let ghost parent = bs0[j as int];
                let ghost fan_i = fan as int;
                let mut i: u8 = 0;
                while i < fan
                    invariant
                        i <= fan,
                        fan_i == fan as int,
                        parent.x == bx as int,
                        parent.y == by as int,
                        -(100 * MAX_DIM as int) <= bx as int <= MAX_DIM as int + 100000,
                        bullet_views(kids@) == base + fan_children(parent, fan_i).take(i as int),
                    decreases fan - i,
                {
                    let off = (2 * (i as i64) - (fan as i64)) * FAN_HALF_STEP;
                    let ghost before = bullet_views(kids@);
                    kids.push(Bullet { x_pos: bx + off, y_pos: by, size: BULLET_SIZE, hit: false });
                    proof {
                        assert(fan_children(parent, fan_i).take(i as int + 1) =~= fan_children(
                            parent,
                            fan_i,
                        ).take(i as int).push(fan_child(parent, fan_i, i as int)));
                        assert(bullet_views(kids@) =~= before.push(fan_child(parent, fan_i, i as int)));
                        assert(bullet_views(kids@) =~= base + fan_children(parent, fan_i).take(
                            i as int + 1,
                        ));
                    }
                    i += 1;
                }
                proof {
                    assert(fan_children(parent, fan_i).take(fan_i) =~= fan_children(parent, fan_i));
                }
            }
            proof {
                assert(bullet_views(kids@) == kids_for_mults(ms.take(k as int), bs0, w as int)
                    + kids_for_mult(ms[k as int], bs0.take(j as int + 1), w as int));
            }
            j += 1;
        }
        proof {
            assert(bs0.take(n_b as int) =~= bs0);
            lemma_kids_mults_take_succ(ms, bs0, w as int, k as int);
        }
        k += 1;
    }
    proof {
        assert(ms.take(n_m as int) =~= ms);
        assert(bullet_views(bullets@) =~= mark_triggered(bs0, ms, w as int));
    }
    kids
}

/// Extending the bullet prefix by one kills an enemy exactly when the prefix
/// did or the new bullet does.
pub proof fn lemma_killed_take_succ(e: EnemyModel, bs: Seq<BulletModel>, j: int)
    requires
        0 <= j < bs.len(),
    ensures
        killed_by_any(e, bs.take(j + 1)) == (killed_by_any(e, bs.take(j)) || collides(e, bs[j])),
{
    if killed_by_any(e, bs.take(j + 1)) {
        let i = choose|i: int| 0 <= i < j + 1 && collides(e, #[trigger] bs.take(j + 1)[i]);
        if i < j {
            assert(collides(e, bs.take(j)[i]));
        } else {
            assert(collides(e, bs[j]));
        }
    }
    if killed_by_any(e, bs.take(j)) {
        let i = choose|i: int| 0 <= i < j && collides(e, #[trigger] bs.take(j)[i]);
        assert(collides(e, bs.take(j + 1)[i]));
    }
    if collides(e, bs[j]) {
        assert(collides(e, bs.take(j + 1)[j]));
    }
}

/// Extending the enemy prefix by one hits a bullet exactly when the moved
/// prefix did or the newly moved enemy does.
pub proof fn lemma_hit_enemy_take_succ(b: BulletModel, es: Seq<EnemyModel>, h: int, i: int)
    requires
        0 <= i < es.len(),
    ensures
        hit_by_any_enemy(b, move_enemies(es.take(i + 1), h)) == (hit_by_any_enemy(
            b,
            move_enemies(es.take(i), h),
        ) || collides(moved_enemy(es[i], h), b)),
{
    let prefix = move_enemies(es.take(i), h);
    let full = move_enemies(es.take(i + 1), h);
    assert(full =~= prefix.push(moved_enemy(es[i], h)));
    if hit_by_any_enemy(b, full) {
        let k = choose|k: int| 0 <= k < full.len() && collides(#[trigger] full[k], b);
        if k < i {
            assert(collides(prefix[k], b));
        } else {
            assert(collides(moved_enemy(es[i], h), b));
        }
    }
    if hit_by_any_enemy(b, prefix) {
        let k = choose|k: int| 0 <= k < prefix.len() && collides(#[trigger] prefix[k], b);
        assert(collides(full[k], b));
    }
    if collides(moved_enemy(es[i], h), b) {
        assert(collides(full[i], b));
    }
}

/// Step five of a frame: every enemy drifts down to the hover line at most,
/// then every (enemy, bullet) pair that collides marks both. One bullet may
/// kill several enemies; an already-marked bullet still kills.
pub(crate) fn step_move_and_collide(enemies: &mut Vec<Enemy>, bullets: &mut Vec<Bullet>, h: i64)
    requires
        1 <= h as int <= MAX_DIM as int,
        forall|i: int| 0 <= i < old(enemies)@.len() ==> enemy_wf((#[trigger] old(enemies)@[i])@),
        forall|j: int|
            0 <= j < old(bullets)@.len() ==> bullet_wf_moved((#[trigger] old(bullets)@[j])@),
    ensures
        enemy_views(final(enemies)@) == mark_killed(
            move_enemies(enemy_views(old(enemies)@), h as int),
            bullet_views(old(bullets)@),
        ),
        bullet_views(final(bullets)@) == mark_collided(
            bullet_views(old(bullets)@),
            move_enemies(enemy_views(old(enemies)@), h as int),
        ),
{
    let ghost orig_e = old(enemies)@;
    let ghost es0 = enemy_views(old(enemies)@);
    let ghost bs = bullet_views(old(bullets)@);
    let ghost esm = move_enemies(es0, h as int);
    let line = ((9u64 * (h as u64)) / 10) as i64;
    proof {
        assert(line as int == hover_line(h as int));
    }
    let n_e = enemies.len();
    let n_b = bullets.len();
    let mut i: usize = 0;
    while i < n_e
        invariant
            i <= n_e,
            n_e == es0.len(),
            n_b == bs.len(),
            n_e == orig_e.len(),
            enemies@.len() == n_e,
            bullets@.len() == n_b,
            es0 == enemy_views(orig_e),
            esm == move_enemies(es0, h as int),
            line as int == hover_line(h as int),
            1 <= h as int <= MAX_DIM as int,
            forall|ii: int| 0 <= ii < n_e ==> enemy_wf(#[trigger] es0[ii]),
            forall|j: int| 0 <= j < n_b ==> bullet_wf_moved(#[trigger] bs[j]),
            forall|ii: int|
                0 <= ii < i ==> (#[trigger] enemies@[ii])@ == with_killed(
                    esm[ii],
                    killed_by_any(esm[ii], bs),
                ),
            forall|ii: int| i <= ii < n_e ==> #[trigger] enemies@[ii] == orig_e[ii],
            forall|j: int|
                0 <= j < n_b ==> (#[trigger] bullets@[j])@ == with_hit(
                    bs[j],
                    hit_by_any_enemy(bs[j], move_enemies(es0.take(i as int), h as int)),
                ),
        decreases n_e - i,
    {
        proof {
            assert(esm.len() == n_e);
            assert(es0[i as int] == orig_e[i as int]@);
            assert(enemy_wf(es0[i as int]));
        }
        let ey0 = enemies[i].y_pos + ENEMY_MOVE_SPEED;
        let ey = if ey0 >= line { line } else { ey0 };
        let ex = enemies[i].x_pos;
        let esz = enemies[i].size;
        let ghost em = moved_enemy(es0[i as int], h as int);
        proof {
            assert(ex as int == em.x && ey as int == em.y && esz as int == em.size);
        }
        let mut any = enemies[i].killed;
        let mut j: usize = 0;
        while j < n_b
            invariant
                j <= n_b,
                i < n_e,
                n_e == es0.len(),
                n_b == bs.len(),
                n_e == orig_e.len(),
                enemies@.len() == n_e,
                bullets@.len() == n_b,
                1 <= h as int <= MAX_DIM as int,
                em == moved_enemy(es0[i as int], h as int),
                ex as int == em.x,
                ey as int == em.y,
                esz as int == em.size,
                forall|ii: int| 0 <= ii < n_e ==> enemy_wf(#[trigger] es0[ii]),
                forall|jj: int| 0 <= jj < n_b ==> bullet_wf_moved(#[trigger] bs[jj]),
                forall|ii: int| i <= ii < n_e ==> #[trigger] enemies@[ii] == orig_e[ii],
                forall|ii: int|
                    0 <= ii < i ==> (#[trigger] enemies@[ii])@ == with_killed(
                        esm[ii],
                        killed_by_any(esm[ii], bs),
                    ),
                any == (es0[i as int].killed || killed_by_any(em, bs.take(j as int))),
                forall|jj: int|
                    0 <= jj < j ==> (#[trigger] bullets@[jj])@ == with_hit(
                        bs[jj],
                        hit_by_any_enemy(bs[jj], move_enemies(es0.take(i as int), h as int))
                            || collides(em, bs[jj]),
                    ),
                forall|jj: int|
                    j <= jj < n_b ==> (#[trigger] bullets@[jj])@ == with_hit(
                        bs[jj],
                        hit_by_any_enemy(bs[jj], move_enemies(es0.take(i as int), h as int)),
                    ),
            decreases n_b - j,
        {
            let bx = bullets[j].x_pos;
            let by = bullets[j].y_pos;
            let bsz = bullets[j].size;
            proof {
                lemma_bullet_moved_coarse(bs[j as int]);
            }
            let dxv = ex - bx;
            let ad = if dxv >= 0 { dxv } else { -dxv };
            let c = (2 * ad < esz + bsz) && (ey > by);
            proof {
                assert(c == collides(em, bs[j as int]));
                lemma_killed_take_succ(em, bs, j as int);
            }
            if c {
                any = true;
                bullets[j] = Bullet { x_pos: bx, y_pos: by, size: bsz, hit: true };
            }
            j += 1;
        }
        proof {
            assert(bs.take(n_b as int) =~= bs);
        }
        enemies[i] = Enemy { x_pos: ex, y_pos: ey, size: esz, killed: any };
        proof {
            assert forall|jj: int| 0 <= jj < n_b implies (#[trigger] bullets@[jj])@ == with_hit(
                bs[jj],
                hit_by_any_enemy(bs[jj], move_enemies(es0.take(i as int + 1), h as int)),
            ) by {
                lemma_hit_enemy_take_succ(bs[jj], es0, h as int, i as int);
            }
        }
        i += 1;
    }
    proof {
        assert(es0.take(n_e as int) =~= es0);
        assert(enemy_views(enemies@) =~= mark_killed(esm, bs));
        assert(bullet_views(bullets@) =~= mark_collided(bs, esm));
    }
}

/// Pruning one more enemy keeps it exactly when it is live.
pub proof fn lemma_prune_enemies_take_succ(s: Seq<EnemyModel>, j: int)
    requires
        0 <= j < s.len(),
    ensures
        prune_enemies(s.take(j + 1)) == if enemy_live(s[j]) {
            prune_enemies(s.take(j)).push(s[j])
        } else {
            prune_enemies(s.take(j))
        },
{
    reveal(Seq::filter);
    let t = s.take(j + 1);
    assert(t.drop_last() =~= s.take(j));
    assert(t.last() == s[j]);
}

/// Relies on rand's `thread_rng` and `Rng::gen_range`: a draw from the
/// non-empty range `0..bound` lies strictly below `bound`, and the call does
/// not panic on a non-empty range. Nothing more is assumed of the value.
#[verifier::external_body]
fn random_below(bound: u64) -> (r: u64)
    requires
        bound > 0,
    ensures
        r < bound,
{
    rand::Rng::gen_range(&mut rand::thread_rng(), 0..bound)
}

impl App {
    /// Build a fresh simulation over a `window_width` by `window_height`
    /// field with the given multiplier lines. Misconfigured dimensions and
    /// out-of-field lines are rejected; nothing after construction can fail.
    pub fn new(
        window_width: i64,
        window_height: i64,
        num_columns: u8,
        multipliers: Vec<Multiplier>,
    ) -> (r: Result<App, ConfigError>)
        ensures
            r.is_ok() <==> (dims_ok(window_width as int, window_height as int) && multipliers_ok(
                multiplier_views(multipliers@),
                window_height as int,
            )),
            r matches Ok(app) ==> app@ == initial_model(
                window_width as int,
                window_height as int,
                num_columns as int,
                multiplier_views(multipliers@),
            ) && app@.wf(),
            r matches Err(e) ==> e == (if !dims_ok(window_width as int, window_height as int) {
                dims_error(window_width as int, window_height as int)
            } else {
                ConfigError::MultiplierOutOfField
            }),
    {
        if window_width < PLAYER_SIZE {
            return Err(ConfigError::WidthTooSmall);
        }
        if window_width > MAX_DIM {
            return Err(ConfigError::WidthTooLarge);
        }
        if window_height < 1 {
            return Err(ConfigError::HeightNotPositive);
        }
        if window_height > MAX_DIM {
            return Err(ConfigError::HeightTooLarge);
        }
        let ghost ms = multiplier_views(multipliers@);
        let n = multipliers.len();
        let mut k: usize = 0;
        while k < n
            invariant
                k <= n,
                n == multipliers@.len(),
                ms == multiplier_views(multipliers@),
                dims_ok(window_width as int, window_height as int),
                forall|kk: int| 0 <= kk < k ==> 0 <= (#[trigger] ms[kk]).y <= window_height as int,
            decreases n - k,
        {
            let y = multipliers[k].y_pos;
            if y < 0 || y > window_height {
                proof {
                    assert(!(0 <= ms[k as int].y <= window_height as int));
                }
                return Err(ConfigError::MultiplierOutOfField);
            }
            k += 1;
        }
        let px = ((window_width as u64) / 2) as i64;
        let py = ((5u64 * (window_height as u64)) / 6) as i64;
        let app = App {
            num_columns,
            player_x: px,
            player_y: py,
            window_width,
            window_height,
            left_down: false,
            right_down: false,
            fire_counter: 0,
            bullets: Vec::new(),
            enemies: Vec::new(),
            multipliers,
        };
        proof {
            assert(app@ =~= initial_model(
                window_width as int,
                window_height as int,
                num_columns as int,
                ms,
            ));
            assert forall|kk: int| 0 <= kk < ms.len() implies multiplier_wf(#[trigger] ms[kk]) by {
                assert(ms[kk] == app.multipliers@[kk]@);
            }
        }
        Ok(app)
    }

    /// The display area changed: adopt the new dimensions and re-seat the
    /// player's vertical position at five sixths of the new height. Rejected
    /// dimensions leave the state untouched.
    pub fn set_window_size(&mut self, new_width: i64, new_height: i64) -> (r: Result<
        (),
        ConfigError,
    >)
        ensures
            r.is_ok() <==> dims_ok(new_width as int, new_height as int),
            r.is_ok() ==> final(self)@ == (AppModel {
                window_width: new_width as int,
                window_height: new_height as int,
                player_y: 5 * new_height as int / 6,
                ..old(self)@
            }),
            r matches Err(e) ==> final(self)@ == old(self)@ && e == dims_error(
                new_width as int,
                new_height as int,
            ),
            old(self)@.wf() && r.is_ok() ==> final(self)@.wf(),
    {
        if new_width < PLAYER_SIZE {
            return Err(ConfigError::WidthTooSmall);
        }
        if new_width > MAX_DIM {
            return Err(ConfigError::WidthTooLarge);
        }
        if new_height < 1 {
            return Err(ConfigError::HeightNotPositive);
        }
        if new_height > MAX_DIM {
            return Err(ConfigError::HeightTooLarge);
        }
        self.window_width = new_width;
        self.window_height = new_height;
        self.player_y = ((5u64 * (new_height as u64)) / 6) as i64;
        Ok(())
    }

    /// Spawn one bullet at the player, half a player-height above its
    /// vertical position.
    pub fn fire(&mut self)
        requires
            -(MAX_DIM as int) <= old(self)@.player_y,
        ensures
            final(self)@ == (AppModel {
                bullets: old(self)@.bullets.push(
                    fired_bullet(old(self)@.player_x, old(self)@.player_y),
                ),
                ..old(self)@
            }),
    {
        let b = Bullet {
            x_pos: self.player_x,
            y_pos: self.player_y - HALF_PLAYER_SIZE,
            size: BULLET_SIZE,
            hit: false,
        };
        self.bullets.push(b);
        proof {
            assert(bullet_views(self.bullets@) =~= old(self)@.bullets.push(
                fired_bullet(old(self)@.player_x, old(self)@.player_y),
            ));
            assert(self@ =~= (AppModel {
                bullets: old(self)@.bullets.push(
                    fired_bullet(old(self)@.player_x, old(self)@.player_y),
                ),
                ..old(self)@
            }));
        }
    }

    /// One tick of the simulation, with the two random draws of the spawn
    /// policy passed in: a deterministic transition, equal to `frame_spec` on
    /// the previous state. Substituting a fixed source for the draws makes
    /// spawning reproducible.
    pub fn advance_frame_with_draws(&mut self, d_spawn: u64, d_x: u64)
        requires
            old(self)@.wf(),
            d_spawn < SPAWN_DRAW_RANGE,
            d_x < SPAWN_X_RANGE,
        ensures
            final(self)@ == frame_spec(old(self)@, d_spawn as int, d_x as int),
            final(self)@.wf(),
            HALF_PLAYER_SIZE as int <= final(self)@.player_x <= old(self)@.window_width
                - HALF_PLAYER_SIZE as int,
            final(self)@.enemies.len() <= MAX_ENEMIES as int,
    {
        let ghost s0 = self@;
        // Step one: player movement, clamped into the field.
        let mut dx: i64 = 0;
        if self.left_down {
            dx = dx - PLAYER_MOVE_STEP;
        }
        if self.right_down {
            dx = dx + PLAYER_MOVE_STEP;
        }
        let x0 = self.player_x;
        let stepped: i64 = if x0 < -CLAMP_GUARD {
            -CLAMP_GUARD + dx
        } else if x0 > CLAMP_GUARD {
            CLAMP_GUARD + dx
        } else {
            x0 + dx
        };
        let mut px = stepped;
        if px < HALF_PLAYER_SIZE {
            px = HALF_PLAYER_SIZE;
        }
        if px > self.window_width - HALF_PLAYER_SIZE {
            px = self.window_width - HALF_PLAYER_SIZE;
        }
        self.player_x = px;
        proof {
            assert(px as int == moved_player_x(s0));
        }
        // Step two: fire cadence.
        let c = self.fire_counter + 1;
        if c >= FIRE_RATE {
            self.fire();
            self.fire_counter = 0;
        } else {
            self.fire_counter = c;
        }
        proof {
            assert(self@.fire_counter == counter_after(s0.fire_counter));
            assert(bullet_views(self.bullets@) =~= bullets_after_fire(s0, moved_player_x(s0)));
        }
        // Step three: bullets advance.
        proof {
            assert forall|j: int|
                0 <= j < self.bullets@.len() implies -(BULLET_SPEED as int) <= (
            #[trigger] self.bullets@[j])@.y <= MAX_DIM as int by {
                assert(self.bullets@[j]@ == bullets_after_fire(s0, moved_player_x(s0))[j]);
                if j < s0.bullets.len() {
                    assert(bullet_wf(s0.bullets[j]));
                }
            }
        }
        step_move_bullets(&mut self.bullets);
        proof {
            assert(bullet_views(self.bullets@) == mid_bullets(s0));
            lemma_mid_bullets_wf(s0);
            assert forall|j: int|
                0 <= j < self.bullets@.len() implies bullet_wf_moved(
                (#[trigger] self.bullets@[j])@,
            ) by {
                assert(self.bullets@[j]@ == mid_bullets(s0)[j]);
            }
            assert forall|k: int|
                0 <= k < self.multipliers@.len() implies multiplier_wf(
                (#[trigger] self.multipliers@[k])@,
            ) by {
                assert(self.multipliers@[k]@ == s0.multipliers[k]);
            }
        }
        // Step four: multiplier splitting.
        let mut kids = step_apply_multipliers(&mut self.bullets, &self.multipliers, self.window_width);
        proof {
            assert(bullet_views(self.bullets@) == marked_bullets(s0));
            assert(bullet_views(kids@) == frame_kids(s0));
            assert forall|j: int|
                0 <= j < self.bullets@.len() implies bullet_wf_moved(
                (#[trigger] self.bullets@[j])@,
            ) by {
                assert(self.bullets@[j]@ == marked_bullets(s0)[j]);
                assert(mid_bullets(s0)[j].x == marked_bullets(s0)[j].x);
                assert(bullet_wf_moved(mid_bullets(s0)[j]));
            }
            assert forall|i: int|
                0 <= i < self.enemies@.len() implies enemy_wf((#[trigger] self.enemies@[i])@) by {
                assert(self.enemies@[i]@ == s0.enemies[i]);
            }
        }
        // Step five: enemies advance and collisions resolve; the fan children
        // sit out this frame's checks and join only now.
        step_move_and_collide(&mut self.enemies, &mut self.bullets, self.window_height);
        let ghost bs_c = bullet_views(self.bullets@);
        self.bullets.append(&mut kids);
        proof {
            assert(bs_c == mark_collided(marked_bullets(s0), mid_enemies(s0)));
            assert(enemy_views(self.enemies@) == mark_killed(mid_enemies(s0), marked_bullets(s0)));
            assert(bullet_views(self.bullets@) =~= bs_c + frame_kids(s0));
        }
        // Step six: the spawn policy.
        let ghost es_k = enemy_views(self.enemies@);
        if self.enemies.len() < MAX_ENEMIES && d_spawn < SPAWN_THRESHOLD {
            let hw = (self.window_width as u64) / 2;
            let t: u64 = 1000 + d_x;
            proof {
                assert(hw <= 500_000_000);
                assert(t <= 8999);
                assert((t as int) * (hw as int) <= 8999 * 500_000_000) by (nonlinear_arith)
                    requires
                        0 <= t as int <= 8999,
                        0 <= hw as int <= 500_000_000,
                ;
            }
            let ex = (t * hw) / 10000;
            self.enemies.push(
                Enemy { x_pos: ex as i64, y_pos: ENEMY_SPAWN_Y, size: ENEMY_SIZE, killed: false },
            );
            proof {
                assert(hw <= 500_000_000);
                assert((ex as i64) as int == spawned_enemy(d_x as int, s0.window_width).x);
                assert(enemy_views(self.enemies@) =~= es_k.push(
                    spawned_enemy(d_x as int, s0.window_width),
                ));
            }
        }
        proof {
            assert(enemy_views(self.enemies@) == spawn_step(
                es_k,
                d_spawn as int,
                d_x as int,
                s0.window_width,
            ));
        }
        // Step seven: pruning.
        step_prune_bullets(&mut self.bullets);
        step_prune_enemies(&mut self.enemies);
        proof {
            lemma_frame_preserves_wf(s0, d_spawn as int, d_x as int);
            assert(self@ =~= frame_spec(s0, d_spawn as int, d_x as int));
        }
    }

    /// One tick of the simulation, drawing the spawn policy's randomness from
    /// the thread-local generator: some admissible pair of draws decides the
    /// spawn, and everything else is the deterministic frame transition.
    pub fn advance_frame(&mut self)
        requires
            old(self)@.wf(),
        ensures
            exists|d_spawn: int, d_x: int|
                0 <= d_spawn < SPAWN_DRAW_RANGE as int && 0 <= d_x < SPAWN_X_RANGE as int
                    && final(self)@ == frame_spec(old(self)@, d_spawn, d_x),
            final(self)@.wf(),
            HALF_PLAYER_SIZE as int <= final(self)@.player_x <= old(self)@.window_width
                - HALF_PLAYER_SIZE as int,
            final(self)@.enemies.len() <= MAX_ENEMIES as int,
    {
        let d_spawn = random_below(SPAWN_DRAW_RANGE);
        let d_x = random_below(SPAWN_X_RANGE);
        self.advance_frame_with_draws(d_spawn, d_x);
        proof {
            assert(0 <= (d_spawn as int) < (SPAWN_DRAW_RANGE as int));
            assert(0 <= (d_x as int) < (SPAWN_X_RANGE as int));
            assert(self@ == frame_spec(old(self)@, d_spawn as int, d_x as int));
        }
    }
}

} // verus!
