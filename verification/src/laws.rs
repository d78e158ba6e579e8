//! General properties of the frame transition, stated and proved over
//! [`crate::frame::frame_spec`]: preservation of well-formedness, the player
//! bounds invariant, the enemy cap, the fire cadence, the fan-out pattern,
//! collision removal, and quiescence of an empty state.

use vstd::prelude::*;

use crate::frame::{
    bullet_live, bullets_after_fire, collides, fan_child,
    fan_children, fan_offset, fired_bullet, fires, frame_kids, frame_spec, hit_by_any_enemy,
    hover_line, kids_for_mult, kids_for_mults, killed_by_any, mark_collided, mark_killed,
    mid_bullets, mid_enemies, marked_bullets,
    moved_bullet, moved_enemy, moved_player_x, prune_bullets, prune_enemies,
    spawn_step, spawned_enemy, triggered_by_any, triggers, enemy_live,
};
use crate::game::{
    bullet_wf, bullet_wf_moved, enemy_wf, multiplier_wf, AppModel, BulletModel, EnemyModel,
    MultiplierModel, BULLET_SPEED, FAN_DRIFT, FIRE_RATE, HALF_PLAYER_SIZE, MAX_DIM, MAX_ENEMIES,
    PLAYER_SIZE, SPAWN_THRESHOLD, SPAWN_X_RANGE,
};

verus! {

/// Pruning never lengthens the enemy list.
pub proof fn lemma_prune_enemies_len(es: Seq<EnemyModel>)
    ensures
        prune_enemies(es).len() <= es.len(),
    decreases es.len(),
{
    reveal(Seq::filter);
    if es.len() > 0 {
        lemma_prune_enemies_len(es.drop_last());
    }
}

/// Every bullet that survives pruning is live and stood in the unpruned list.
pub proof fn lemma_prune_bullets_origin(bs: Seq<BulletModel>, i: int)
    requires
        0 <= i < prune_bullets(bs).len(),
    ensures
        bullet_live(prune_bullets(bs)[i]),
        exists|j: int| 0 <= j < bs.len() && prune_bullets(bs)[i] == bs[j],
    decreases bs.len(),
{
    reveal(Seq::filter);
    if bs.len() > 0 {
        let sub = prune_bullets(bs.drop_last());
        if bullet_live(bs.last()) && i == sub.len() {
            assert(prune_bullets(bs)[i] == bs[bs.len() - 1]);
        } else {
            lemma_prune_bullets_origin(bs.drop_last(), i);
            let j = choose|j: int|
                0 <= j < bs.drop_last().len() && prune_bullets(bs.drop_last())[i] == bs.drop_last()[j];
            assert(prune_bullets(bs)[i] == bs[j]);
        }
    }
}

/// Every enemy that survives pruning is live and stood in the unpruned list.
pub proof fn lemma_prune_enemies_origin(es: Seq<EnemyModel>, i: int)
    requires
        0 <= i < prune_enemies(es).len(),
    ensures
        enemy_live(prune_enemies(es)[i]),
        exists|j: int| 0 <= j < es.len() && prune_enemies(es)[i] == es[j],
    decreases es.len(),
{
    reveal(Seq::filter);
    if es.len() > 0 {
        let sub = prune_enemies(es.drop_last());
        if enemy_live(es.last()) && i == sub.len() {
            assert(prune_enemies(es)[i] == es[es.len() - 1]);
        } else {
            lemma_prune_enemies_origin(es.drop_last(), i);
            let j = choose|j: int|
                0 <= j < es.drop_last().len() && prune_enemies(es.drop_last())[i] == es.drop_last()[j];
            assert(prune_enemies(es)[i] == es[j]);
        }
    }
}

/// Every fan child of a triggered, mid-frame-well-formed bullet is a
/// well-formed bullet in its own right.
pub proof fn lemma_fan_children_wf(b: BulletModel, m: MultiplierModel, w: int)
    requires
        bullet_wf_moved(b),
        multiplier_wf(m),
        triggers(m, b, w),
        PLAYER_SIZE as int <= w <= MAX_DIM as int,
    ensures
        forall|i: int|
            0 <= i < fan_children(b, m.fan).len() ==> bullet_wf(#[trigger] fan_children(b, m.fan)[i]),
{
    let n = m.fan;
    assert forall|i: int| 0 <= i < fan_children(b, n).len() implies bullet_wf(
        #[trigger] fan_children(b, n)[i],
    ) by {
        let kid = fan_child(b, n, i);
        assert(fan_children(b, n)[i] == kid);
        assert(-(FAN_DRIFT as int) <= fan_offset(n, i) <= FAN_DRIFT as int);
        assert((BULLET_SPEED as int) * kid.x >= (BULLET_SPEED as int) * b.x - (BULLET_SPEED as int)
            * (FAN_DRIFT as int));
    }
}

/// Every child one multiplier spawns from a mid-frame-well-formed bullet list
/// is well-formed.
pub proof fn lemma_kids_for_mult_wf(m: MultiplierModel, bs: Seq<BulletModel>, w: int)
    requires
        multiplier_wf(m),
        PLAYER_SIZE as int <= w <= MAX_DIM as int,
        forall|j: int| 0 <= j < bs.len() ==> bullet_wf_moved(#[trigger] bs[j]),
    ensures
        forall|i: int|
            0 <= i < kids_for_mult(m, bs, w).len() ==> bullet_wf(#[trigger] kids_for_mult(m, bs, w)[i]),
    decreases bs.len(),
{
    if bs.len() > 0 {
        lemma_kids_for_mult_wf(m, bs.drop_last(), w);
        if triggers(m, bs.last(), w) {
            lemma_fan_children_wf(bs.last(), m, w);
        }
        let out = kids_for_mult(m, bs, w);
        let pre = kids_for_mult(m, bs.drop_last(), w);
        assert forall|i: int| 0 <= i < out.len() implies bullet_wf(#[trigger] out[i]) by {
            if i < pre.len() {
                assert(out[i] == pre[i]);
            } else {
                assert(out[i] == fan_children(bs.last(), m.fan)[i - pre.len()]);
            }
        }
    }
}

/// Every child the multiplier step spawns is well-formed.
pub proof fn lemma_kids_for_mults_wf(ms: Seq<MultiplierModel>, bs: Seq<BulletModel>, w: int)
    requires
        PLAYER_SIZE as int <= w <= MAX_DIM as int,
        forall|k: int| 0 <= k < ms.len() ==> multiplier_wf(#[trigger] ms[k]),
        forall|j: int| 0 <= j < bs.len() ==> bullet_wf_moved(#[trigger] bs[j]),
    ensures
        forall|i: int|
            0 <= i < kids_for_mults(ms, bs, w).len() ==> bullet_wf(
                #[trigger] kids_for_mults(ms, bs, w)[i],
            ),
    decreases ms.len(),
{
    if ms.len() > 0 {
        lemma_kids_for_mults_wf(ms.drop_last(), bs, w);
        lemma_kids_for_mult_wf(ms.last(), bs, w);
        let out = kids_for_mults(ms, bs, w);
        let pre = kids_for_mults(ms.drop_last(), bs, w);
        assert forall|i: int| 0 <= i < out.len() implies bullet_wf(#[trigger] out[i]) by {
            if i < pre.len() {
                assert(out[i] == pre[i]);
            } else {
                assert(out[i] == kids_for_mult(ms.last(), bs, w)[i - pre.len()]);
            }
        }
    }
}

/// The player position after the movement step sits inside the field.
pub proof fn lemma_player_in_bounds(s: AppModel)
    requires
        s.wf(),
    ensures
        HALF_PLAYER_SIZE as int <= moved_player_x(s) <= s.window_width - HALF_PLAYER_SIZE as int,
{
}

/// Every mid-frame bullet — survivors after the move step, and the fresh shot
/// if this frame fires — is well-formed in the mid-frame sense.
pub proof fn lemma_mid_bullets_wf(s: AppModel)
    requires
        s.wf(),
    ensures
        forall|j: int| 0 <= j < mid_bullets(s).len() ==> bullet_wf_moved(#[trigger] mid_bullets(s)[j]),
        mid_bullets(s).len() == bullets_after_fire(s, moved_player_x(s)).len(),
{
    let px = moved_player_x(s);
    let bs_f = bullets_after_fire(s, px);
    lemma_player_in_bounds(s);
    assert forall|j: int| 0 <= j < mid_bullets(s).len() implies bullet_wf_moved(
        #[trigger] mid_bullets(s)[j],
    ) by {
        assert(mid_bullets(s)[j] == moved_bullet(bs_f[j]));
        if j < s.bullets.len() {
            assert(bullet_wf(s.bullets[j]));
        } else {
            assert(bs_f[j] == fired_bullet(px, s.player_y));
        }
    }
}

/// One frame preserves well-formedness; the player lands inside the field and
/// the enemy count stays at or below the cap, whatever the random draws were.
pub proof fn lemma_frame_preserves_wf(s: AppModel, d_spawn: int, d_x: int)
    requires
        s.wf(),
        0 <= d_x < SPAWN_X_RANGE as int,
    ensures
        frame_spec(s, d_spawn, d_x).wf(),
        HALF_PLAYER_SIZE as int <= frame_spec(s, d_spawn, d_x).player_x <= s.window_width
            - HALF_PLAYER_SIZE as int,
        frame_spec(s, d_spawn, d_x).enemies.len() <= MAX_ENEMIES as int,
{
    let f = frame_spec(s, d_spawn, d_x);
    let mid_b = mid_bullets(s);
    let mk_b = marked_bullets(s);
    let mid_e = mid_enemies(s);
    let bs_c = mark_collided(mk_b, mid_e);
    let es_k = mark_killed(mid_e, mk_b);
    let es_s = spawn_step(es_k, d_spawn, d_x, s.window_width);
    let kids = frame_kids(s);
    let px = moved_player_x(s);
    let bs_f = bullets_after_fire(s, px);
    lemma_player_in_bounds(s);
    lemma_mid_bullets_wf(s);
    lemma_kids_for_mults_wf(s.multipliers, mid_b, s.window_width);

    assert forall|i: int| 0 <= i < f.bullets.len() implies bullet_wf(#[trigger] f.bullets[i]) by {
        lemma_prune_bullets_origin(bs_c + kids, i);
        let j = choose|j: int| 0 <= j < (bs_c + kids).len() && f.bullets[i] == (bs_c + kids)[j];
        if j < bs_c.len() {
            let base = mid_b[j];
            assert(bullet_wf_moved(base));
            assert(f.bullets[i] == bs_c[j]);
            assert(bs_c[j].x == base.x && bs_c[j].y == base.y && bs_c[j].size == base.size);
            assert(!bs_c[j].hit);
            assert(base.y > 0) by {
                assert(base == moved_bullet(bs_f[j]));
                assert(bs_c[j].hit == (mk_b[j].hit || hit_by_any_enemy(mk_b[j], mid_e)));
                assert(mk_b[j].hit == (base.hit || triggered_by_any(base, s.multipliers, s.window_width)));
            }
        } else {
            assert(f.bullets[i] == kids[j - bs_c.len()]);
        }
    }

    assert forall|i: int| 0 <= i < f.enemies.len() implies enemy_wf(#[trigger] f.enemies[i]) by {
        lemma_prune_enemies_origin(es_s, i);
        let j = choose|j: int| 0 <= j < es_s.len() && f.enemies[i] == es_s[j];
        if j < es_k.len() {
            let base = moved_enemy(s.enemies[j], s.window_height);
            assert(enemy_wf(s.enemies[j]));
            assert(f.enemies[i] == es_k[j]);
            assert(es_k[j].x == base.x && es_k[j].y == base.y && es_k[j].size == base.size);
            let h = s.window_height;
            assert(0 <= hover_line(h) <= MAX_DIM as int) by {
                assert(10 * hover_line(h) <= 9 * h);
                assert(hover_line(h) >= 0);
            }
        } else {
            let e = spawned_enemy(d_x, s.window_width);
            assert(f.enemies[i] == e);
            let q = s.window_width / 2;
            assert(2 * q <= s.window_width && q >= 0);
            assert(0 <= (1000 + d_x) * q && (1000 + d_x) * q <= 8999 * q) by (nonlinear_arith)
                requires
                    0 <= q,
                    1000 <= 1000 + d_x <= 8999,
            ;
            assert(10000 * e.x <= (1000 + d_x) * q);
            assert(e.x >= 0);
        }
    }

    lemma_prune_enemies_len(es_s);
}

/// After a frame, no pruned list holds a marked entity: a dead projectile or
/// enemy never outlives the frame of its death.
pub proof fn lemma_frame_prunes_dead(s: AppModel, d_spawn: int, d_x: int)
    ensures
        forall|q: int|
            0 <= q < frame_spec(s, d_spawn, d_x).bullets.len() ==> !(#[trigger] frame_spec(
                s,
                d_spawn,
                d_x,
            ).bullets[q]).hit,
        forall|q: int|
            0 <= q < frame_spec(s, d_spawn, d_x).enemies.len() ==> !(#[trigger] frame_spec(
                s,
                d_spawn,
                d_x,
            ).enemies[q]).killed,
{
    let f = frame_spec(s, d_spawn, d_x);
    let bs = mark_collided(marked_bullets(s), mid_enemies(s)) + frame_kids(s);
    let es = spawn_step(
        mark_killed(mid_enemies(s), marked_bullets(s)),
        d_spawn,
        d_x,
        s.window_width,
    );
    assert forall|q: int| 0 <= q < f.bullets.len() implies !(#[trigger] f.bullets[q]).hit by {
        lemma_prune_bullets_origin(bs, q);
    }
    assert forall|q: int| 0 <= q < f.enemies.len() implies !(#[trigger] f.enemies[q]).killed by {
        lemma_prune_enemies_origin(es, q);
    }
}

/// Fire cadence: the counter cycles with period `FIRE_RATE`, and the fire
/// step adds exactly one projectile — at the player, half a player above it —
/// on the frame the counter resets, and none on any other frame.
pub proof fn lemma_fire_cadence(s: AppModel)
    requires
        s.wf(),
    ensures
        fires(s.fire_counter) <==> s.fire_counter == FIRE_RATE as int - 1,
        forall|d_spawn: int, d_x: int|
            (#[trigger] frame_spec(s, d_spawn, d_x)).fire_counter == if s.fire_counter
                == FIRE_RATE as int - 1 {
                0int
            } else {
                s.fire_counter + 1
            },
        s.fire_counter == FIRE_RATE as int - 1 ==> bullets_after_fire(s, moved_player_x(s))
            == s.bullets.push(fired_bullet(moved_player_x(s), s.player_y)),
        s.fire_counter != FIRE_RATE as int - 1 ==> bullets_after_fire(s, moved_player_x(s))
            == s.bullets,
{
}

/// A multiplier spawns no children from an empty bullet list.
pub proof fn lemma_kids_for_mults_empty(ms: Seq<MultiplierModel>, w: int)
    ensures
        kids_for_mults(ms, Seq::<BulletModel>::empty(), w).len() == 0,
    decreases ms.len(),
{
    if ms.len() > 0 {
        lemma_kids_for_mults_empty(ms.drop_last(), w);
    }
}

/// Children `p .. p + n` of `out` are exactly the fan of `parent`.
pub open spec fn fan_block_at(out: Seq<BulletModel>, parent: BulletModel, n: int, p: int) -> bool {
    &&& 0 <= p
    &&& p + n <= out.len()
    &&& forall|i: int| 0 <= i < n ==> #[trigger] out[p + i] == fan_child(parent, n, i)
}

/// Inside one multiplier's children, a triggered bullet's fan stands as a
/// contiguous block.
pub proof fn lemma_kids_for_mult_block(m: MultiplierModel, bs: Seq<BulletModel>, w: int, j: int)
    requires
        0 <= j < bs.len(),
        triggers(m, bs[j], w),
        m.fan >= 0,
    ensures
        exists|p: int| fan_block_at(kids_for_mult(m, bs, w), bs[j], m.fan, p),
    decreases bs.len(),
{
    let out = kids_for_mult(m, bs, w);
    let pre = kids_for_mult(m, bs.drop_last(), w);
    if j == bs.len() - 1 {
        let p = pre.len() as int;
        assert(bs.last() == bs[j]);
        assert forall|i: int| 0 <= i < m.fan implies #[trigger] out[p + i] == fan_child(
            bs[j],
            m.fan,
            i,
        ) by {
            assert(out[p + i] == fan_children(bs[j], m.fan)[i]);
        }
        assert(fan_block_at(out, bs[j], m.fan, p));
    } else {
        assert(bs.drop_last()[j] == bs[j]);
        lemma_kids_for_mult_block(m, bs.drop_last(), w, j);
        let p = choose|p: int| fan_block_at(pre, bs[j], m.fan, p);
        assert forall|i: int| 0 <= i < m.fan implies #[trigger] out[p + i] == fan_child(
            bs[j],
            m.fan,
            i,
        ) by {
            assert(out[p + i] == pre[p + i]);
        }
        assert(fan_block_at(out, bs[j], m.fan, p));
    }
}

/// Inside the whole frame's children, a triggered bullet's fan stands as a
/// contiguous block.
pub proof fn lemma_kids_for_mults_block(
    ms: Seq<MultiplierModel>,
    bs: Seq<BulletModel>,
    w: int,
    k: int,
    j: int,
)
    requires
        0 <= k < ms.len(),
        0 <= j < bs.len(),
        triggers(ms[k], bs[j], w),
        ms[k].fan >= 0,
    ensures
        exists|p: int| fan_block_at(kids_for_mults(ms, bs, w), bs[j], ms[k].fan, p),
    decreases ms.len(),
{
    let out = kids_for_mults(ms, bs, w);
    let pre = kids_for_mults(ms.drop_last(), bs, w);
    let n = ms[k].fan;
    if k == ms.len() - 1 {
        assert(ms.last() == ms[k]);
        lemma_kids_for_mult_block(ms[k], bs, w, j);
        let q = choose|q: int| fan_block_at(kids_for_mult(ms[k], bs, w), bs[j], n, q);
        let p = pre.len() + q;
        assert forall|i: int| 0 <= i < n implies #[trigger] out[p + i] == fan_child(bs[j], n, i) by {
            assert(out[p + i] == kids_for_mult(ms[k], bs, w)[q + i]);
        }
        assert(fan_block_at(out, bs[j], n, p));
    } else {
        assert(ms.drop_last()[k] == ms[k]);
        lemma_kids_for_mults_block(ms.drop_last(), bs, w, k, j);
        let p = choose|p: int| fan_block_at(pre, bs[j], n, p);
        assert forall|i: int| 0 <= i < n implies #[trigger] out[p + i] == fan_child(bs[j], n, i) by {
            assert(out[p + i] == pre[p + i]);
        }
        assert(fan_block_at(out, bs[j], n, p));
    }
}

/// Multiplier fan-out: a bullet a line triggers on is marked — so pruning
/// removes it this frame — and exactly `fan` children appear among the
/// frame's new bullets, at the parent's height, fanned around the parent's
/// horizontal position by `(2*i - fan) * FAN_HALF_STEP`.
pub proof fn lemma_multiplier_fan_out(s: AppModel, k: int, j: int)
    requires
        s.wf(),
        0 <= k < s.multipliers.len(),
        0 <= j < mid_bullets(s).len(),
        triggers(s.multipliers[k], mid_bullets(s)[j], s.window_width),
    ensures
        marked_bullets(s)[j].hit,
        forall|d_spawn: int, d_x: int, q: int|
            0 <= q < frame_spec(s, d_spawn, d_x).bullets.len() ==> !(#[trigger] frame_spec(
                s,
                d_spawn,
                d_x,
            ).bullets[q]).hit,
        exists|p: int|
            fan_block_at(frame_kids(s), mid_bullets(s)[j], s.multipliers[k].fan, p),
{
    assert(marked_bullets(s)[j].hit) by {
        assert(triggers(s.multipliers[k], mid_bullets(s)[j], s.window_width));
        assert(triggered_by_any(mid_bullets(s)[j], s.multipliers, s.window_width));
    }
    assert forall|d_spawn: int, d_x: int, q: int|
        0 <= q < frame_spec(s, d_spawn, d_x).bullets.len() implies !(#[trigger] frame_spec(
        s,
        d_spawn,
        d_x,
    ).bullets[q]).hit by {
        lemma_frame_prunes_dead(s, d_spawn, d_x);
    }
    assert(multiplier_wf(s.multipliers[k]));
    lemma_kids_for_mults_block(s.multipliers, mid_bullets(s), s.window_width, k, j);
    let p = choose|p: int|
        fan_block_at(
            kids_for_mults(s.multipliers, mid_bullets(s), s.window_width),
            mid_bullets(s)[j],
            s.multipliers[k].fan,
            p,
        );
    assert(fan_block_at(frame_kids(s), mid_bullets(s)[j], s.multipliers[k].fan, p));
}

/// Collision: an enemy and a bullet whose horizontal distance is below half
/// their combined sizes, the bullet having passed above the enemy, are both
/// marked, and pruning leaves no marked entity behind at the frame boundary.
pub proof fn lemma_collision_removes_both(s: AppModel, d_spawn: int, d_x: int, i: int, j: int)
    requires
        s.wf(),
        0 <= i < s.enemies.len(),
        0 <= j < mid_bullets(s).len(),
        collides(mid_enemies(s)[i], mid_bullets(s)[j]),
    ensures
        mark_killed(mid_enemies(s), marked_bullets(s))[i].killed,
        mark_collided(marked_bullets(s), mid_enemies(s))[j].hit,
        forall|q: int|
            0 <= q < frame_spec(s, d_spawn, d_x).enemies.len() ==> !(#[trigger] frame_spec(
                s,
                d_spawn,
                d_x,
            ).enemies[q]).killed,
        forall|q: int|
            0 <= q < frame_spec(s, d_spawn, d_x).bullets.len() ==> !(#[trigger] frame_spec(
                s,
                d_spawn,
                d_x,
            ).bullets[q]).hit,
{
    assert(marked_bullets(s)[j].x == mid_bullets(s)[j].x && marked_bullets(s)[j].y == mid_bullets(
        s,
    )[j].y && marked_bullets(s)[j].size == mid_bullets(s)[j].size);
    assert(collides(mid_enemies(s)[i], marked_bullets(s)[j]));
    assert(killed_by_any(mid_enemies(s)[i], marked_bullets(s)));
    assert(hit_by_any_enemy(marked_bullets(s)[j], mid_enemies(s)));
    lemma_frame_prunes_dead(s, d_spawn, d_x);
}

/// Quiescence: a frame on a state with no live projectiles and no live
/// enemies, whose cadence counter does not fire and whose spawn draw stays at
/// or above the threshold, ends with both collections still empty.
pub proof fn lemma_quiescent_state(s: AppModel, d_spawn: int, d_x: int)
    requires
        s.wf(),
        s.bullets.len() == 0,
        s.enemies.len() == 0,
        SPAWN_THRESHOLD as int <= d_spawn,
        s.fire_counter + 1 < FIRE_RATE as int,
    ensures
        frame_spec(s, d_spawn, d_x).bullets.len() == 0,
        frame_spec(s, d_spawn, d_x).enemies.len() == 0,
{
    reveal(Seq::filter);
    lemma_kids_for_mults_empty(s.multipliers, s.window_width);
    assert(mid_bullets(s) =~= Seq::<BulletModel>::empty());
    assert(frame_kids(s).len() == 0);
    assert(mark_collided(marked_bullets(s), mid_enemies(s)) + frame_kids(s) =~= Seq::<
        BulletModel,
    >::empty());
    assert(spawn_step(
        mark_killed(mid_enemies(s), marked_bullets(s)),
        d_spawn,
        d_x,
        s.window_width,
    ) =~= Seq::<EnemyModel>::empty());
}

} // verus!
