//! The per-frame state transition, as a mathematical function.
//!
//! [`frame_spec`] composes the seven steps of a frame — player movement, fire
//! cadence, bullet advance, multiplier splitting, enemy advance with collision
//! resolution, the spawn policy, and pruning — in the exact order the
//! executable update performs them. The two `draw` arguments stand for the
//! random samples the spawn policy consumes, so the transition itself is a
//! deterministic function.

use vstd::prelude::*;

use crate::game::{
    AppModel, BulletModel, EnemyModel, MultiplierModel, BULLET_SIZE, BULLET_SPEED, ENEMY_MOVE_SPEED,
    ENEMY_SIZE, ENEMY_SPAWN_Y, FAN_HALF_STEP, FIRE_RATE, HALF_PLAYER_SIZE, MAX_ENEMIES,
    PLAYER_MOVE_STEP, SPAWN_THRESHOLD,
};

verus! {

/// Net horizontal displacement of the player for one frame: the two intents
/// cancel when both are active.
pub open spec fn player_dx(left_down: bool, right_down: bool) -> int {
    (if left_down { -(PLAYER_MOVE_STEP as int) } else { 0 })
        + (if right_down { PLAYER_MOVE_STEP as int } else { 0 })
}

/// Clamp a player position into the field, low edge first: exactly the two
/// sequential corrections of the update step.
pub open spec fn clamp_player_x(x: int, w: int) -> int {
    let raised = if x < HALF_PLAYER_SIZE as int { HALF_PLAYER_SIZE as int } else { x };
    if raised > w - HALF_PLAYER_SIZE as int { w - HALF_PLAYER_SIZE as int } else { raised }
}

/// The player position after the movement step of one frame.
pub open spec fn moved_player_x(s: AppModel) -> int {
    clamp_player_x(s.player_x + player_dx(s.left_down, s.right_down), s.window_width)
}

/// Whether the cadence counter triggers a shot this frame.
pub open spec fn fires(counter: int) -> bool {
    counter + 1 >= FIRE_RATE as int
}

/// The cadence counter after one frame: it resets on the frame that fires.
pub open spec fn counter_after(counter: int) -> int {
    if fires(counter) { 0 } else { counter + 1 }
}

/// A bullet freshly fired from the player at `px`: it starts half a player
/// above the player's vertical position.
pub open spec fn fired_bullet(px: int, py: int) -> BulletModel {
    BulletModel { x: px, y: py - HALF_PLAYER_SIZE as int, size: BULLET_SIZE as int, hit: false }
}

/// The bullet list after the fire step, given the already-moved player
/// position `px`.
pub open spec fn bullets_after_fire(s: AppModel, px: int) -> Seq<BulletModel> {
    if fires(s.fire_counter) {
        s.bullets.push(fired_bullet(px, s.player_y))
    } else {
        s.bullets
    }
}

/// One bullet after the advance step: one bullet-speed higher, and marked
/// once it reaches the top edge.
pub open spec fn moved_bullet(b: BulletModel) -> BulletModel {
    let y = b.y - BULLET_SPEED as int;
    BulletModel { y, hit: b.hit || y <= 0, ..b }
}

/// All bullets after the advance step.
pub open spec fn move_bullets(bs: Seq<BulletModel>) -> Seq<BulletModel> {
    bs.map_values(|b: BulletModel| moved_bullet(b))
}

/// Whether multiplier `m` triggers on bullet `b`: the bullet is in the left
/// half of the field and within one frame's travel below the line, not yet
/// across it.
pub open spec fn triggers(m: MultiplierModel, b: BulletModel, w: int) -> bool {
    &&& 2 * b.x < w
    &&& 0 <= m.y - b.y < BULLET_SPEED as int
}

/// Horizontal offset of fan child `i` out of `n`, evenly spread around the
/// parent: `(i - n/2) * 7` pixels, exact at this fixed-point scale.
pub open spec fn fan_offset(n: int, i: int) -> int {
    (2 * i - n) * FAN_HALF_STEP as int
}

/// Fan child `i` of `n`, split off from parent `b`.
pub open spec fn fan_child(b: BulletModel, n: int, i: int) -> BulletModel {
    BulletModel { x: b.x + fan_offset(n, i), y: b.y, size: BULLET_SIZE as int, hit: false }
}

/// The full fan a multiplier of count `n` spawns from parent `b`.
pub open spec fn fan_children(b: BulletModel, n: int) -> Seq<BulletModel> {
    Seq::new(n as nat, |i: int| fan_child(b, n, i))
}

/// Whether any multiplier of `ms` triggers on `b`.
pub open spec fn triggered_by_any(b: BulletModel, ms: Seq<MultiplierModel>, w: int) -> bool {
    exists|k: int| 0 <= k < ms.len() && triggers(#[trigger] ms[k], b, w)
}

/// The bullets after the multiplier step: each one that any line triggers on
/// is marked; positions do not change.
pub open spec fn mark_triggered(bs: Seq<BulletModel>, ms: Seq<MultiplierModel>, w: int) -> Seq<
    BulletModel,
> {
    bs.map_values(|b: BulletModel| BulletModel { hit: b.hit || triggered_by_any(b, ms, w), ..b })
}

/// The children one multiplier spawns from the bullet list, in bullet order.
pub open spec fn kids_for_mult(m: MultiplierModel, bs: Seq<BulletModel>, w: int) -> Seq<BulletModel>
    decreases bs.len(),
{
    if bs.len() == 0 {
        Seq::empty()
    } else {
        kids_for_mult(m, bs.drop_last(), w) + (if triggers(m, bs.last(), w) {
            fan_children(bs.last(), m.fan)
        } else {
            Seq::empty()
        })
    }
}

/// The children all multipliers spawn this frame, in multiplier-major order.
/// They join the live set at the end of the frame and take no part in this
/// frame's multiplier or collision checks.
pub open spec fn kids_for_mults(ms: Seq<MultiplierModel>, bs: Seq<BulletModel>, w: int) -> Seq<
    BulletModel,
>
    decreases ms.len(),
{
    if ms.len() == 0 {
        Seq::empty()
    } else {
        kids_for_mults(ms.drop_last(), bs, w) + kids_for_mult(ms.last(), bs, w)
    }
}

/// The horizontal line enemies hover at: nine tenths of the field height.
pub open spec fn hover_line(h: int) -> int {
    9 * h / 10
}

/// One enemy after the advance step: one enemy-speed lower, held at the hover
/// line.
pub open spec fn moved_enemy(e: EnemyModel, h: int) -> EnemyModel {
    let y = e.y + ENEMY_MOVE_SPEED as int;
    EnemyModel { y: if y >= hover_line(h) { hover_line(h) } else { y }, ..e }
}

/// All enemies after the advance step.
pub open spec fn move_enemies(es: Seq<EnemyModel>, h: int) -> Seq<EnemyModel> {
    es.map_values(|e: EnemyModel| moved_enemy(e, h))
}

/// Absolute difference of two positions.
pub open spec fn dist(a: int, b: int) -> int {
    if a >= b { a - b } else { b - a }
}

/// Whether enemy `e` and bullet `b` collide: their horizontal distance is
/// below half their combined sizes, and the bullet has passed upward through
/// the enemy's vertical position.
pub open spec fn collides(e: EnemyModel, b: BulletModel) -> bool {
    &&& 2 * dist(e.x, b.x) < e.size + b.size
    &&& e.y > b.y
}

/// Whether any bullet of `bs` collides with `e`.
pub open spec fn killed_by_any(e: EnemyModel, bs: Seq<BulletModel>) -> bool {
    exists|j: int| 0 <= j < bs.len() && collides(e, #[trigger] bs[j])
}

/// The enemies after collision resolution: every one some bullet collides
/// with is marked. One bullet may kill through several enemies in one frame.
pub open spec fn mark_killed(es: Seq<EnemyModel>, bs: Seq<BulletModel>) -> Seq<EnemyModel> {
    es.map_values(|e: EnemyModel| EnemyModel { killed: e.killed || killed_by_any(e, bs), ..e })
}

/// Whether any enemy of `es` collides with `b`.
pub open spec fn hit_by_any_enemy(b: BulletModel, es: Seq<EnemyModel>) -> bool {
    exists|i: int| 0 <= i < es.len() && collides(#[trigger] es[i], b)
}

/// The bullets after collision resolution: every one that passed through some
/// enemy is marked.
pub open spec fn mark_collided(bs: Seq<BulletModel>, es: Seq<EnemyModel>) -> Seq<BulletModel> {
    bs.map_values(|b: BulletModel| BulletModel { hit: b.hit || hit_by_any_enemy(b, es), ..b })
}

/// The enemy a successful spawn draw places just above the top edge, at
/// fraction `(1000 + d) / 10000` of the left half of the field.
pub open spec fn spawned_enemy(d: int, w: int) -> EnemyModel {
    EnemyModel {
        x: (1000 + d) * (w / 2) / 10000,
        y: ENEMY_SPAWN_Y as int,
        size: ENEMY_SIZE as int,
        killed: false,
    }
}

/// The spawn policy: when the cap leaves room and the spawn draw falls below
/// the threshold, one enemy appears.
pub open spec fn spawn_step(es: Seq<EnemyModel>, d_spawn: int, d_x: int, w: int) -> Seq<EnemyModel> {
    if es.len() < MAX_ENEMIES as int && d_spawn < SPAWN_THRESHOLD as int {
        es.push(spawned_enemy(d_x, w))
    } else {
        es
    }
}

/// Whether a bullet survives pruning.
pub open spec fn bullet_live(b: BulletModel) -> bool {
    !b.hit
}

/// Whether an enemy survives pruning.
pub open spec fn enemy_live(e: EnemyModel) -> bool {
    !e.killed
}

/// The pruning step for bullets: every marked bullet is removed.
pub open spec fn prune_bullets(bs: Seq<BulletModel>) -> Seq<BulletModel> {
    bs.filter(|b: BulletModel| bullet_live(b))
}

/// The pruning step for enemies: every marked enemy is removed.
pub open spec fn prune_enemies(es: Seq<EnemyModel>) -> Seq<EnemyModel> {
    es.filter(|e: EnemyModel| enemy_live(e))
}

/// The bullets in the middle of a frame, after the fire and advance steps.
pub open spec fn mid_bullets(s: AppModel) -> Seq<BulletModel> {
    move_bullets(bullets_after_fire(s, moved_player_x(s)))
}

/// The bullets after the multiplier step of a frame.
pub open spec fn marked_bullets(s: AppModel) -> Seq<BulletModel> {
    mark_triggered(mid_bullets(s), s.multipliers, s.window_width)
}

/// The fan children the multiplier step of a frame spawns.
pub open spec fn frame_kids(s: AppModel) -> Seq<BulletModel> {
    kids_for_mults(s.multipliers, mid_bullets(s), s.window_width)
}

/// The enemies in the middle of a frame, after the advance step.
pub open spec fn mid_enemies(s: AppModel) -> Seq<EnemyModel> {
    move_enemies(s.enemies, s.window_height)
}

/// The complete frame transition. `d_spawn` and `d_x` are the two uniform
/// random draws the spawn policy consumes, in `[0, SPAWN_DRAW_RANGE)` and
/// `[0, SPAWN_X_RANGE)`.
pub open spec fn frame_spec(s: AppModel, d_spawn: int, d_x: int) -> AppModel {
    let bs_collided = mark_collided(marked_bullets(s), mid_enemies(s));
    let es_marked = mark_killed(mid_enemies(s), marked_bullets(s));
    let es_spawned = spawn_step(es_marked, d_spawn, d_x, s.window_width);
    AppModel {
        player_x: moved_player_x(s),
        fire_counter: counter_after(s.fire_counter),
        bullets: prune_bullets(bs_collided + frame_kids(s)),
        enemies: prune_enemies(es_spawned),
        ..s
    }
}

} // verus!
