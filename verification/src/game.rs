//! Game state: entities, playfield, well-formedness, and the input-mutation
//! entry points of the simulation core.
//!
//! Positions are integer fixed-point units with [`SUBPIXELS`] units per screen
//! pixel. Negative `y` is above the top edge of the playfield; `y` grows
//! downward.

use vstd::prelude::*;

verus! {

/// Fixed-point units per screen pixel. The scale makes every constant of the
/// design (speeds, sizes, half-sizes, fan offsets) a whole number of units.
pub const SUBPIXELS: i64 = 18;

/// Horizontal distance the player moves per frame per active intent (5 px).
pub const PLAYER_MOVE_STEP: i64 = 90;

/// Side length of the player square (20 px).
pub const PLAYER_SIZE: i64 = 360;

/// Half the player size; also the vertical offset of a freshly fired bullet.
pub const HALF_PLAYER_SIZE: i64 = 180;

/// Distance a bullet travels upward each frame (10 px).
pub const BULLET_SPEED: i64 = 180;

/// Diameter of a bullet (5 px, a quarter of the player).
pub const BULLET_SIZE: i64 = 90;

/// Number of frames between shots.
pub const FIRE_RATE: u32 = 20;

/// Upper bound on the number of live enemies.
pub const MAX_ENEMIES: usize = 50;

/// Distance an enemy drifts downward each frame (1 px).
pub const ENEMY_MOVE_SPEED: i64 = 18;

/// Diameter of an enemy (the player size divided by 1.8, exact at this scale).
pub const ENEMY_SIZE: i64 = 200;

/// Vertical position at which a new enemy appears, just above the top (-5 px).
pub const ENEMY_SPAWN_Y: i64 = -90;

/// Half the horizontal distance between adjacent bullets of a fan (3.5 px);
/// fan child `i` of `n` sits at `(2*i - n) * FAN_HALF_STEP` from its parent.
pub const FAN_HALF_STEP: i64 = 63;

/// Largest drift a single split can give a fan child: `255 * FAN_HALF_STEP`.
pub const FAN_DRIFT: i64 = 16065;

/// The spawn draw is uniform below this bound.
pub const SPAWN_DRAW_RANGE: u64 = 100;

/// An enemy spawns when the spawn draw falls below this (probability 1/20).
pub const SPAWN_THRESHOLD: u64 = 5;

/// The horizontal-position draw is uniform below this bound; a draw `d` lands
/// the enemy at fraction `(1000 + d) / 10000` of the left half of the field.
pub const SPAWN_X_RANGE: u64 = 8000;

/// Largest accepted playfield dimension, in units. Keeps every intermediate
/// product of the update step far inside `i64`.
pub const MAX_DIM: i64 = 1_000_000_000;

/// A player position beyond this is treated as past the field on that side
/// before the movement step does arithmetic on it; the clamp that follows
/// gives the same result either way, without `i64` overflow.
pub const CLAMP_GUARD: i64 = 4 * MAX_DIM;

/// A projectile. `hit` marks it for removal at the end of the frame.
pub struct Bullet {
    pub x_pos: i64,
    pub y_pos: i64,
    pub size: i64,
    pub hit: bool,
}

/// An enemy. `killed` marks it for removal at the end of the frame.
pub struct Enemy {
    pub x_pos: i64,
    pub y_pos: i64,
    pub size: i64,
    pub killed: bool,
}

/// A static horizontal trigger line: a bullet crossing it in the left half of
/// the playfield is replaced by `multiplier` new bullets fanned around it.
pub struct Multiplier {
    pub y_pos: i64,
    pub multiplier: u8,
}

/// The simulation core: the player, the live entities, the static multiplier
/// lines and the playfield dimensions.
///
/// A renderer reads these fields between frames; it never mutates them. The
/// input source drives the `*_pressed`, `*_released` and `set_player_x` entry
/// points, and the host calls `advance_frame` at a fixed cadence.
pub struct App {
    pub num_columns: u8,
    pub player_x: i64,
    pub player_y: i64,
    pub window_width: i64,
    pub window_height: i64,
    pub left_down: bool,
    pub right_down: bool,
    pub fire_counter: u32,
    pub bullets: Vec<Bullet>,
    pub enemies: Vec<Enemy>,
    pub multipliers: Vec<Multiplier>,
}

/// Why a playfield configuration was rejected.
#[derive(Clone, Copy, Debug, PartialEq, Eq, Structural)]
pub enum ConfigError {
    /// The width does not leave room for the player square.
    WidthTooSmall,
    /// The width exceeds `MAX_DIM`.
    WidthTooLarge,
    /// The height is zero or negative.
    HeightNotPositive,
    /// The height exceeds `MAX_DIM`.
    HeightTooLarge,
    /// A multiplier line lies outside the playfield.
    MultiplierOutOfField,
}

/// Mathematical model of a bullet.
#[verifier::ext_equal]
pub ghost struct BulletModel {
    pub x: int,
    pub y: int,
    pub size: int,
    pub hit: bool,
}

/// Mathematical model of an enemy.
#[verifier::ext_equal]
pub ghost struct EnemyModel {
    pub x: int,
    pub y: int,
    pub size: int,
    pub killed: bool,
}

/// Mathematical model of a multiplier line.
#[verifier::ext_equal]
pub ghost struct MultiplierModel {
    pub y: int,
    pub fan: int,
}

/// Mathematical model of the whole simulation state.
#[verifier::ext_equal]
pub ghost struct AppModel {
    pub num_columns: int,
    pub player_x: int,
    pub player_y: int,
    pub window_width: int,
    pub window_height: int,
    pub left_down: bool,
    pub right_down: bool,
    pub fire_counter: int,
    pub bullets: Seq<BulletModel>,
    pub enemies: Seq<EnemyModel>,
    pub multipliers: Seq<MultiplierModel>,
}

impl View for Bullet {
    type V = BulletModel;

    open spec fn view(&self) -> BulletModel {
        BulletModel { x: self.x_pos as int, y: self.y_pos as int, size: self.size as int, hit: self.hit }
    }
}

impl View for Enemy {
    type V = EnemyModel;

    open spec fn view(&self) -> EnemyModel {
        EnemyModel { x: self.x_pos as int, y: self.y_pos as int, size: self.size as int, killed: self.killed }
    }
}

impl View for Multiplier {
    type V = MultiplierModel;

    open spec fn view(&self) -> MultiplierModel {
        MultiplierModel { y: self.y_pos as int, fan: self.multiplier as int }
    }
}

/// The models of a sequence of bullets.
pub open spec fn bullet_views(s: Seq<Bullet>) -> Seq<BulletModel> {
    s.map_values(|b: Bullet| b@)
}

/// The models of a sequence of enemies.
pub open spec fn enemy_views(s: Seq<Enemy>) -> Seq<EnemyModel> {
    s.map_values(|e: Enemy| e@)
}

/// The models of a sequence of multipliers.
pub open spec fn multiplier_views(s: Seq<Multiplier>) -> Seq<MultiplierModel> {
    s.map_values(|m: Multiplier| m@)
}

impl View for App {
    type V = AppModel;

    open spec fn view(&self) -> AppModel {
        AppModel {
            num_columns: self.num_columns as int,
            player_x: self.player_x as int,
            player_y: self.player_y as int,
            window_width: self.window_width as int,
            window_height: self.window_height as int,
            left_down: self.left_down,
            right_down: self.right_down,
            fire_counter: self.fire_counter as int,
            bullets: bullet_views(self.bullets@),
            enemies: enemy_views(self.enemies@),
            multipliers: multiplier_views(self.multipliers@),
        }
    }
}

/// A live bullet between frames: not marked, on-field or at most one step
/// above it, and with a horizontal position whose distance from the field is
/// bounded by the fan drift it can still accumulate before it expires.
pub open spec fn bullet_wf(b: BulletModel) -> bool {
    &&& !b.hit
    &&& -(BULLET_SPEED as int) < b.y <= MAX_DIM as int
    &&& (BULLET_SPEED as int) * b.x >= -(FAN_DRIFT as int) * (MAX_DIM as int + 3 * BULLET_SPEED as int - b.y)
    &&& b.x <= MAX_DIM as int + FAN_DRIFT as int
    &&& 0 <= b.size <= MAX_DIM as int
}

/// A bullet in the middle of a frame, after the move step: one frame lower
/// than `bullet_wf` allows, with the matching extra slack in the horizontal
/// bound. The `hit` flag is unconstrained here.
pub open spec fn bullet_wf_moved(b: BulletModel) -> bool {
    &&& -(2 * BULLET_SPEED as int) <= b.y <= MAX_DIM as int
    &&& (BULLET_SPEED as int) * b.x >= -(FAN_DRIFT as int) * (MAX_DIM as int + 2 * BULLET_SPEED as int - b.y)
    &&& b.x <= MAX_DIM as int + FAN_DRIFT as int
    &&& 0 <= b.size <= MAX_DIM as int
}

/// A live enemy between frames.
pub open spec fn enemy_wf(e: EnemyModel) -> bool {
    &&& !e.killed
    &&& ENEMY_SPAWN_Y as int <= e.y <= MAX_DIM as int
    &&& 0 <= e.x <= MAX_DIM as int
    &&& 0 <= e.size <= MAX_DIM as int
}

/// A configured multiplier line.
pub open spec fn multiplier_wf(m: MultiplierModel) -> bool {
    &&& 0 <= m.y <= MAX_DIM as int
    &&& 0 <= m.fan <= 255
}

impl AppModel {
    /// Well-formedness of the simulation state. Constructors establish it and
    /// every operation preserves it; the player position alone is exempt,
    /// since `set_player_x` may place the player anywhere until the next
    /// frame clamps it back.
    pub open spec fn wf(self) -> bool {
        &&& PLAYER_SIZE as int <= self.window_width <= MAX_DIM as int
        &&& 1 <= self.window_height <= MAX_DIM as int
        &&& 0 <= self.player_y <= MAX_DIM as int
        &&& 0 <= self.fire_counter < FIRE_RATE as int
        &&& forall|i: int| 0 <= i < self.bullets.len() ==> bullet_wf(#[trigger] self.bullets[i])
        &&& forall|i: int| 0 <= i < self.enemies.len() ==> enemy_wf(#[trigger] self.enemies[i])
        &&& forall|i: int| 0 <= i < self.multipliers.len() ==> multiplier_wf(#[trigger] self.multipliers[i])
        &&& self.enemies.len() <= MAX_ENEMIES as int
    }
}

/// Whether a pair of playfield dimensions is accepted.
pub open spec fn dims_ok(w: int, h: int) -> bool {
    &&& PLAYER_SIZE as int <= w <= MAX_DIM as int
    &&& 1 <= h <= MAX_DIM as int
}

/// The error reported for a rejected pair of dimensions: the first failing
/// check decides.
pub open spec fn dims_error(w: int, h: int) -> ConfigError {
    if w < PLAYER_SIZE as int {
        ConfigError::WidthTooSmall
    } else if w > MAX_DIM as int {
        ConfigError::WidthTooLarge
    } else if h < 1 {
        ConfigError::HeightNotPositive
    } else {
        ConfigError::HeightTooLarge
    }
}

/// Whether every configured multiplier line lies inside a field of height `h`.
pub open spec fn multipliers_ok(ms: Seq<MultiplierModel>, h: int) -> bool {
    forall|k: int| 0 <= k < ms.len() ==> 0 <= (#[trigger] ms[k]).y <= h
}

/// The state a fresh simulation starts in: the player centered horizontally,
/// seated at five sixths of the field height, counter fresh, no live entities.
pub open spec fn initial_model(w: int, h: int, cols: int, ms: Seq<MultiplierModel>) -> AppModel {
    AppModel {
        num_columns: cols,
        player_x: w / 2,
        player_y: 5 * h / 6,
        window_width: w,
        window_height: h,
        left_down: false,
        right_down: false,
        fire_counter: 0,
        bullets: Seq::empty(),
        enemies: Seq::empty(),
        multipliers: ms,
    }
}

impl App {
    /// The input source reports that the left key went down.
    pub fn left_pressed(&mut self)
        ensures
            final(self)@ == (AppModel { left_down: true, ..old(self)@ }),
    {
        self.left_down = true;
    }

    /// The input source reports that the left key went up.
    pub fn left_released(&mut self)
        ensures
            final(self)@ == (AppModel { left_down: false, ..old(self)@ }),
    {
        self.left_down = false;
    }

    /// The input source reports that the right key went down.
    pub fn right_pressed(&mut self)
        ensures
            final(self)@ == (AppModel { right_down: true, ..old(self)@ }),
    {
        self.right_down = true;
    }

    /// The input source reports that the right key went up.
    pub fn right_released(&mut self)
        ensures
            final(self)@ == (AppModel { right_down: false, ..old(self)@ }),
    {
        self.right_down = false;
    }

    /// Pointer or touch input: place the player at an absolute horizontal
    /// position. Out-of-range values are not an error; the next frame clamps
    /// the player back into the field.
    pub fn set_player_x(&mut self, new_x: i64)
        ensures
            final(self)@ == (AppModel { player_x: new_x as int, ..old(self)@ }),
    {
        self.player_x = new_x;
    }
}

} // verus!
