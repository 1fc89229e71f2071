//! Spawning: the fixed-cadence timer for enemy waves, the waves themselves,
//! and the decorative stars seeded at start-up.
use vstd::prelude::*;
use vstd::arithmetic::div_mod::{lemma_fundamental_div_mod, lemma_fundamental_div_mod_converse};
use rand::rngs::StdRng;
use crate::geometry::{Arena, Point, MAX_EXTENT, UNIT};
use crate::movement::{Enemy, EnemyBody, EnemyKind, Transform, ENEMY_BASE_SPEED};
use crate::random::draw;

verus! {

/// Time between two enemy waves, in milliseconds.
pub const SPAWN_PERIOD_MS: u64 = 10_000;

/// Enemies in one wave.
pub const GROUP_SIZE: u64 = 3;

/// Stars seeded at start-up.
pub const STAR_COUNT: u64 = 100;

/// Accumulates tick time and says how many waves fall due, so that waves
/// keep their cadence however long each tick is.
#[derive(Clone, Copy, Debug, PartialEq, Eq, Structural)]
pub struct SpawnTimer {
    pub period_ms: u64,
    pub accumulated_ms: u64,
}

impl SpawnTimer {
    pub open spec fn wf(self) -> bool {
        self.period_ms > 0 && self.accumulated_ms < self.period_ms
    }

    /// A timer with nothing accumulated yet.
    pub fn new(period_ms: u64) -> (r: SpawnTimer)
        requires
            period_ms > 0,
        ensures
            r.wf(),
            r.period_ms == period_ms,
            r.accumulated_ms == 0,
    {
        SpawnTimer { period_ms, accumulated_ms: 0 }
    }

    /// Adds a tick of `dt_ms` and returns how many waves fell due in it.
    pub fn tick(&mut self, dt_ms: u32) -> (batches: u64)
        requires
            old(self).wf(),
        ensures
            final(self).wf(),
            final(self).period_ms == old(self).period_ms,
            final(self).accumulated_ms == (old(self).accumulated_ms + dt_ms) % (
            old(self).period_ms as int),
            batches == (old(self).accumulated_ms + dt_ms) / (old(self).period_ms as int),
    {
        let total: u128 = self.accumulated_ms as u128 + dt_ms as u128;
        let p: u128 = self.period_ms as u128;
        let q: u128 = total / p;
        let r: u128 = total % p;
        proof {
            lemma_fundamental_div_mod(total as int, p as int);
            assert(q <= 0x1_0000_0001) by (nonlinear_arith)
                requires
                    total == p * q + r,
                    0 <= r,
                    p >= 1,
                    total < p + 0x1_0000_0000,
                    q >= 0,
            ;
        }
        self.accumulated_ms = r as u64;
        q as u64
    }
}

/// Sum of the tick lengths `dts`.
pub open spec fn total_ms(dts: Seq<u32>) -> nat
    decreases dts.len(),
{
    if dts.len() == 0 {
        0
    } else {
        total_ms(dts.drop_last()) + dts.last() as nat
    }
}

/// The timer after the ticks `dts`, and the waves that fell due over them.
pub open spec fn timer_run(t: SpawnTimer, dts: Seq<u32>) -> (SpawnTimer, nat)
    decreases dts.len(),
{
    if dts.len() == 0 {
        (t, 0)
    } else {
        let (u, n) = timer_run(t, dts.drop_last());
        let sum = u.accumulated_ms + dts.last();
        (
            SpawnTimer { accumulated_ms: (sum % (u.period_ms as int)) as u64, ..u },
            n + (sum / (u.period_ms as int)) as nat,
        )
    }
}

/// Waves keep a fixed cadence whatever the tick lengths: over any run of
/// ticks, the waves that fall due are the whole periods in the time that
/// passed (counting what the timer held before), and the timer keeps the rest.
pub proof fn lemma_cadence(t: SpawnTimer, dts: Seq<u32>)
    requires
        t.wf(),
    ensures
        timer_run(t, dts).0.wf(),
        timer_run(t, dts).0.period_ms == t.period_ms,
        timer_run(t, dts).1 == (t.accumulated_ms + total_ms(dts)) / (t.period_ms as int),
        timer_run(t, dts).0.accumulated_ms == (t.accumulated_ms + total_ms(dts)) % (
        t.period_ms as int),
    decreases dts.len(),
{
    if dts.len() == 0 {
        lemma_fundamental_div_mod_converse(t.accumulated_ms as int, t.period_ms as int, 0, t.accumulated_ms as int);
    } else {
        lemma_cadence(t, dts.drop_last());
        let p = t.period_ms as int;
        let a = t.accumulated_ms + total_ms(dts.drop_last());
        let d = dts.last() as int;
        let q1 = a / p;
        let r1 = a % p;
        lemma_fundamental_div_mod(a, p);
        let q2 = (r1 + d) / p;
        let r2 = (r1 + d) % p;
        lemma_fundamental_div_mod(r1 + d, p);
        assert(a + d == (q1 + q2) * p + r2) by (nonlinear_arith)
            requires
                a == p * q1 + r1,
                r1 + d == p * q2 + r2,
        ;
        lemma_fundamental_div_mod_converse(a + d, p, q1 + q2, r2);
        let u = timer_run(t, dts.drop_last()).0;
        assert(u.accumulated_ms == r1);
        assert(0 <= q2) by (nonlinear_arith)
            requires
                r1 + d >= 0,
                p > 0,
                q2 == (r1 + d) / p,
        ;
        assert(total_ms(dts) == total_ms(dts.drop_last()) + d);
        assert(t.accumulated_ms + total_ms(dts) == a + d);
    }
}

/// Where a wave is placed: offsets from an anchor point, `min_x..max_x` by
/// `min_y..max_y`, in thousandths of a pixel.
#[derive(Clone, Copy, Debug, PartialEq, Eq, Structural)]
pub struct SpawnWindow {
    pub min_x: i64,
    pub max_x: i64,
    pub min_y: i64,
    pub max_y: i64,
}

impl SpawnWindow {
    pub open spec fn wf(self) -> bool {
        &&& -MAX_EXTENT <= self.min_x < self.max_x <= MAX_EXTENT
        &&& -MAX_EXTENT <= self.min_y < self.max_y <= MAX_EXTENT
    }

    /// The window of a wave: 200 pixels to either side of the anchor, and up
    /// to 200 pixels above it.
    pub open spec fn wave_spec() -> SpawnWindow {
        SpawnWindow { min_x: -200_000i64, max_x: 200_000, min_y: 0, max_y: 200_000 }
    }

    pub fn wave() -> (r: SpawnWindow)
        ensures
            r.wf(),
            r == SpawnWindow::wave_spec(),
    {
        SpawnWindow { min_x: -200_000, max_x: 200_000, min_y: 0, max_y: 200_000 }
    }
}

/// The enemy look picked by a roll in `0..3`.
pub open spec fn kind_of(roll: int) -> EnemyKind {
    if roll == 0 {
        EnemyKind::Cyan
    } else if roll == 1 {
        EnemyKind::Yellow
    } else {
        EnemyKind::Red
    }
}

/// Facing of a body that has not turned yet: straight up.
pub open spec fn upright() -> Point {
    Point { x: 0, y: UNIT }
}

/// The enemy numbered `id` placed from the rolls `rx`, `ry` (offsets from
/// `anchor`) and `kind_roll`.
pub open spec fn enemy_spec(
    arena: Arena,
    anchor: Point,
    id: u64,
    rx: int,
    ry: int,
    kind_roll: int,
) -> EnemyBody {
    EnemyBody {
        id,
        enemy: Enemy { move_speed: ENEMY_BASE_SPEED, kind: kind_of(kind_roll) },
        transform: Transform {
            position: arena.clamp_spec(anchor.x + rx, anchor.y + ry),
            facing: upright(),
        },
    }
}

/// `e` is the enemy numbered `id` for some rolls that `window` and the three
/// looks allow.
pub open spec fn spawned_from(arena: Arena, anchor: Point, window: SpawnWindow, id: u64, e: EnemyBody) -> bool {
    exists|rx: int, ry: int, k: int|
        window.min_x <= rx < window.max_x && window.min_y <= ry < window.max_y && 0 <= k < 3 && e
            == #[trigger] enemy_spec(arena, anchor, id, rx, ry, k)
}

/// Builds the enemy numbered `id` from its rolls: placed at `anchor` moved by
/// `(rx, ry)` and clamped into the arena, with the look `kind_roll` picks.
pub fn enemy_from_roll(arena: &Arena, anchor: Point, id: u64, rx: i64, ry: i64, kind_roll: i64) -> (r:
    EnemyBody)
    requires
        arena.wf(),
        anchor.within(MAX_EXTENT as int),
        -MAX_EXTENT <= rx <= MAX_EXTENT,
        -MAX_EXTENT <= ry <= MAX_EXTENT,
    ensures
        r == enemy_spec(*arena, anchor, id, rx as int, ry as int, kind_roll as int),
        arena.contains(r.transform.position),
{
    let kind = if kind_roll == 0 {
        EnemyKind::Cyan
    } else if kind_roll == 1 {
        EnemyKind::Yellow
    } else {
        EnemyKind::Red
    };
    let position = arena.clamp(anchor.x as i128 + rx as i128, anchor.y as i128 + ry as i128);
    EnemyBody {
        id,
        enemy: Enemy { move_speed: ENEMY_BASE_SPEED, kind },
        transform: Transform { position, facing: Point { x: 0, y: UNIT } },
    }
}

/// Spawns a wave of `count` enemies numbered from `first_id`, each at a
/// random offset in `window` from `anchor`, with a random look.
pub fn spawn_enemy_group(
    rng: &mut StdRng,
    arena: &Arena,
    anchor: Point,
    window: &SpawnWindow,
    first_id: u64,
    count: u64,
) -> (r: Vec<EnemyBody>)
    requires
        arena.wf(),
        window.wf(),
        anchor.within(MAX_EXTENT as int),
        first_id + count <= u64::MAX,
    ensures
        r.len() == count,
        forall|i: int|
            0 <= i < r.len() ==> spawned_from(*arena, anchor, *window, (first_id + i) as u64, #[trigger] r[i]),
        forall|i: int| 0 <= i < r.len() ==> arena.contains(#[trigger] r[i].transform.position),
{
    let mut wave: Vec<EnemyBody> = Vec::new();
    let mut n: u64 = 0;
    while n < count
        invariant
            arena.wf(),
            window.wf(),
            anchor.within(MAX_EXTENT as int),
            first_id + count <= u64::MAX,
            n <= count,
            wave.len() == n,
            forall|i: int|
                0 <= i < wave.len() ==> spawned_from(
                    *arena,
                    anchor,
                    *window,
                    (first_id + i) as u64,
                    #[trigger] wave[i],
                ),
            forall|i: int| 0 <= i < wave.len() ==> arena.contains(#[trigger] wave[i].transform.position),
        decreases count - n,
    {
        let rx = draw(rng, window.min_x, window.max_x);
        let ry = draw(rng, window.min_y, window.max_y);
        let k = draw(rng, 0, 3);
        let e = enemy_from_roll(arena, anchor, first_id + n, rx, ry, k);
        wave.push(e);
        proof {
            let i = n as int;
            assert(wave[i] == enemy_spec(*arena, anchor, (first_id + i) as u64, rx as int, ry as int, k as int));
        }
        n = n + 1;
    }
    wave
}

/// A decorative star: where it stands and its fixed rotation, in
/// thousandths of a radian.
#[derive(Clone, Copy, Debug, PartialEq, Eq, Structural)]
pub struct Star {
    pub position: Point,
    pub rotation: i64,
}

/// A star at `position` turned by `rotation`.
pub fn spawn_star(position: Point, rotation: i64) -> (r: Star)
    ensures
        r.position == position,
        r.rotation == rotation,
{
    Star { position, rotation }
}

/// Seeds `count` unturned stars at random points of the arena, each axis
/// drawn from `-half..half`.
pub fn spawn_stars(rng: &mut StdRng, arena: &Arena, count: u64) -> (r: Vec<Star>)
    requires
        arena.wf(),
        arena.half_width > 0,
        arena.half_height > 0,
    ensures
        r.len() == count,
        forall|i: int|
            0 <= i < r.len() ==> {
                &&& -arena.half_width <= #[trigger] r[i].position.x < arena.half_width
                &&& -arena.half_height <= r[i].position.y < arena.half_height
                &&& r[i].rotation == 0
            },
{
    let mut stars: Vec<Star> = Vec::new();
    let mut n: u64 = 0;
    while n < count
        invariant
            arena.wf(),
            arena.half_width > 0,
            arena.half_height > 0,
            n <= count,
            stars.len() == n,
            forall|i: int|
                0 <= i < stars.len() ==> {
                    &&& -arena.half_width <= #[trigger] stars[i].position.x < arena.half_width
                    &&& -arena.half_height <= stars[i].position.y < arena.half_height
                    &&& stars[i].rotation == 0
                },
        decreases count - n,
    {
        let x = draw(rng, -arena.half_width, arena.half_width);
        let y = draw(rng, -arena.half_height, arena.half_height);
        stars.push(spawn_star(Point { x, y }, 0));
        n = n + 1;
    }
    stars
}

} // verus!
