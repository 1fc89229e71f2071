//! The entity registry: the one player, the live enemies, projectiles and
//! stars, the clocks and the spawner, advanced one tick at a time.
use vstd::prelude::*;
use rand::rngs::StdRng;
use crate::clock::GameTime;
use crate::contact::{player_contact, resolve, ContactEvent, GameOverEvent};
use crate::geometry::{Arena, Point, UNIT};
use crate::movement::{
    enemy_movement, enemy_step, player_movement, player_step, EnemyBody, Player, Transform, PLAYER_LIFE, PLAYER_SPEED,
};
use crate::projectile::{expire_projectiles, sweep, Projectile};
use crate::random::seeded_rng;
use crate::spawner::{
    spawn_enemy_group, spawn_stars, spawned_from, SpawnTimer, SpawnWindow, Star, GROUP_SIZE,
    SPAWN_PERIOD_MS, STAR_COUNT,
};

verus! {

/// Half the width of the default arena, in thousandths of a pixel.
pub const ARENA_HALF_WIDTH: i64 = 512_000;

/// Half the height of the default arena, in thousandths of a pixel.
pub const ARENA_HALF_HEIGHT: i64 = 384_000;

/// Entity numbers at or below this leave room for every wave one tick can spawn.
pub const ID_LIMIT: u64 = 0x7FFF_FFFF_FFFF_FFFF;

/// The origin, which waves are placed around.
pub open spec fn origin() -> Point {
    Point { x: 0, y: 0 }
}

/// Everything that lives in one run.
pub struct World {
    pub arena: Arena,
    pub player_id: u64,
    pub player: Player,
    pub player_transform: Transform,
    pub enemies: Vec<EnemyBody>,
    pub projectiles: Vec<Projectile>,
    pub stars: Vec<Star>,
    pub clock: GameTime,
    pub elapsed_ms: u64,
    pub spawn_timer: SpawnTimer,
    pub next_id: u64,
    pub rng: StdRng,
}

impl World {
    pub open spec fn wf(&self) -> bool {
        &&& self.arena.wf()
        &&& self.player.wf()
        &&& self.arena.contains(self.player_transform.position)
        &&& forall|i: int|
            0 <= i < self.enemies@.len() ==> self.arena.contains(
                #[trigger] self.enemies@[i].transform.position,
            )
        &&& self.spawn_timer.wf()
    }

    /// A new run in the default arena: the player at the centre facing up,
    /// the stars scattered, no enemies yet, and every draw of the run fixed
    /// by `seed`.
    pub fn new(seed: u64) -> (r: World)
        ensures
            r.wf(),
            r.arena == (Arena { half_width: ARENA_HALF_WIDTH, half_height: ARENA_HALF_HEIGHT }),
            r.player == (Player { move_speed: PLAYER_SPEED, life: PLAYER_LIFE, defeated: false }),
            r.player_transform == (Transform { position: origin(), facing: Point { x: 0, y: UNIT } }),
            r.enemies@.len() == 0,
            r.projectiles@.len() == 0,
            r.stars@.len() == STAR_COUNT,
            forall|i: int| 0 <= i < r.stars@.len() ==> r.arena.contains(#[trigger] r.stars@[i].position),
            r.clock.seconds == 0,
            r.elapsed_ms == 0,
            r.spawn_timer == (SpawnTimer { period_ms: SPAWN_PERIOD_MS, accumulated_ms: 0 }),
            r.player_id == 0,
            r.next_id == 1,
    {
        let arena = Arena { half_width: ARENA_HALF_WIDTH, half_height: ARENA_HALF_HEIGHT };
        let mut rng = seeded_rng(seed);
        let stars = spawn_stars(&mut rng, &arena, STAR_COUNT);
        World {
            arena,
            player_id: 0,
            player: Player::new(),
            player_transform: Transform { position: Point { x: 0, y: 0 }, facing: Point { x: 0, y: UNIT } },
            enemies: Vec::new(),
            projectiles: Vec::new(),
            stars,
            clock: GameTime::new(),
            elapsed_ms: 0,
            spawn_timer: SpawnTimer::new(SPAWN_PERIOD_MS),
            next_id: 1,
            rng,
        }
    }

    /// Advances the run by a tick of `dt_ms` under the player's input: the
    /// clocks move on, the player and then the enemies move, the waves that
    /// fell due are spawned around the origin, and expired projectiles go.
    /// Returns how many waves were spawned.
    pub fn step(&mut self, input: Option<Point>, dt_ms: u32) -> (waves: u64)
        requires
            old(self).wf(),
            input matches Some(dir) ==> dir.within(UNIT as int),
            old(self).clock.seconds < u64::MAX,
            old(self).elapsed_ms + dt_ms <= u64::MAX,
            old(self).next_id <= ID_LIMIT,
        ensures
            final(self).wf(),
            final(self).arena == old(self).arena,
            final(self).player == old(self).player,
            final(self).player_id == old(self).player_id,
            final(self).clock.seconds == old(self).clock.seconds + 1,
            final(self).elapsed_ms == old(self).elapsed_ms + dt_ms,
            final(self).spawn_timer.period_ms == old(self).spawn_timer.period_ms,
            final(self).spawn_timer.accumulated_ms == (old(self).spawn_timer.accumulated_ms + dt_ms)
                % (old(self).spawn_timer.period_ms as int),
            waves == (old(self).spawn_timer.accumulated_ms + dt_ms) / (
            old(self).spawn_timer.period_ms as int),
            final(self).player_transform == player_step(
                old(self).arena,
                old(self).player,
                old(self).player_transform,
                input,
                dt_ms as int,
            ),
            final(self).enemies@.len() == old(self).enemies@.len() + GROUP_SIZE * waves,
            final(self).next_id == old(self).next_id + GROUP_SIZE * waves,
            forall|i: int|
                0 <= i < old(self).enemies@.len() ==> #[trigger] final(self).enemies@[i]
                    == enemy_step(
                    old(self).arena,
                    old(self).enemies@[i],
                    final(self).player_transform.position,
                    dt_ms as int,
                    final(self).elapsed_ms as int,
                ),
            forall|i: int|
                old(self).enemies@.len() <= i < final(self).enemies@.len() ==> spawned_from(
                    old(self).arena,
                    origin(),
                    SpawnWindow::wave_spec(),
                    (old(self).next_id + (i - old(self).enemies@.len())) as u64,
                    #[trigger] final(self).enemies@[i],
                ),
            final(self).projectiles@ == sweep(old(self).projectiles@, dt_ms as nat),
            final(self).stars@ == old(self).stars@,
    {
        self.clock.seconds = self.clock.seconds + 1;
        self.elapsed_ms = self.elapsed_ms + dt_ms as u64;
        player_movement(&self.arena, &self.player, &mut self.player_transform, input, dt_ms);
        enemy_movement(
            &self.arena,
            &mut self.enemies,
            self.player_transform.position,
            dt_ms,
            self.elapsed_ms,
        );
        let ghost acc0 = self.spawn_timer.accumulated_ms as int;
        let ghost period = self.spawn_timer.period_ms as int;
        let waves = self.spawn_timer.tick(dt_ms);
        assert(waves <= 0x1_0000_0001) by (nonlinear_arith)
            requires
                waves == (acc0 + dt_ms) / period,
                0 <= acc0 < period,
                0 <= dt_ms < 0x1_0000_0000,
        ;
        let ghost moved = self.enemies@;
        let ghost pt = self.player_transform;
        let ghost timer = self.spawn_timer;
        let ghost clock = self.clock;
        let ghost elapsed = self.elapsed_ms;
        let ghost id0 = self.next_id;
        let window = SpawnWindow::wave();
        let mut w: u64 = 0;
        while w < waves
            invariant
                self.arena.wf(),
                self.arena == old(self).arena,
                self.player == old(self).player,
                self.player_id == old(self).player_id,
                self.player.wf(),
                self.arena.contains(self.player_transform.position),
                self.player_transform == pt,
                self.spawn_timer == timer,
                self.spawn_timer.wf(),
                self.clock == clock,
                self.elapsed_ms == elapsed,
                self.projectiles@ == old(self).projectiles@,
                self.stars@ == old(self).stars@,
                window == SpawnWindow::wave_spec(),
                w <= waves <= 0x1_0000_0001,
                id0 <= ID_LIMIT,
                self.next_id == id0 + GROUP_SIZE * w,
                self.enemies@.len() == moved.len() + GROUP_SIZE * w,
                forall|i: int| 0 <= i < moved.len() ==> #[trigger] self.enemies@[i] == moved[i],
                forall|i: int|
                    moved.len() <= i < self.enemies@.len() ==> spawned_from(
                        self.arena,
                        origin(),
                        window,
                        (id0 + (i - moved.len())) as u64,
                        #[trigger] self.enemies@[i],
                    ),
                forall|i: int|
                    0 <= i < self.enemies@.len() ==> self.arena.contains(
                        #[trigger] self.enemies@[i].transform.position,
                    ),
            decreases waves - w,
        {
            let mut wave = spawn_enemy_group(
                &mut self.rng,
                &self.arena,
                Point { x: 0, y: 0 },
                &window,
                self.next_id,
                GROUP_SIZE,
            );
            let ghost before = self.enemies@;
            let ghost fresh = wave@;
            self.enemies.append(&mut wave);
            proof {
                assert forall|i: int|
                    moved.len() <= i < self.enemies@.len() implies spawned_from(
                        self.arena,
                        origin(),
                        window,
                        (id0 + (i - moved.len())) as u64,
                        #[trigger] self.enemies@[i],
                    ) by {
                    if i >= before.len() {
                        let j = i - before.len();
                        assert(self.enemies@[i] == fresh[j]);
                        assert(id0 + (i - moved.len()) == self.next_id + j);
                    } else {
                        assert(self.enemies@[i] == before[i]);
                    }
                }
                assert forall|i: int|
                    0 <= i < self.enemies@.len() implies self.arena.contains(
                        #[trigger] self.enemies@[i].transform.position,
                    ) by {
                    if i >= before.len() {
                        assert(self.enemies@[i] == fresh[i - before.len()]);
                    } else {
                        assert(self.enemies@[i] == before[i]);
                    }
                }
            }
            self.next_id = self.next_id + GROUP_SIZE;
            w = w + 1;
        }
        expire_projectiles(&mut self.projectiles, dt_ms);
        waves
    }

    /// Applies this tick's contacts to the player; returns the game-over
    /// signal if they defeated it.
    pub fn resolve_contacts(&mut self, events: &Vec<ContactEvent>) -> (r: Option<GameOverEvent>)
        requires
            old(self).wf(),
        ensures
            final(self).wf(),
            final(self).player == resolve(old(self).player, events@, old(self).player_id).0,
            r is Some <==> resolve(old(self).player, events@, old(self).player_id).1 == 1,
            r matches Some(g) ==> g.0 == old(self).player_id,
            final(self).player_id == old(self).player_id,
            final(self).player_transform == old(self).player_transform,
            final(self).enemies@ == old(self).enemies@,
            final(self).projectiles@ == old(self).projectiles@,
    {
        player_contact(&mut self.player, self.player_id, events)
    }
}

} // verus!
