use escape_from_hell::geometry::{Arena, Point};
use escape_from_hell::projectile::{expire_projectiles, Projectile, SpawnEvent, BULLET_LIFETIME_MS};
use escape_from_hell::movement::Transform;
use escape_from_hell::spawner::{spawn_enemy_group, spawn_stars, SpawnTimer, SpawnWindow};
use escape_from_hell::world::World;
use rand::rngs::StdRng;
use rand::SeedableRng;

#[test]
fn one_wave_per_hundred_short_ticks() {
    let mut timer = SpawnTimer::new(10_000);
    for tick in 1..=250u32 {
        let waves = timer.tick(100);
        if tick % 100 == 0 {
            assert_eq!(waves, 1);
        } else {
            assert_eq!(waves, 0);
        }
    }
    assert_eq!(timer.accumulated_ms, 5_000);
}

#[test]
fn a_long_tick_brings_every_wave_due() {
    let mut timer = SpawnTimer::new(10_000);
    assert_eq!(timer.tick(35_000), 3);
    assert_eq!(timer.accumulated_ms, 5_000);
}

#[test]
fn world_spawns_a_wave_of_three_every_ten_seconds() {
    let mut world = World::new(9);
    for _ in 0..99 {
        assert_eq!(world.step(None, 100), 0);
    }
    assert!(world.enemies.is_empty());
    assert_eq!(world.step(None, 100), 1);
    assert_eq!(world.enemies.len(), 3);
    let ids: Vec<u64> = world.enemies.iter().map(|e| e.id).collect();
    assert_eq!(ids, vec![1, 2, 3]);
    assert_eq!(world.next_id, 4);
    assert_eq!(world.clock.seconds, 100);
    assert_eq!(world.elapsed_ms, 10_000);
}

#[test]
fn wave_members_stand_in_the_window() {
    let mut rng = StdRng::seed_from_u64(3);
    let arena = Arena::new(512_000, 384_000).unwrap();
    let window = SpawnWindow::wave();
    let wave = spawn_enemy_group(&mut rng, &arena, Point { x: 0, y: 0 }, &window, 40, 10);
    assert_eq!(wave.len(), 10);
    for (i, e) in wave.iter().enumerate() {
        assert_eq!(e.id, 40 + i as u64);
        let p = e.transform.position;
        assert!(-200_000 <= p.x && p.x < 200_000);
        assert!(0 <= p.y && p.y < 200_000);
        assert_eq!(e.enemy.move_speed, 50_000);
    }
    let first = wave[0].transform.position;
    assert!(wave.iter().any(|e| e.transform.position != first));
}

#[test]
fn stars_fill_the_arena() {
    let mut rng = StdRng::seed_from_u64(5);
    let arena = Arena::new(512_000, 384_000).unwrap();
    let stars = spawn_stars(&mut rng, &arena, 100);
    assert_eq!(stars.len(), 100);
    for s in &stars {
        assert!(-512_000 <= s.position.x && s.position.x < 512_000);
        assert!(-384_000 <= s.position.y && s.position.y < 384_000);
        assert_eq!(s.rotation, 0);
    }
    assert!(stars.iter().any(|s| s.position != stars[0].position));
}

#[test]
fn same_seed_same_run() {
    let a = World::new(42);
    let b = World::new(42);
    assert_eq!(a.stars, b.stars);
    assert_eq!(a.stars.len(), 100);
}

fn bullet(id: u64, lifetime: u64) -> Projectile {
    let t = Transform { position: Point { x: 0, y: 0 }, facing: Point { x: 0, y: 1000 } };
    Projectile::fire(&SpawnEvent { transform: t, velocity: Point { x: 0, y: 5 } }, id, lifetime)
}

#[test]
fn projectile_lives_exactly_five_seconds() {
    let mut shots = vec![bullet(1, BULLET_LIFETIME_MS)];
    for _ in 0..4 {
        expire_projectiles(&mut shots, 1_000);
        assert_eq!(shots.len(), 1);
    }
    assert_eq!(shots[0].remaining_ms, 1_000);
    expire_projectiles(&mut shots, 1_000);
    assert!(shots.is_empty());
}

#[test]
fn projectile_goes_on_the_tick_that_crosses_its_lifetime() {
    let mut shots = vec![bullet(1, 5_000), bullet(2, 2_000), bullet(3, 9_000)];
    for _ in 0..3 {
        expire_projectiles(&mut shots, 1_500);
    }
    let ids: Vec<u64> = shots.iter().map(|p| p.id).collect();
    assert_eq!(ids, vec![1, 3]);
    expire_projectiles(&mut shots, 1_500);
    let ids: Vec<u64> = shots.iter().map(|p| p.id).collect();
    assert_eq!(ids, vec![3]);
}
