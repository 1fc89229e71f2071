use escape_from_hell::geometry::{heading_toward, isqrt, advance, Arena, Point};
use escape_from_hell::movement::{
    enemy_chase, enemy_movement, player_movement, Enemy, EnemyBody, EnemyKind, Player, Transform,
};
use escape_from_hell::world::World;

fn window_arena() -> Arena {
    Arena::new(512_000, 384_000).unwrap()
}

fn at(x: i64, y: i64) -> Transform {
    Transform { position: Point { x, y }, facing: Point { x: 0, y: 1000 } }
}

fn enemy_at(x: i64, y: i64) -> EnemyBody {
    EnemyBody {
        id: 5,
        enemy: Enemy { move_speed: 50_000, kind: EnemyKind::Red },
        transform: at(x, y),
    }
}

#[test]
fn integer_square_roots() {
    assert_eq!(isqrt(0), 0);
    assert_eq!(isqrt(1), 1);
    assert_eq!(isqrt(24), 4);
    assert_eq!(isqrt(25), 5);
    assert_eq!(isqrt(1_000_000_000_000), 1_000_000);
}

#[test]
fn headings_are_in_thousandths() {
    let o = Point { x: 0, y: 0 };
    assert_eq!(heading_toward(o, Point { x: 3_000, y: 4_000 }), Some(Point { x: 600, y: 800 }));
    assert_eq!(heading_toward(o, Point { x: -5, y: 0 }), Some(Point { x: -1000, y: 0 }));
    assert_eq!(heading_toward(o, Point { x: 1, y: 1 }), Some(Point { x: 1000, y: 1000 }));
    assert_eq!(heading_toward(o, o), None);
}

#[test]
fn advance_moves_by_speed_and_time() {
    let arena = window_arena();
    let p = advance(&arena, Point { x: 0, y: 0 }, Point { x: 1000, y: -500 }, 16, 300_000);
    assert_eq!(p, Point { x: 4_800, y: -2_400 });
}

#[test]
fn arena_rejects_bad_extents() {
    assert!(Arena::new(-1, 5).is_none());
    assert!(Arena::new(5, -1).is_none());
    assert!(Arena::new(0, 0).is_some());
}

#[test]
fn player_held_right_stops_exactly_at_the_edge() {
    let mut world = World::new(1);
    let mut prev = world.player_transform.position.x;
    for _ in 0..400 {
        world.step(Some(Point { x: 1000, y: 0 }), 16);
        let x = world.player_transform.position.x;
        assert!(x <= 512_000);
        assert!(x >= prev);
        prev = x;
    }
    assert_eq!(world.player_transform.position.x, 512_000);
    assert_eq!(world.player_transform.facing, Point { x: 1000, y: 0 });
}

#[test]
fn player_is_clamped_on_both_axes() {
    let arena = window_arena();
    let player = Player::new();
    let mut t = at(-511_000, 383_000);
    player_movement(&arena, &player, &mut t, Some(Point { x: -1000, y: 1000 }), 1_000);
    assert_eq!(t.position, Point { x: -512_000, y: 384_000 });
}

#[test]
fn missing_or_zero_input_keeps_the_player() {
    let arena = window_arena();
    let player = Player::new();
    let start = Transform { position: Point { x: 10, y: 20 }, facing: Point { x: -600, y: 800 } };
    let mut t = start;
    player_movement(&arena, &player, &mut t, None, 16);
    assert_eq!(t, start);
    player_movement(&arena, &player, &mut t, Some(Point { x: 0, y: 0 }), 16);
    assert_eq!(t, start);
}

#[test]
fn enemy_turns_and_moves_toward_the_player() {
    let arena = window_arena();
    let e = enemy_at(0, 0);
    let r = enemy_chase(&arena, &e, Point { x: 30_000, y: 40_000 }, 1_000, 0);
    assert_eq!(r.transform.facing, Point { x: 600, y: 800 });
    assert_eq!(r.transform.position, Point { x: 30_000, y: 40_000 });
    assert_eq!(r.id, 5);
}

#[test]
fn enemies_speed_up_with_elapsed_time() {
    let arena = window_arena();
    let e = enemy_at(0, 0);
    let r = enemy_chase(&arena, &e, Point { x: 300_000, y: 0 }, 1_000, 10_000);
    assert_eq!(r.transform.position, Point { x: 60_000, y: 0 });
}

#[test]
fn enemy_on_the_player_keeps_its_facing() {
    let arena = window_arena();
    let mut e = enemy_at(1_000, 1_000);
    e.transform.facing = Point { x: -1000, y: 0 };
    let mut all = vec![e, enemy_at(0, 1_000)];
    enemy_movement(&arena, &mut all, Point { x: 1_000, y: 1_000 }, 16, 0);
    assert_eq!(all[0], e);
    assert_eq!(all[1].transform.facing, Point { x: 1000, y: 0 });
}
