use escape_from_hell::contact::{ContactEvent, GameOverEvent};
use escape_from_hell::geometry::Point;
use escape_from_hell::world::World;

#[test]
fn world_starts_with_one_player_at_the_centre() {
    let w = World::new(0);
    assert_eq!(w.player.life, 10);
    assert_eq!(w.player_transform.position, Point { x: 0, y: 0 });
    assert!(w.enemies.is_empty());
    assert!(w.projectiles.is_empty());
}

#[test]
fn world_contacts_end_the_run_once() {
    let mut w = World::new(0);
    let id = w.player_id;
    let mut signals = Vec::new();
    for t in 0..12u64 {
        let events = vec![ContactEvent { collider1: 50 + t, collider2: id }];
        if let Some(g) = w.resolve_contacts(&events) {
            signals.push(g);
        }
    }
    assert_eq!(signals, vec![GameOverEvent(id)]);
    assert_eq!(w.player.life, 0);
}

#[test]
fn enemies_close_in_on_the_player() {
    let mut w = World::new(11);
    w.step(None, 10_000);
    assert_eq!(w.enemies.len(), 3);
    let dist = |w: &World| -> i64 {
        w.enemies.iter().map(|e| e.transform.position.x.abs() + e.transform.position.y.abs()).sum()
    };
    let before = dist(&w);
    w.step(None, 100);
    assert!(dist(&w) < before);
}
