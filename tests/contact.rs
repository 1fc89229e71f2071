use escape_from_hell::contact::{player_contact, ContactEvent, GameOverEvent};
use escape_from_hell::movement::Player;

const PLAYER: u64 = 7;

fn hit(other: u64) -> ContactEvent {
    ContactEvent { collider1: PLAYER, collider2: other }
}

#[test]
fn ten_contacts_over_ten_ticks_end_the_run() {
    let mut player = Player::new();
    assert_eq!(player.life, 10);
    for tick in 1..=10u64 {
        let over = player_contact(&mut player, PLAYER, &vec![hit(100 + tick)]);
        assert_eq!(player.life, 10 - tick);
        if tick < 10 {
            assert_eq!(over, None);
        } else {
            assert_eq!(over, Some(GameOverEvent(PLAYER)));
        }
    }
    assert!(player.defeated);
    let over = player_contact(&mut player, PLAYER, &vec![hit(200)]);
    assert_eq!(player.life, 0);
    assert_eq!(over, None);
}

#[test]
fn contact_on_either_side_counts() {
    let mut player = Player::new();
    let events = vec![
        ContactEvent { collider1: 3, collider2: PLAYER },
        ContactEvent { collider1: PLAYER, collider2: 4 },
    ];
    assert_eq!(player_contact(&mut player, PLAYER, &events), None);
    assert_eq!(player.life, 8);
}

#[test]
fn contacts_between_others_are_ignored() {
    let mut player = Player::new();
    let events = vec![ContactEvent { collider1: 3, collider2: 4 }];
    assert_eq!(player_contact(&mut player, PLAYER, &events), None);
    assert_eq!(player.life, 10);
    assert!(!player.defeated);
}

#[test]
fn several_contacts_in_one_tick_all_apply_and_signal_once() {
    let mut player = Player::new();
    let events: Vec<ContactEvent> = (0..15u64).map(hit).collect();
    let over = player_contact(&mut player, PLAYER, &events);
    assert_eq!(over, Some(GameOverEvent(PLAYER)));
    assert_eq!(player.life, 0);
    assert!(player.defeated);
}

#[test]
fn life_never_rises_and_one_game_over_per_run() {
    let mut player = Player::new();
    let mut signals = 0;
    let mut last = player.life;
    for tick in 0..30u64 {
        let events: Vec<ContactEvent> = (0..(tick % 3)).map(hit).collect();
        if player_contact(&mut player, PLAYER, &events).is_some() {
            signals += 1;
        }
        assert!(player.life <= last);
        last = player.life;
    }
    assert_eq!(signals, 1);
}

#[test]
fn player_with_no_life_left_falls_at_first_contact() {
    let mut player = Player { move_speed: 1, life: 0, defeated: false };
    let over = player_contact(&mut player, PLAYER, &vec![hit(1)]);
    assert_eq!(over, Some(GameOverEvent(PLAYER)));
    assert!(player.defeated);
}
