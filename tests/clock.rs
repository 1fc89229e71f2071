use escape_from_hell::clock::{clock_display, life_display, GameTime};

#[test]
fn clock_after_600_updates() {
    let mut clock = GameTime::new();
    let mut text = String::new();
    for _ in 0..600 {
        text = clock.update_game_time();
    }
    assert_eq!(clock.seconds, 600);
    assert_eq!(text, "00:10");
}

#[test]
fn clock_after_3600_updates_shows_one_minute() {
    let mut clock = GameTime::new();
    let mut text = String::new();
    for _ in 0..3600 {
        text = clock.update_game_time();
    }
    assert_eq!(text, "01:00");
}

#[test]
fn clock_formats() {
    assert_eq!(clock_display(0), "00:00");
    assert_eq!(clock_display(59), "00:00");
    assert_eq!(clock_display(60), "00:01");
    assert_eq!(clock_display(60 * 59), "00:59");
    assert_eq!(clock_display(60 * 61), "01:01");
    assert_eq!(clock_display(60 * 60 * 123 + 60 * 7), "123:07");
}

#[test]
fn life_text() {
    assert_eq!(life_display(10), "10");
    assert_eq!(life_display(0), "0");
    assert_eq!(life_display(18_446_744_073_709_551_615), "18446744073709551615");
}
