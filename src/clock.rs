//! The run's display clock and the text shown for it and for the player's life.
use vstd::prelude::*;

verus! {

/// The decimal digit `d` (for `d` in `0..10`).
pub open spec fn digit_char(d: nat) -> char {
    if d == 0 {
        '0'
    } else if d == 1 {
        '1'
    } else if d == 2 {
        '2'
    } else if d == 3 {
        '3'
    } else if d == 4 {
        '4'
    } else if d == 5 {
        '5'
    } else if d == 6 {
        '6'
    } else if d == 7 {
        '7'
    } else if d == 8 {
        '8'
    } else {
        '9'
    }
}

/// `n` written in decimal, without leading zeros.
pub open spec fn decimal(n: nat) -> Seq<char>
    decreases n,
{
    if n < 10 {
        seq![digit_char(n)]
    } else {
        decimal(n / 10) + seq![digit_char(n % 10)]
    }
}

/// `n` in decimal, padded with a zero to at least two digits.
pub open spec fn two_digits(n: nat) -> Seq<char> {
    if n < 10 {
        seq!['0'] + decimal(n)
    } else {
        decimal(n)
    }
}

/// The clock text for a counter at `count`: `minutes:seconds`, where the
/// counter goes up once per update and sixty updates make one second.
pub open spec fn clock_text(count: nat) -> Seq<char> {
    two_digits((count / 60) / 60) + seq![':'] + two_digits((count / 60) % 60)
}

fn digit_str(d: u64) -> (r: &'static str)
    requires
        d < 10,
    ensures
        r@ == seq![digit_char(d as nat)],
{
    proof {
        reveal_strlit("0");
        reveal_strlit("1");
        reveal_strlit("2");
        reveal_strlit("3");
        reveal_strlit("4");
        reveal_strlit("5");
        reveal_strlit("6");
        reveal_strlit("7");
        reveal_strlit("8");
        reveal_strlit("9");
    }
    if d == 0 {
        "0"
    } else if d == 1 {
        "1"
    } else if d == 2 {
        "2"
    } else if d == 3 {
        "3"
    } else if d == 4 {
        "4"
    } else if d == 5 {
        "5"
    } else if d == 6 {
        "6"
    } else if d == 7 {
        "7"
    } else if d == 8 {
        "8"
    } else {
        "9"
    }
}

/// Appends `n` in decimal to `out`.
pub fn write_decimal(out: &mut String, n: u64)
    ensures
        final(out)@ == old(out)@ + decimal(n as nat),
    decreases n,
{
    if n >= 10 {
        write_decimal(out, n / 10);
    }
    out.append(digit_str(n % 10));
    proof {
        assert(final(out)@ =~= old(out)@ + decimal(n as nat));
    }
}

/// Appends `n` in decimal, padded to two digits, to `out`.
pub fn write_two_digits(out: &mut String, n: u64)
    ensures
        final(out)@ == old(out)@ + two_digits(n as nat),
{
    if n < 10 {
        out.append(digit_str(0));
    }
    write_decimal(out, n);
    proof {
        assert(final(out)@ =~= old(out)@ + two_digits(n as nat));
    }
}

/// The text for a clock counter at `count`.
pub fn clock_display(count: u64) -> (r: String)
    ensures
        r@ == clock_text(count as nat),
{
    let mut out = String::new();
    write_two_digits(&mut out, (count / 60) / 60);
    proof {
        reveal_strlit(":");
    }
    out.append(":");
    write_two_digits(&mut out, (count / 60) % 60);
    proof {
        assert(out@ =~= clock_text(count as nat));
    }
    out
}

/// The player's life as shown on screen.
pub fn life_display(life: u64) -> (r: String)
    ensures
        r@ == decimal(life as nat),
{
    let mut out = String::new();
    write_decimal(&mut out, life);
    proof {
        assert(out@ =~= decimal(life as nat));
    }
    out
}

/// The display clock: a counter that goes up once per display update.
#[derive(Clone, Copy, Debug, PartialEq, Eq, Structural)]
pub struct GameTime {
    pub seconds: u64,
}

impl GameTime {
    /// A clock at zero.
    pub fn new() -> (r: GameTime)
        ensures
            r.seconds == 0,
    {
        GameTime { seconds: 0 }
    }

    /// Counts one display update and returns the text to show.
    pub fn update_game_time(&mut self) -> (r: String)
        requires
            old(self).seconds < u64::MAX,
        ensures
            final(self).seconds == old(self).seconds + 1,
            r@ == clock_text(final(self).seconds as nat),
    {
        self.seconds = self.seconds + 1;
        clock_display(self.seconds)
    }
}

} // verus!
