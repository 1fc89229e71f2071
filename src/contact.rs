//! Contact resolution: contacts that name the player spend its life, and the
//! run ends with a single game-over signal.
//!
//! A contact takes one point of life while any is left; the contact that
//! leaves the player with none (or that arrives while it already has none)
//! defeats it and raises the game-over signal. A defeated player is past
//! harm: later contacts change nothing.
use vstd::prelude::*;
use crate::movement::Player;

verus! {

/// Two entities whose shapes touched during a tick.
#[derive(Clone, Copy, Debug, PartialEq, Eq, Structural)]
pub struct ContactEvent {
    pub collider1: u64,
    pub collider2: u64,
}

/// The run is over; the field names the entity that lost.
#[derive(Clone, Copy, Debug, PartialEq, Eq, Structural)]
pub struct GameOverEvent(pub u64);

/// The contact names entity `id` on either side.
pub open spec fn touches(e: ContactEvent, id: u64) -> bool {
    e.collider1 == id || e.collider2 == id
}

/// One contact against the player: the player afterwards, and whether it
/// raised the game-over signal.
pub open spec fn hit(p: Player) -> (Player, bool) {
    if p.defeated {
        (p, false)
    } else if p.life <= 1 {
        (Player { life: 0, defeated: true, ..p }, true)
    } else {
        (Player { life: (p.life - 1) as u64, ..p }, false)
    }
}

/// The player after the contacts `events` in order, and how many game-over
/// signals they raised.
pub open spec fn resolve(p: Player, events: Seq<ContactEvent>, id: u64) -> (Player, nat)
    decreases events.len(),
{
    if events.len() == 0 {
        (p, 0)
    } else {
        let (q, n) = resolve(p, events.drop_last(), id);
        if touches(events.last(), id) {
            let (r, over) = hit(q);
            (r, if over { n + 1 } else { n })
        } else {
            (q, n)
        }
    }
}

/// How many of `events` name entity `id`.
pub open spec fn contacts(events: Seq<ContactEvent>, id: u64) -> nat
    decreases events.len(),
{
    if events.len() == 0 {
        0
    } else {
        contacts(events.drop_last(), id) + if touches(events.last(), id) {
            1nat
        } else {
            0nat
        }
    }
}

/// Life after `k` contacts from `life`: one point per contact, never below zero.
pub open spec fn life_after(life: nat, k: nat) -> nat {
    if k >= life {
        0
    } else {
        (life - k) as nat
    }
}

/// Applies this tick's contacts to the player whose entity is `player_entity`,
/// in order. Returns the game-over signal if one of them defeated the player.
pub fn player_contact(player: &mut Player, player_entity: u64, events: &Vec<ContactEvent>) -> (r:
    Option<GameOverEvent>)
    requires
        old(player).wf(),
    ensures
        final(player).wf(),
        *final(player) == resolve(*old(player), events@, player_entity).0,
        r is Some <==> resolve(*old(player), events@, player_entity).1 == 1,
        r matches Some(g) ==> g.0 == player_entity,
{
    let ghost p0 = *player;
    let mut over: Option<GameOverEvent> = None;
    let mut i: usize = 0;
    proof {
        lemma_resolve(p0, events@.take(0), player_entity);
        assert(events@.take(0) =~= Seq::<ContactEvent>::empty());
    }
    while i < events.len()
        invariant
            i <= events.len(),
            player.wf(),
            *player == resolve(p0, events@.take(i as int), player_entity).0,
            over is Some <==> resolve(p0, events@.take(i as int), player_entity).1 == 1,
            over matches Some(g) ==> g.0 == player_entity,
            p0.wf(),
        decreases events.len() - i,
    {
        let e = events[i];
        proof {
            let s = events@.take(i as int + 1);
            assert(s.drop_last() =~= events@.take(i as int));
            assert(s.last() == e);
            lemma_resolve(p0, events@.take(i as int), player_entity);
            lemma_resolve(p0, s, player_entity);
        }
        if e.collider1 == player_entity || e.collider2 == player_entity {
            if !player.defeated {
                if player.life > 1 {
                    player.life = player.life - 1;
                } else {
                    player.life = 0;
                    player.defeated = true;
                    over = Some(GameOverEvent(player_entity));
                }
            }
        }
        i = i + 1;
    }
    proof {
        assert(events@.take(events@.len() as int) =~= events@);
    }
    over
}

/// What contacts do to a well-formed player: life only falls, by one per
/// contact that names the player while life is left; the player is defeated
/// once contacts have used up its life (or one came while it had none); and
/// at most one game-over signal is raised, exactly when the player goes from
/// standing to defeated.
pub proof fn lemma_resolve(p: Player, events: Seq<ContactEvent>, id: u64)
    requires
        p.wf(),
    ensures
        ({
            let (q, n) = resolve(p, events, id);
            let k = contacts(events, id);
            &&& q.wf()
            &&& q.move_speed == p.move_speed
            &&& q.life <= p.life
            &&& q.life == life_after(p.life as nat, k)
            &&& q.defeated == (p.defeated || (k > 0 && k >= p.life))
            &&& n <= 1
            &&& (n == 1 <==> (!p.defeated && q.defeated))
        }),
    decreases events.len(),
{
    if events.len() > 0 {
        lemma_resolve(p, events.drop_last(), id);
    }
}

/// The player and the game-over signals after a run whose ticks bring the
/// contacts `ticks[0]`, `ticks[1]`, ... in turn.
pub open spec fn run(p: Player, ticks: Seq<Seq<ContactEvent>>, id: u64) -> (Player, nat)
    decreases ticks.len(),
{
    if ticks.len() == 0 {
        (p, 0)
    } else {
        let (q, n) = run(p, ticks.drop_last(), id);
        let (r, m) = resolve(q, ticks.last(), id);
        (r, n + m)
    }
}

/// Over a whole run, life never rises, and the game-over signal is raised at
/// most once: exactly when the run defeats a player that started it standing.
pub proof fn lemma_single_game_over(p: Player, ticks: Seq<Seq<ContactEvent>>, id: u64)
    requires
        p.wf(),
    ensures
        run(p, ticks, id).0.wf(),
        run(p, ticks, id).0.life <= p.life,
        p.defeated ==> run(p, ticks, id).0.defeated,
        run(p, ticks, id).1 <= 1,
        run(p, ticks, id).1 == 1 <==> (!p.defeated && run(p, ticks, id).0.defeated),
    decreases ticks.len(),
{
    if ticks.len() > 0 {
        lemma_single_game_over(p, ticks.drop_last(), id);
        let q = run(p, ticks.drop_last(), id).0;
        lemma_resolve(q, ticks.last(), id);
    }
}

} // verus!
