//! Projectiles live for a fixed time and vanish the tick their countdown runs out.
use vstd::prelude::*;
use crate::movement::Transform;
use crate::geometry::Point;
use crate::spawner::total_ms;

verus! {

/// How long a projectile lives, in milliseconds.
pub const BULLET_LIFETIME_MS: u64 = 5_000;

/// The wish to fire: where a projectile starts and how fast it goes.
#[derive(Clone, Copy, Debug, PartialEq, Eq, Structural)]
pub struct SpawnEvent {
    pub transform: Transform,
    pub velocity: Point,
}

/// A live projectile and the time it has left, in milliseconds.
#[derive(Clone, Copy, Debug, PartialEq, Eq, Structural)]
pub struct Projectile {
    pub id: u64,
    pub transform: Transform,
    pub velocity: Point,
    pub remaining_ms: u64,
}

/// A countdown at `remaining` after a tick of `dt`: `None` once it reaches
/// zero or below.
pub open spec fn countdown(remaining: nat, dt: nat) -> Option<nat> {
    if dt >= remaining {
        None
    } else {
        Some((remaining - dt) as nat)
    }
}

/// The projectiles still alive after a tick of `dt`, in their order, each
/// with `dt` less to live.
pub open spec fn sweep(ps: Seq<Projectile>, dt: nat) -> Seq<Projectile>
    decreases ps.len(),
{
    if ps.len() == 0 {
        Seq::empty()
    } else {
        let rest = sweep(ps.drop_last(), dt);
        let p = ps.last();
        match countdown(p.remaining_ms as nat, dt) {
            None => rest,
            Some(r) => rest.push(Projectile { remaining_ms: r as u64, ..p }),
        }
    }
}

impl Projectile {
    /// The projectile numbered `id` that `event` asks for, with `lifetime_ms` to live.
    pub fn fire(event: &SpawnEvent, id: u64, lifetime_ms: u64) -> (r: Projectile)
        ensures
            r.id == id,
            r.transform == event.transform,
            r.velocity == event.velocity,
            r.remaining_ms == lifetime_ms,
    {
        Projectile {
            id,
            transform: event.transform,
            velocity: event.velocity,
            remaining_ms: lifetime_ms,
        }
    }
}

/// Counts every projectile down by `dt_ms` and removes those whose time ran
/// out; the others keep their order.
pub fn expire_projectiles(projectiles: &mut Vec<Projectile>, dt_ms: u32)
    ensures
        final(projectiles)@ == sweep(old(projectiles)@, dt_ms as nat),
{
    let ghost before = projectiles@;
    let mut kept: Vec<Projectile> = Vec::new();
    let mut i: usize = 0;
    while i < projectiles.len()
        invariant
            projectiles@ == before,
            i <= before.len(),
            kept@ == sweep(before.take(i as int), dt_ms as nat),
        decreases before.len() - i,
    {
        let p = projectiles[i];
        proof {
            assert(before.take(i as int + 1).drop_last() =~= before.take(i as int));
            assert(before.take(i as int + 1).last() == p);
        }
        if p.remaining_ms > dt_ms as u64 {
            kept.push(Projectile { remaining_ms: p.remaining_ms - dt_ms as u64, ..p });
        }
        i = i + 1;
    }
    proof {
        assert(before.take(before.len() as int) =~= before);
    }
    *projectiles = kept;
}

/// The projectiles still alive after the ticks `dts`, in turn.
pub open spec fn sweep_run(ps: Seq<Projectile>, dts: Seq<u32>) -> Seq<Projectile>
    decreases dts.len(),
{
    if dts.len() == 0 {
        ps
    } else {
        sweep(sweep_run(ps, dts.drop_last()), dts.last() as nat)
    }
}

/// A projectile fired with a lifetime lives exactly that long: it stays,
/// with the rest of its lifetime left, while the ticks add up to less, and
/// is gone from the tick on which they reach it, never before.
pub proof fn lemma_lifetime(p: Projectile, dts: Seq<u32>)
    requires
        p.remaining_ms > 0,
    ensures
        total_ms(dts) < p.remaining_ms ==> sweep_run(seq![p], dts) == seq![
            Projectile { remaining_ms: (p.remaining_ms - total_ms(dts)) as u64, ..p },
        ],
        total_ms(dts) >= p.remaining_ms ==> sweep_run(seq![p], dts) == Seq::<Projectile>::empty(),
    decreases dts.len(),
{
    if dts.len() > 0 {
        lemma_lifetime(p, dts.drop_last());
        let before = sweep_run(seq![p], dts.drop_last());
        let dt = dts.last() as nat;
        if total_ms(dts.drop_last()) < p.remaining_ms {
            let q = Projectile {
                remaining_ms: (p.remaining_ms - total_ms(dts.drop_last())) as u64,
                ..p
            };
            assert(before.drop_last() =~= Seq::<Projectile>::empty());
            assert(sweep(Seq::<Projectile>::empty(), dt) == Seq::<Projectile>::empty());
            if dt < q.remaining_ms {
                assert(Seq::<Projectile>::empty().push(
                    Projectile { remaining_ms: (q.remaining_ms - dt) as u64, ..q },
                ) =~= seq![Projectile { remaining_ms: (p.remaining_ms - total_ms(dts)) as u64, ..p }]);
            }
        } else {
            assert(sweep(Seq::<Projectile>::empty(), dt) == Seq::<Projectile>::empty());
        }
    }
}

} // verus!
