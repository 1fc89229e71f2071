//! Per-tick motion of the player and of the enemies that chase it.
use vstd::prelude::*;
use crate::geometry::{
    advance, advance_spec, faces, heading_spec, heading_toward, lemma_heading_faces, Arena, Point,
    UNIT,
};

verus! {

/// Speed the player moves at under full input, in thousandths of a pixel per second.
pub const PLAYER_SPEED: u64 = 300_000;

/// Life the player starts a run with.
pub const PLAYER_LIFE: u64 = 10;

/// Base speed of every enemy, in thousandths of a pixel per second.
pub const ENEMY_BASE_SPEED: u64 = 50_000;

/// Where a body stands and which way it faces (a heading in thousandths).
#[derive(Clone, Copy, Debug, PartialEq, Eq, Structural)]
pub struct Transform {
    pub position: Point,
    pub facing: Point,
}

/// The player's own state. Its life is spent by contacts; once `defeated`
/// is set the run is over and life stays at zero.
#[derive(Clone, Copy, Debug, PartialEq, Eq, Structural)]
pub struct Player {
    pub move_speed: u64,
    pub life: u64,
    pub defeated: bool,
}

impl Player {
    pub open spec fn wf(self) -> bool {
        self.defeated ==> self.life == 0
    }

    /// The player at the start of a run.
    pub fn new() -> (r: Player)
        ensures
            r.move_speed == PLAYER_SPEED,
            r.life == PLAYER_LIFE,
            !r.defeated,
            r.wf(),
    {
        Player { move_speed: PLAYER_SPEED, life: PLAYER_LIFE, defeated: false }
    }
}

/// The look (and, where it differs, the behaviour) an enemy was spawned with.
#[derive(Clone, Copy, Debug, PartialEq, Eq, Structural)]
pub enum EnemyKind {
    Cyan,
    Yellow,
    Red,
}

/// An enemy's own state.
#[derive(Clone, Copy, Debug, PartialEq, Eq, Structural)]
pub struct Enemy {
    pub move_speed: u64,
    pub kind: EnemyKind,
}

/// A live enemy: its entity number, its state and where it stands.
#[derive(Clone, Copy, Debug, PartialEq, Eq, Structural)]
pub struct EnemyBody {
    pub id: u64,
    pub enemy: Enemy,
    pub transform: Transform,
}

/// The player after one tick of input `dir` (`None` when no input came):
/// it turns to face the input and moves along it; with no or zero input it
/// keeps both position and facing.
pub open spec fn player_step(
    arena: Arena,
    player: Player,
    t: Transform,
    input: Option<Point>,
    dt_ms: int,
) -> Transform {
    match input {
        Some(dir) if dir != (Point { x: 0, y: 0 }) => Transform {
            position: advance_spec(arena, t.position, dir, dt_ms, player.move_speed as int),
            facing: heading_spec(dir.x as int, dir.y as int),
        },
        _ => t,
    }
}

/// Effective speed of an enemy once `elapsed_ms` of the run have passed:
/// enemies speed up by one pixel per second for every second of the run.
pub open spec fn enemy_speed(e: Enemy, elapsed_ms: int) -> int {
    e.move_speed + elapsed_ms
}

/// An enemy after one tick of chasing a player at `target`: it turns toward
/// the player and moves along that heading; where the two coincide it stays
/// as it was.
pub open spec fn enemy_step(
    arena: Arena,
    b: EnemyBody,
    target: Point,
    dt_ms: int,
    elapsed_ms: int,
) -> EnemyBody {
    if b.transform.position == target {
        b
    } else {
        let h = heading_spec(
            target.x - b.transform.position.x,
            target.y - b.transform.position.y,
        );
        EnemyBody {
            transform: Transform {
                position: advance_spec(
                    arena,
                    b.transform.position,
                    h,
                    dt_ms,
                    enemy_speed(b.enemy, elapsed_ms),
                ),
                facing: h,
            },
            ..b
        }
    }
}

/// Moves the player for one tick along the input vector (thousandths per axis).
pub fn player_movement(
    arena: &Arena,
    player: &Player,
    transform: &mut Transform,
    input: Option<Point>,
    dt_ms: u32,
)
    requires
        arena.wf(),
        arena.contains(old(transform).position),
        input matches Some(dir) ==> dir.within(UNIT as int),
    ensures
        *final(transform) == player_step(*arena, *player, *old(transform), input, dt_ms as int),
        arena.contains(final(transform).position),
{
    if let Some(dir) = input {
        if let Some(h) = heading_toward(Point { x: 0, y: 0 }, dir) {
            let position = advance(arena, transform.position, dir, dt_ms, player.move_speed as u128);
            *transform = Transform { position, facing: h };
        }
    }
}

/// Turns and moves one enemy toward the player.
pub fn enemy_chase(
    arena: &Arena,
    body: &EnemyBody,
    target: Point,
    dt_ms: u32,
    elapsed_ms: u64,
) -> (r: EnemyBody)
    requires
        arena.wf(),
        arena.contains(body.transform.position),
        arena.contains(target),
    ensures
        r == enemy_step(*arena, *body, target, dt_ms as int, elapsed_ms as int),
        arena.contains(r.transform.position),
{
    match heading_toward(body.transform.position, target) {
        None => *body,
        Some(h) => {
            let speed = body.enemy.move_speed as u128 + elapsed_ms as u128;
            let position = advance(arena, body.transform.position, h, dt_ms, speed);
            EnemyBody { transform: Transform { position, facing: h }, ..*body }
        },
    }
}

/// Moves every enemy one tick toward the player standing at `target`.
pub fn enemy_movement(
    arena: &Arena,
    enemies: &mut Vec<EnemyBody>,
    target: Point,
    dt_ms: u32,
    elapsed_ms: u64,
)
    requires
        arena.wf(),
        arena.contains(target),
        forall|i: int| 0 <= i < old(enemies).len() ==> arena.contains(#[trigger] old(enemies)[i].transform.position),
    ensures
        final(enemies).len() == old(enemies).len(),
        forall|i: int|
            0 <= i < final(enemies).len() ==> #[trigger] final(enemies)[i] == enemy_step(
                *arena,
                old(enemies)[i],
                target,
                dt_ms as int,
                elapsed_ms as int,
            ),
        forall|i: int| 0 <= i < final(enemies).len() ==> arena.contains(#[trigger] final(enemies)[i].transform.position),
{
    let ghost before = enemies@;
    let n = enemies.len();
    let mut i: usize = 0;
    while i < n
        invariant
            arena.wf(),
            arena.contains(target),
            n == before.len(),
            enemies@.len() == n,
            i <= n,
            forall|j: int| 0 <= j < n ==> arena.contains(#[trigger] before[j].transform.position),
            forall|j: int|
                0 <= j < i ==> #[trigger] enemies@[j] == enemy_step(
                    *arena,
                    before[j],
                    target,
                    dt_ms as int,
                    elapsed_ms as int,
                ),
            forall|j: int| 0 <= j < i ==> arena.contains(#[trigger] enemies@[j].transform.position),
            forall|j: int| i <= j < n ==> #[trigger] enemies@[j] == before[j],
        decreases n - i,
    {
        let moved = enemy_chase(arena, &enemies[i], target, dt_ms, elapsed_ms);
        enemies.set(i, moved);
        i = i + 1;
    }
}

/// Every tick leaves the player inside the arena, whatever the input.
pub proof fn lemma_player_stays_in_arena(
    arena: Arena,
    player: Player,
    t: Transform,
    input: Option<Point>,
    dt_ms: int,
)
    requires
        arena.wf(),
        arena.contains(t.position),
    ensures
        arena.contains(player_step(arena, player, t, input, dt_ms).position),
{
}

/// After a tick every enemy faces the player's position at that tick (up to
/// rounding), except one standing on the player, which keeps its facing.
pub proof fn lemma_enemy_faces_player(
    arena: Arena,
    b: EnemyBody,
    target: Point,
    dt_ms: int,
    elapsed_ms: int,
)
    requires
        arena.wf(),
        arena.contains(b.transform.position),
        arena.contains(target),
    ensures
        b.transform.position == target ==> enemy_step(arena, b, target, dt_ms, elapsed_ms).transform.facing
            == b.transform.facing,
        b.transform.position != target ==> faces(
            enemy_step(arena, b, target, dt_ms, elapsed_ms).transform.facing,
            target.x - b.transform.position.x,
            target.y - b.transform.position.y,
        ),
{
    if b.transform.position != target {
        lemma_heading_faces(
            target.x - b.transform.position.x,
            target.y - b.transform.position.y,
        );
    }
}

} // verus!
