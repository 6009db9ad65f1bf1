use vstd::prelude::*;

use crate::geometry::{
    overlaps, rect_at, rectangles_collision_axis_aligned, CollisionRectangle, Vec2, Vec3,
    SUB_UNITS_PER_UNIT,
};
use crate::random::random_in_range;
use crate::physics::{FIXED_STEP_NANOS, PhysicsMovementBundle, PhysicalTranslation, PreviousPhysicalTranslation, RectangleCollider, Velocity};

verus! {

/// How many world units per second the player moves.
pub const PLAYER_SPEED: i64 = 500;

pub const PLAYER_COLLIDER_WIDTH: i64 = 220;

pub const PLAYER_COLLIDER_HEIGHT: i64 = 50;

/// Where the player's hitbox sits relative to the boat, in sub-units.
pub const PLAYER_COLLIDER_OFFSET_X: i64 = 0;

pub const PLAYER_COLLIDER_OFFSET_Y: i64 = -120 * SUB_UNITS_PER_UNIT;

/// Where the player starts, in sub-units.
pub const PLAYER_START_X: i64 = 0;

pub const PLAYER_START_Y: i64 = -60 * SUB_UNITS_PER_UNIT;

pub const PLAYER_START_Z: i64 = 100 * SUB_UNITS_PER_UNIT;

/// How many seagulls may be on screen at once.
pub const MAX_SEAGULLS: i32 = 5;

/// Points for one caught seagull.
pub const CATCH_REWARD: i32 = 4;

pub const SEAGULL_WIDTH: i64 = 64;

pub const SEAGULL_HEIGHT: i64 = 50;

/// Seagulls start above the visible area, in sub-units.
pub const SEAGULL_START_Y: i64 = 600 * SUB_UNITS_PER_UNIT;

pub const SEAGULL_START_Z: i64 = 1 * SUB_UNITS_PER_UNIT;

/// Vertical velocity of a falling seagull, in world units per second.
pub const SEAGULL_FALL_VELOCITY: i64 = -280;

/// Seagulls start at most this far left or right of the centre, in sub-units.
pub const SPAWN_X_LIMIT: i64 = 850 * SUB_UNITS_PER_UNIT;

/// A seagull below this height (sub-units) has fallen off the screen: 300
/// units above the bottom edge of a 1080 units high screen.
pub const BOTTOM_LIMIT: i64 = (300 - 540) * SUB_UNITS_PER_UNIT;

/// Bounds of the delay between two spawns, in milliseconds.
pub const MIN_SPAWN_MILLIS: u64 = 100;

pub const MAX_SPAWN_MILLIS: u64 = 1300;

pub const NANOS_PER_MILLI: u64 = 1_000_000;

/// Which way the boat is drawn.
#[derive(Clone, Copy, Debug, PartialEq, Eq, Structural)]
pub enum Facing {
    Left,
    Right,
}

/// The boat: moved by the keyboard, it catches seagulls.
#[derive(Clone, Copy, Debug, PartialEq, Eq, Structural)]
pub struct Player {
    pub movement: PhysicsMovementBundle,
    pub collider: RectangleCollider,
    pub facing: Facing,
}

/// A falling seagull, known by its entity number.
#[derive(Clone, Copy, Debug, PartialEq, Eq, Structural)]
pub struct Seagull {
    pub entity: u64,
    pub movement: PhysicsMovementBundle,
    pub collider: RectangleCollider,
}

/// How many seagulls are alive.
#[derive(Clone, Copy, Debug, PartialEq, Eq, Structural)]
pub struct SeagullCounter(pub i32);

/// The re-arming timer that paces spawns: it has run `elapsed_nanos` of
/// `duration_nanos`.
#[derive(Clone, Copy, Debug, PartialEq, Eq, Structural)]
pub struct SeagullSpawnTimer {
    pub elapsed_nanos: u64,
    pub duration_nanos: u64,
}

/// The points scored so far.
#[derive(Clone, Copy, Debug, PartialEq, Eq, Structural)]
pub struct CurrentScore(pub i32);

/// The seagull with this entity number was caught, worth this many points.
#[derive(Clone, Copy, Debug, PartialEq, Eq, Structural)]
pub struct SeagullCaught(pub u64, pub i32);

impl SeagullSpawnTimer {
    /// A timer that has just been armed for `duration_nanos`.
    pub fn new(duration_nanos: u64) -> (r: SeagullSpawnTimer)
        ensures
            r == (SeagullSpawnTimer { elapsed_nanos: 0, duration_nanos }),
    {
        SeagullSpawnTimer { elapsed_nanos: 0, duration_nanos }
    }

    /// The duration lies in the spawn delay bounds and has not yet run out.
    pub open spec fn wf(self) -> bool {
        &&& MIN_SPAWN_MILLIS * NANOS_PER_MILLI <= self.duration_nanos
        &&& self.duration_nanos <= MAX_SPAWN_MILLIS * NANOS_PER_MILLI
        &&& self.elapsed_nanos < self.duration_nanos
    }

    /// Whether advancing by `delta_nanos` makes the timer run out.
    pub open spec fn finishes(self, delta_nanos: u64) -> bool {
        self.elapsed_nanos + delta_nanos >= self.duration_nanos
    }

    /// Advances the timer by `delta_nanos`; when it runs out it starts again
    /// from zero, and the result says so.
    pub fn tick(&mut self, delta_nanos: u64) -> (finished: bool)
        requires
            old(self).elapsed_nanos < old(self).duration_nanos,
        ensures
            finished == old(self).finishes(delta_nanos),
            final(self).duration_nanos == old(self).duration_nanos,
            finished ==> final(self).elapsed_nanos == 0,
            !finished ==> final(self).elapsed_nanos == old(self).elapsed_nanos + delta_nanos,
    {
        if delta_nanos >= self.duration_nanos - self.elapsed_nanos {
            self.elapsed_nanos = 0;
            true
        } else {
            self.elapsed_nanos = self.elapsed_nanos + delta_nanos;
            false
        }
    }
}

/// The whole game state, as the contracts see it.
pub struct GameView {
    pub player: Player,
    pub seagulls: Seq<Seagull>,
    pub counter: SeagullCounter,
    pub timer: SeagullSpawnTimer,
    pub score: CurrentScore,
    pub events: Seq<SeagullCaught>,
    pub next_entity: u64,
}

/// The state of one game: the player, the live seagulls in order of their
/// entity numbers, the spawn state, the score and the catches not yet
/// scored.
pub struct Game {
    pub player: Player,
    pub seagulls: Vec<Seagull>,
    pub counter: SeagullCounter,
    pub timer: SeagullSpawnTimer,
    pub score: CurrentScore,
    pub events: Vec<SeagullCaught>,
    pub next_entity: u64,
}

impl View for Game {
    type V = GameView;

    open spec fn view(&self) -> GameView {
        GameView {
            player: self.player,
            seagulls: self.seagulls@,
            counter: self.counter,
            timer: self.timer,
            score: self.score,
            events: self.events@,
            next_entity: self.next_entity,
        }
    }
}

/// The player's hitbox.
pub open spec fn player_rect(p: Player) -> CollisionRectangle {
    rect_at(
        p.movement.physical_translation.0.spec_xy(),
        p.collider.width as int,
        p.collider.height as int,
    ).moved(Vec2 { x: PLAYER_COLLIDER_OFFSET_X, y: PLAYER_COLLIDER_OFFSET_Y })
}

/// A seagull's hitbox.
pub open spec fn seagull_rect(s: Seagull) -> CollisionRectangle {
    rect_at(
        s.movement.physical_translation.0.spec_xy(),
        s.collider.width as int,
        s.collider.height as int,
    )
}

/// The seagull is still catchable and touches the player's hitbox.
pub open spec fn is_caught(player: CollisionRectangle, s: Seagull) -> bool {
    s.collider.enabled && overlaps(player, seagull_rect(s))
}

/// The seagull with its collider switched off.
pub open spec fn disabled(s: Seagull) -> Seagull {
    Seagull { collider: RectangleCollider { enabled: false, ..s.collider }, ..s }
}

/// The seagull after a collision test against `player`.
pub open spec fn after_test(player: CollisionRectangle, s: Seagull) -> Seagull {
    if is_caught(player, s) {
        disabled(s)
    } else {
        s
    }
}

/// The catches that a collision test against `player` reports, in order.
pub open spec fn caught_events(player: CollisionRectangle, s: Seq<Seagull>) -> Seq<SeagullCaught>
    decreases s.len(),
{
    if s.len() == 0 {
        Seq::empty()
    } else {
        let rest = caught_events(player, s.drop_last());
        if is_caught(player, s.last()) {
            rest.push(SeagullCaught(s.last().entity, CATCH_REWARD))
        } else {
            rest
        }
    }
}

/// Some event names the entity.
pub open spec fn named(events: Seq<SeagullCaught>, entity: u64) -> bool {
    exists|k: int| 0 <= k < events.len() && events[k].0 == entity
}

/// The seagulls that no event names.
pub open spec fn uncaught(s: Seq<Seagull>, events: Seq<SeagullCaught>) -> Seq<Seagull>
    decreases s.len(),
{
    if s.len() == 0 {
        Seq::empty()
    } else {
        let rest = uncaught(s.drop_last(), events);
        if named(events, s.last().entity) {
            rest
        } else {
            rest.push(s.last())
        }
    }
}

/// A seagull below the bottom of the screen.
pub open spec fn fell_off(s: Seagull) -> bool {
    s.movement.physical_translation.0.y < BOTTOM_LIMIT
}

/// The seagulls that have not fallen off the screen.
pub open spec fn on_screen(s: Seq<Seagull>) -> Seq<Seagull>
    decreases s.len(),
{
    if s.len() == 0 {
        Seq::empty()
    } else {
        let rest = on_screen(s.drop_last());
        if fell_off(s.last()) {
            rest
        } else {
            rest.push(s.last())
        }
    }
}

/// A seagull that has just appeared at horizontal position `start_x`.
pub open spec fn new_seagull(entity: u64, start_x: i64) -> Seagull {
    let start = Vec3 { x: start_x, y: SEAGULL_START_Y, z: SEAGULL_START_Z };
    Seagull {
        entity,
        movement: PhysicsMovementBundle {
            physical_translation: PhysicalTranslation(start),
            velocity: Velocity(Vec3 { x: 0, y: SEAGULL_FALL_VELOCITY, z: 0 }),
            previous_physical_translation: PreviousPhysicalTranslation(start),
        },
        collider: RectangleCollider { enabled: true, width: SEAGULL_WIDTH, height: SEAGULL_HEIGHT },
    }
}

/// Every seagull is well formed and has an entity number below `next`;
/// entity numbers increase along the sequence.
pub open spec fn seagulls_wf(v: Seq<Seagull>, next: u64) -> bool {
    &&& forall|i: int|
        0 <= i < v.len() ==> {
            &&& #[trigger] v[i].movement.wf()
            &&& v[i].collider.wf()
            &&& v[i].entity < next
        }
    &&& forall|i: int, j: int| 0 <= i < j < v.len() ==> v[i].entity < v[j].entity
}

/// Seagulls that keep their entity numbers and colliders, and either keep
/// their motion or advance it by one step, stay well formed.
proof fn lemma_seagulls_moved(g: GameView, v: Seq<Seagull>)
    requires
        g.wf(),
        v.len() == g.seagulls.len(),
        forall|i: int|
            0 <= i < v.len() ==> {
                &&& #[trigger] v[i].entity == g.seagulls[i].entity
                &&& v[i].collider == g.seagulls[i].collider
                &&& (v[i].movement == g.seagulls[i].movement || v[i].movement
                    == g.seagulls[i].movement.advanced())
            },
    ensures
        seagulls_wf(v, g.next_entity),
{
    assert forall|i: int| 0 <= i < v.len() implies {
        &&& #[trigger] v[i].movement.wf()
        &&& v[i].collider.wf()
        &&& v[i].entity < g.next_entity
    } by {
        assert(g.seagulls[i].movement.wf());
        assert(v[i].entity == g.seagulls[i].entity);
    }
    assert forall|i: int, j: int| 0 <= i < j < v.len() implies v[i].entity < v[j].entity by {
        assert(v[i].entity == g.seagulls[i].entity);
        assert(v[j].entity == g.seagulls[j].entity);
    }
}

/// A well-formed seagull with the next entity number, added at the end,
/// keeps the seagulls well formed.
proof fn lemma_seagull_pushed(g: GameView, s: Seagull)
    requires
        g.wf(),
        g.next_entity < u64::MAX,
        s.movement.wf(),
        s.collider.wf(),
        s.entity == g.next_entity,
    ensures
        seagulls_wf(g.seagulls.push(s), (g.next_entity + 1) as u64),
{
    let v = g.seagulls.push(s);
    assert forall|i: int| 0 <= i < v.len() implies {
        &&& #[trigger] v[i].movement.wf()
        &&& v[i].collider.wf()
        &&& v[i].entity < g.next_entity + 1
    } by {
        if i < v.len() - 1 {
            assert(v[i] == g.seagulls[i]);
            assert(g.seagulls[i].movement.wf());
        }
    }
    assert forall|i: int, j: int| 0 <= i < j < v.len() implies v[i].entity < v[j].entity by {
        assert(g.seagulls[i].movement.wf());
        if j < v.len() - 1 {
            assert(g.seagulls[j].movement.wf());
        }
    }
}

impl GameView {
    /// The state after the spawn step, given the step's length and, should
    /// a seagull appear, its horizontal position and the next delay.
    pub open spec fn spawned(self, delta_nanos: u64, start_x: i64, next_millis: u64) -> GameView {
        if self.counter.0 >= MAX_SEAGULLS {
            self
        } else if !self.timer.finishes(delta_nanos) {
            GameView {
                timer: SeagullSpawnTimer {
                    elapsed_nanos: (self.timer.elapsed_nanos + delta_nanos) as u64,
                    ..self.timer
                },
                ..self
            }
        } else {
            GameView {
                seagulls: self.seagulls.push(new_seagull(self.next_entity, start_x)),
                counter: SeagullCounter((self.counter.0 + 1) as i32),
                timer: SeagullSpawnTimer {
                    elapsed_nanos: 0,
                    duration_nanos: (next_millis * NANOS_PER_MILLI) as u64,
                },
                next_entity: (self.next_entity + 1) as u64,
                ..self
            }
        }
    }

    /// Whether the spawn step creates a seagull.
    pub open spec fn spawns(self, delta_nanos: u64) -> bool {
        self.counter.0 < MAX_SEAGULLS && self.timer.finishes(delta_nanos)
    }

    /// The state after every entity has moved by one fixed step.
    pub open spec fn advanced(self) -> GameView {
        GameView {
            player: Player { movement: self.player.movement.advanced(), ..self.player },
            seagulls: self.seagulls.map_values(
                |s: Seagull| Seagull { movement: s.movement.advanced(), ..s },
            ),
            ..self
        }
    }

    /// The state after the collision test: every catchable seagull that
    /// touches the player is switched off and reported, in order.
    pub open spec fn collided(self) -> GameView {
        let rect = player_rect(self.player);
        GameView {
            seagulls: self.seagulls.map_values(|s: Seagull| after_test(rect, s)),
            events: self.events + caught_events(rect, self.seagulls),
            ..self
        }
    }

    /// The state after the catches are scored: each caught seagull is gone
    /// and worth its reward, and no catch is left pending.
    pub open spec fn scored(self) -> GameView {
        let rest = uncaught(self.seagulls, self.events);
        GameView {
            seagulls: rest,
            counter: SeagullCounter(rest.len() as i32),
            score: CurrentScore(
                (self.score.0 + CATCH_REWARD * (self.seagulls.len() - rest.len())) as i32,
            ),
            events: Seq::empty(),
            ..self
        }
    }

    /// The state after the seagulls that fell off the screen are gone.
    pub open spec fn despawned(self) -> GameView {
        let rest = on_screen(self.seagulls);
        GameView { seagulls: rest, counter: SeagullCounter(rest.len() as i32), ..self }
    }

    /// The score can take every catch of one step without overflowing.
    pub open spec fn score_has_room(self) -> bool {
        self.score.0 <= i32::MAX - CATCH_REWARD * MAX_SEAGULLS
    }

    /// The game's invariant.
    pub open spec fn wf(self) -> bool {
        &&& self.player.movement.wf()
        &&& self.player.collider.wf()
        &&& self.counter.0 == self.seagulls.len()
        &&& self.seagulls.len() <= MAX_SEAGULLS
        &&& self.timer.wf()
        &&& 0 <= self.score.0
        &&& seagulls_wf(self.seagulls, self.next_entity)
        &&& forall|k: int| 0 <= k < self.events.len() ==> #[trigger] self.events[k].1 == CATCH_REWARD
    }
}

/// The player's hitbox, computed.
fn player_collision_rect(p: &Player) -> (r: CollisionRectangle)
    requires
        p.movement.wf(),
        p.collider.wf(),
    ensures
        r == player_rect(*p),
{
    CollisionRectangle::from_translation(
        p.movement.physical_translation.0.xy(),
        p.collider.width,
        p.collider.height,
    ).with_offset(Vec2::new(PLAYER_COLLIDER_OFFSET_X, PLAYER_COLLIDER_OFFSET_Y))
}

/// Tests the player's hitbox against every catchable seagull. Each one that
/// overlaps it is switched off and reported once, with the catch reward.
pub fn check_player_collision(game: &mut Game)
    requires
        old(game)@.wf(),
    ensures
        final(game)@ == old(game)@.collided(),
        final(game)@.wf(),
{
    let rect = player_collision_rect(&game.player);
    let n = game.seagulls.len();
    let mut i: usize = 0;
    while i < n
        invariant
            0 <= i <= n,
            n == game.seagulls.len(),
            n == old(game).seagulls.len(),
            old(game)@.wf(),
            rect == player_rect(old(game).player),
            game.player == old(game).player,
            game.counter == old(game).counter,
            game.timer == old(game).timer,
            game.score == old(game).score,
            game.next_entity == old(game).next_entity,
            forall|j: int| 0 <= j < i ==> game.seagulls@[j] == after_test(rect, old(game).seagulls@[j]),
            forall|j: int| i <= j < n ==> game.seagulls@[j] == old(game).seagulls@[j],
            game.events@ == old(game).events@ + caught_events(
                rect,
                old(game).seagulls@.subrange(0, i as int),
            ),
            forall|k: int| 0 <= k < game.events.len() ==> #[trigger] game.events@[k].1 == CATCH_REWARD,
        decreases n - i,
    {
        let s = game.seagulls[i];
        proof {
            assert(old(game)@.seagulls[i as int].movement.wf());
        }
        if s.collider.enabled {
            let seagull_collision_rect = CollisionRectangle::from_translation(
                s.movement.physical_translation.0.xy(),
                s.collider.width,
                s.collider.height,
            );
            if rectangles_collision_axis_aligned(&rect, &seagull_collision_rect) {
                game.events.push(SeagullCaught(s.entity, CATCH_REWARD));
                let mut c = s;
                c.collider.enabled = false;
                game.seagulls.set(i, c);
            }
        }
        proof {
            let sub = old(game).seagulls@.subrange(0, i as int + 1);
            assert(sub.drop_last() =~= old(game).seagulls@.subrange(0, i as int));
        }
        i += 1;
    }
    proof {
        assert(old(game).seagulls@.subrange(0, n as int) =~= old(game).seagulls@);
        assert(game.seagulls@ =~= old(game)@.collided().seagulls);
        assert(game.events@ =~= old(game)@.collided().events);
    }
}

/// The spawn step. While fewer than `MAX_SEAGULLS` are alive the timer
/// advances by `delta_nanos`; when it runs out a seagull appears at
/// horizontal position `start_x`, falling, and the timer is re-armed for
/// `next_millis`. At the cap nothing changes.
pub fn spawn_seagull_with(game: &mut Game, delta_nanos: u64, start_x: i64, next_millis: u64)
    requires
        old(game)@.wf(),
        -SPAWN_X_LIMIT <= start_x <= SPAWN_X_LIMIT,
        MIN_SPAWN_MILLIS <= next_millis <= MAX_SPAWN_MILLIS,
        old(game).next_entity < u64::MAX,
    ensures
        final(game)@ == old(game)@.spawned(delta_nanos, start_x, next_millis),
        final(game)@.wf(),
{
    if game.counter.0 < MAX_SEAGULLS {
        if game.timer.tick(delta_nanos) {
            let start = Vec3::new(start_x, SEAGULL_START_Y, SEAGULL_START_Z);
            let seagull = Seagull {
                entity: game.next_entity,
                movement: PhysicsMovementBundle::new(start, Vec3::new(0, SEAGULL_FALL_VELOCITY, 0)),
                collider: RectangleCollider::new(true, SEAGULL_WIDTH, SEAGULL_HEIGHT),
            };
            game.seagulls.push(seagull);
            game.counter = SeagullCounter(game.counter.0 + 1);
            game.next_entity = game.next_entity + 1;
            game.timer = SeagullSpawnTimer::new(next_millis * NANOS_PER_MILLI);
            proof {
                assert(game.seagulls@ =~= old(game)@.spawned(
                    delta_nanos,
                    start_x,
                    next_millis,
                ).seagulls);
                lemma_seagull_pushed(old(game)@, seagull);
            }
        }
    }
}

/// The spawn step with a random start position, uniform over
/// `-SPAWN_X_LIMIT..=SPAWN_X_LIMIT`, and a random next delay, uniform over
/// `MIN_SPAWN_MILLIS..=MAX_SPAWN_MILLIS` milliseconds. They are drawn only
/// when a seagull appears.
pub fn spawn_seagull(game: &mut Game, delta_nanos: u64)
    requires
        old(game)@.wf(),
        old(game).next_entity < u64::MAX,
    ensures
        exists|start_x: i64, next_millis: u64|
            {
                &&& -SPAWN_X_LIMIT <= start_x <= SPAWN_X_LIMIT
                &&& MIN_SPAWN_MILLIS <= next_millis <= MAX_SPAWN_MILLIS
                &&& final(game)@ == #[trigger] old(game)@.spawned(delta_nanos, start_x, next_millis)
            },
        final(game)@.wf(),
{
    if game.counter.0 < MAX_SEAGULLS && delta_nanos >= game.timer.duration_nanos
        - game.timer.elapsed_nanos {
        let start_x = random_in_range(-SPAWN_X_LIMIT, SPAWN_X_LIMIT);
        let next_millis = random_in_range(MIN_SPAWN_MILLIS as i64, MAX_SPAWN_MILLIS as i64) as u64;
        spawn_seagull_with(game, delta_nanos, start_x, next_millis);
    } else {
        // No seagull appears, so neither position nor delay is used.
        spawn_seagull_with(game, delta_nanos, 0, MIN_SPAWN_MILLIS);
    }
}

/// One fixed step of motion for the player and every seagull.
pub fn advance_physics(game: &mut Game)
    requires
        old(game)@.wf(),
    ensures
        final(game)@ == old(game)@.advanced(),
        final(game)@.wf(),
{
    game.player.movement.advance_physics();
    let n = game.seagulls.len();
    let mut i: usize = 0;
    while i < n
        invariant
            0 <= i <= n,
            n == game.seagulls.len(),
            n == old(game).seagulls.len(),
            old(game)@.wf(),
            game.player == old(game)@.advanced().player,
            game.counter == old(game).counter,
            game.timer == old(game).timer,
            game.score == old(game).score,
            game.events == old(game).events,
            game.next_entity == old(game).next_entity,
            forall|j: int|
                0 <= j < i ==> game.seagulls@[j] == (Seagull {
                    movement: old(game).seagulls@[j].movement.advanced(),
                    ..old(game).seagulls@[j]
                }),
            forall|j: int| i <= j < n ==> game.seagulls@[j] == old(game).seagulls@[j],
        decreases n - i,
    {
        let mut s = game.seagulls[i];
        proof {
            assert(old(game)@.seagulls[i as int].movement.wf());
        }
        s.movement.advance_physics();
        game.seagulls.set(i, s);
        i += 1;
    }
    proof {
        assert(game.seagulls@ =~= old(game)@.advanced().seagulls);
        lemma_seagulls_moved(old(game)@, game.seagulls@);
    }
}

/// The reward of the first event that names `entity`, if any does.
fn reward_for(events: &Vec<SeagullCaught>, entity: u64) -> (r: Option<i32>)
    ensures
        r.is_some() == named(events@, entity),
        r matches Some(w) ==> exists|k: int|
            0 <= k < events.len() && events@[k].0 == entity && #[trigger] events@[k].1 == w,
{
    let mut k: usize = 0;
    while k < events.len()
        invariant
            0 <= k <= events.len(),
            forall|m: int| 0 <= m < k ==> events@[m].0 != entity,
        decreases events.len() - k,
    {
        if events[k].0 == entity {
            return Some(events[k].1);
        }
        k += 1;
    }
    None
}

/// Scores the pending catches: each caught seagull that is still alive is
/// removed and its reward added to the score. No catch is left pending.
pub fn update_score(game: &mut Game)
    requires
        old(game)@.wf(),
        old(game)@.score_has_room(),
    ensures
        final(game)@ == old(game)@.scored(),
        final(game)@.wf(),
{
    let n = game.seagulls.len();
    let mut kept: Vec<Seagull> = Vec::new();
    let mut score: i32 = game.score.0;
    let mut i: usize = 0;
    while i < n
        invariant
            0 <= i <= n,
            n == game.seagulls.len(),
            game@ == old(game)@,
            old(game)@.wf(),
            old(game)@.score_has_room(),
            kept@ == uncaught(old(game).seagulls@.subrange(0, i as int), old(game).events@),
            kept.len() <= i,
            score == old(game).score.0 + CATCH_REWARD * (i - kept.len()),
            forall|j: int| 0 <= j < kept.len() ==> {
                &&& #[trigger] kept@[j].movement.wf()
                &&& kept@[j].collider.wf()
                &&& kept@[j].entity < old(game).next_entity
            },
            forall|j: int, m: int| 0 <= j < m < kept.len() ==> kept@[j].entity < kept@[m].entity,
            forall|j: int, m: int|
                0 <= j < kept.len() && i <= m < n ==> kept@[j].entity < old(game).seagulls@[m].entity,
        decreases n - i,
    {
        let s = game.seagulls[i];
        proof {
            assert(old(game)@.seagulls[i as int].movement.wf());
            assert forall|m: int| i < m < n implies s.entity < old(game).seagulls@[m].entity by {
                assert(old(game)@.seagulls[m].movement.wf());
            }
            let sub = old(game).seagulls@.subrange(0, i as int + 1);
            assert(sub.drop_last() =~= old(game).seagulls@.subrange(0, i as int));
        }
        match reward_for(&game.events, s.entity) {
            Some(reward) => {
                proof {
                    let k = choose|k: int|
                        0 <= k < game.events.len() && game.events@[k].0 == s.entity
                            && #[trigger] game.events@[k].1 == reward;
                    assert(old(game)@.events[k].1 == CATCH_REWARD);
                }
                score = score + reward;
            },
            None => {
                kept.push(s);
            },
        }
        i += 1;
    }
    proof {
        assert(old(game).seagulls@.subrange(0, n as int) =~= old(game).seagulls@);
    }
    game.counter = SeagullCounter(kept.len() as i32);
    game.seagulls = kept;
    game.score = CurrentScore(score);
    game.events = Vec::new();
    proof {
        assert(game.events@ =~= old(game)@.scored().events);
    }
}

/// Removes every seagull that has fallen below `BOTTOM_LIMIT`, without
/// scoring it. Should a catch of such a seagull still be pending, scoring
/// passes over it, as it names a seagull that is no longer alive.
pub fn despawn_seagull(game: &mut Game)
    requires
        old(game)@.wf(),
    ensures
        final(game)@ == old(game)@.despawned(),
        final(game)@.wf(),
{
    let n = game.seagulls.len();
    let mut kept: Vec<Seagull> = Vec::new();
    let mut i: usize = 0;
    while i < n
        invariant
            0 <= i <= n,
            n == game.seagulls.len(),
            game@ == old(game)@,
            old(game)@.wf(),
            kept@ == on_screen(old(game).seagulls@.subrange(0, i as int)),
            kept.len() <= i,
            forall|j: int| 0 <= j < kept.len() ==> {
                &&& #[trigger] kept@[j].movement.wf()
                &&& kept@[j].collider.wf()
                &&& kept@[j].entity < old(game).next_entity
            },
            forall|j: int, m: int| 0 <= j < m < kept.len() ==> kept@[j].entity < kept@[m].entity,
            forall|j: int, m: int|
                0 <= j < kept.len() && i <= m < n ==> kept@[j].entity < old(game).seagulls@[m].entity,
        decreases n - i,
    {
        let s = game.seagulls[i];
        proof {
            assert(old(game)@.seagulls[i as int].movement.wf());
            assert forall|m: int| i < m < n implies s.entity < old(game).seagulls@[m].entity by {
                assert(old(game)@.seagulls[m].movement.wf());
            }
            let sub = old(game).seagulls@.subrange(0, i as int + 1);
            assert(sub.drop_last() =~= old(game).seagulls@.subrange(0, i as int));
        }
        if s.movement.physical_translation.0.y >= BOTTOM_LIMIT {
            kept.push(s);
        }
        i += 1;
    }
    proof {
        assert(old(game).seagulls@.subrange(0, n as int) =~= old(game).seagulls@);
    }
    game.counter = SeagullCounter(kept.len() as i32);
    game.seagulls = kept;
}

/// The player as the game starts: at rest at the start position, facing
/// right, with an enabled hitbox.
pub open spec fn initial_player() -> Player {
    let start = Vec3 { x: PLAYER_START_X, y: PLAYER_START_Y, z: PLAYER_START_Z };
    Player {
        movement: PhysicsMovementBundle {
            physical_translation: PhysicalTranslation(start),
            velocity: Velocity(Vec3 { x: 0, y: 0, z: 0 }),
            previous_physical_translation: PreviousPhysicalTranslation(start),
        },
        collider: RectangleCollider {
            enabled: true,
            width: PLAYER_COLLIDER_WIDTH,
            height: PLAYER_COLLIDER_HEIGHT,
        },
        facing: Facing::Right,
    }
}

/// The game as it starts: the player alone, no score, and the spawn timer
/// armed for `MIN_SPAWN_MILLIS`.
pub fn setup_system() -> (r: Game)
    ensures
        r.player == initial_player(),
        r.seagulls@ == Seq::<Seagull>::empty(),
        r.counter == SeagullCounter(0),
        r.timer == (SeagullSpawnTimer {
            elapsed_nanos: 0,
            duration_nanos: (MIN_SPAWN_MILLIS * NANOS_PER_MILLI) as u64,
        }),
        r.score == CurrentScore(0),
        r.events@ == Seq::<SeagullCaught>::empty(),
        r.next_entity == 0,
        r@.wf(),
{
    let start = Vec3::new(PLAYER_START_X, PLAYER_START_Y, PLAYER_START_Z);
    let player = Player {
        movement: PhysicsMovementBundle::new(start, Vec3::zero()),
        collider: RectangleCollider::new(true, PLAYER_COLLIDER_WIDTH, PLAYER_COLLIDER_HEIGHT),
        facing: Facing::Right,
    };
    Game {
        player,
        seagulls: Vec::new(),
        counter: SeagullCounter(0),
        timer: SeagullSpawnTimer::new(MIN_SPAWN_MILLIS * NANOS_PER_MILLI),
        score: CurrentScore(0),
        events: Vec::new(),
        next_entity: 0,
    }
}

/// The horizontal direction that the keys ask for: -1, 0 or 1.
pub open spec fn direction(move_left: bool, move_right: bool) -> int {
    (if move_right { 1int } else { 0int }) - (if move_left { 1int } else { 0int })
}

/// The player after reading the keys: the velocity is the unit direction
/// asked for times `PLAYER_SPEED` (zero when both or neither key is held);
/// the boat faces right when the right key is held, left when only the left
/// one is, and keeps its facing otherwise.
pub open spec fn steered(p: Player, move_left: bool, move_right: bool) -> Player {
    Player {
        movement: PhysicsMovementBundle {
            velocity: Velocity(
                Vec3 { x: (direction(move_left, move_right) * PLAYER_SPEED) as i64, y: 0, z: 0 },
            ),
            ..p.movement
        },
        facing: if move_right {
            Facing::Right
        } else if move_left {
            Facing::Left
        } else {
            p.facing
        },
        ..p
    }
}

/// Sets the player's velocity and facing from the keys held.
pub fn handle_input_system(game: &mut Game, move_left: bool, move_right: bool)
    requires
        old(game)@.wf(),
    ensures
        final(game)@ == (GameView {
            player: steered(old(game).player, move_left, move_right),
            ..old(game)@
        }),
        final(game)@.wf(),
{
    let mut direction: i64 = 0;
    if move_left {
        direction = direction - 1;
        game.player.facing = Facing::Left;
    }
    if move_right {
        direction = direction + 1;
        game.player.facing = Facing::Right;
    }
    game.player.movement.velocity = Velocity(Vec3::new(direction * PLAYER_SPEED, 0, 0));
    proof {
        lemma_seagulls_moved(old(game)@, game.seagulls@);
    }
}

/// One fixed step of the game, in order: spawn, motion, collision test,
/// scoring, and removal of the seagulls that fell off the screen. Motion
/// and the spawn timer both advance by one step of `FIXED_STEP_NANOS`.
pub fn fixed_step(game: &mut Game)
    requires
        old(game)@.wf(),
        old(game)@.score_has_room(),
        old(game).next_entity < u64::MAX,
    ensures
        exists|start_x: i64, next_millis: u64|
            {
                &&& -SPAWN_X_LIMIT <= start_x <= SPAWN_X_LIMIT
                &&& MIN_SPAWN_MILLIS <= next_millis <= MAX_SPAWN_MILLIS
                &&& final(game)@ == #[trigger] old(game)@.spawned(
                    FIXED_STEP_NANOS,
                    start_x,
                    next_millis,
                ).advanced().collided().scored().despawned()
            },
        final(game)@.wf(),
{
    spawn_seagull(game, FIXED_STEP_NANOS);
    let ghost spawned = game@;
    advance_physics(game);
    check_player_collision(game);
    update_score(game);
    despawn_seagull(game);
    proof {
        let (start_x, next_millis) = choose|start_x: i64, next_millis: u64|
            {
                &&& -SPAWN_X_LIMIT <= start_x <= SPAWN_X_LIMIT
                &&& MIN_SPAWN_MILLIS <= next_millis <= MAX_SPAWN_MILLIS
                &&& spawned == #[trigger] old(game)@.spawned(FIXED_STEP_NANOS, start_x, next_millis)
            };
        assert(game@ == old(game)@.spawned(
            FIXED_STEP_NANOS,
            start_x,
            next_millis,
        ).advanced().collided().scored().despawned());
    }
}

} // verus!
