use vstd::prelude::*;

use crate::game::{
    fell_off, named, new_seagull, caught_events, disabled, is_caught, on_screen, player_rect, uncaught,
    GameView, Seagull, SeagullCaught, CATCH_REWARD, MAX_SEAGULLS, MAX_SPAWN_MILLIS,
    MIN_SPAWN_MILLIS, NANOS_PER_MILLI, SPAWN_X_LIMIT,
};
use crate::geometry::{CollisionRectangle, WORLD_LIMIT};
use crate::physics::PhysicsMovementBundle;

verus! {

/// Some seagull of `s` with this entity number is catchable and touches
/// `rect`.
pub open spec fn names_caught(rect: CollisionRectangle, s: Seq<Seagull>, entity: u64) -> bool {
    exists|i: int| 0 <= i < s.len() && #[trigger] s[i].entity == entity && is_caught(rect, s[i])
}

/// Every catch reported by a collision test names a seagull that the test
/// found catchable and touching the player.
proof fn lemma_caught_events_name_caught(rect: CollisionRectangle, s: Seq<Seagull>)
    ensures
        forall|k: int|
            0 <= k < caught_events(rect, s).len() ==> names_caught(
                rect,
                s,
                #[trigger] caught_events(rect, s)[k].0,
            ),
    decreases s.len(),
{
    if s.len() > 0 {
        let rest = s.drop_last();
        lemma_caught_events_name_caught(rect, rest);
        let ev = caught_events(rect, s);
        assert forall|k: int| 0 <= k < ev.len() implies names_caught(rect, s, #[trigger] ev[k].0) by {
            if k < caught_events(rect, rest).len() {
                assert(ev[k] == caught_events(rect, rest)[k]);
                assert(names_caught(rect, rest, caught_events(rect, rest)[k].0));
                let i = choose|i: int|
                    0 <= i < rest.len() && #[trigger] rest[i].entity == caught_events(rect, rest)[k].0
                        && is_caught(rect, rest[i]);
                assert(s[i] == rest[i]);
            } else {
                let i = s.len() - 1;
                assert(s[i] == s.last());
                assert(s[i].entity == ev[k].0 && is_caught(rect, s[i]));
            }
        }
    }
}

/// Scoring keeps only seagulls that were alive.
proof fn lemma_uncaught_from(s: Seq<Seagull>, events: Seq<SeagullCaught>)
    ensures
        forall|j: int|
            0 <= j < uncaught(s, events).len() ==> s.contains(#[trigger] uncaught(s, events)[j]),
    decreases s.len(),
{
    if s.len() > 0 {
        let rest = s.drop_last();
        lemma_uncaught_from(rest, events);
        assert forall|j: int| 0 <= j < uncaught(s, events).len() implies s.contains(
            #[trigger] uncaught(s, events)[j],
        ) by {
            if j < uncaught(rest, events).len() {
                assert(uncaught(s, events)[j] == uncaught(rest, events)[j]);
                let i = choose|i: int| 0 <= i < rest.len() && rest[i] == uncaught(rest, events)[j];
                assert(s[i] == rest[i]);
            } else {
                assert(s[s.len() - 1] == s.last());
            }
        }
    }
}

/// The removal of fallen seagulls keeps only seagulls that were alive.
proof fn lemma_on_screen_from(s: Seq<Seagull>)
    ensures
        forall|j: int| 0 <= j < on_screen(s).len() ==> s.contains(#[trigger] on_screen(s)[j]),
    decreases s.len(),
{
    if s.len() > 0 {
        let rest = s.drop_last();
        lemma_on_screen_from(rest);
        assert forall|j: int| 0 <= j < on_screen(s).len() implies s.contains(
            #[trigger] on_screen(s)[j],
        ) by {
            if j < on_screen(rest).len() {
                assert(on_screen(s)[j] == on_screen(rest)[j]);
                let i = choose|i: int| 0 <= i < rest.len() && rest[i] == on_screen(rest)[j];
                assert(s[i] == rest[i]);
            } else {
                assert(s[s.len() - 1] == s.last());
            }
        }
    }
}

/// Scoring removes seagulls and adds none.
proof fn lemma_uncaught_len(s: Seq<Seagull>, events: Seq<SeagullCaught>)
    ensures
        uncaught(s, events).len() <= s.len(),
    decreases s.len(),
{
    if s.len() > 0 {
        lemma_uncaught_len(s.drop_last(), events);
    }
}

/// The number of live seagulls lies between zero and `MAX_SEAGULLS` in
/// every well-formed game, and at the cap the spawn step creates nothing
/// and changes nothing, whatever the timer says.
pub proof fn lemma_population_within_cap(g: GameView, delta_nanos: u64, start_x: i64, next_millis: u64)
    requires
        g.wf(),
    ensures
        0 <= g.counter.0 <= MAX_SEAGULLS,
        g.counter.0 == MAX_SEAGULLS ==> !g.spawns(delta_nanos) && g.spawned(
            delta_nanos,
            start_x,
            next_millis,
        ) == g,
{
}

/// When the spawn step creates a seagull, the timer is re-armed from zero
/// for the drawn delay, which lies between `MIN_SPAWN_MILLIS` and
/// `MAX_SPAWN_MILLIS` inclusive.
pub proof fn lemma_rearmed_delay_in_bounds(g: GameView, delta_nanos: u64, start_x: i64, next_millis: u64)
    requires
        g.wf(),
        g.spawns(delta_nanos),
        MIN_SPAWN_MILLIS <= next_millis <= MAX_SPAWN_MILLIS,
    ensures
        g.spawned(delta_nanos, start_x, next_millis).timer.elapsed_nanos == 0,
        g.spawned(delta_nanos, start_x, next_millis).timer.duration_nanos == next_millis
            * NANOS_PER_MILLI,
        MIN_SPAWN_MILLIS * NANOS_PER_MILLI <= g.spawned(
            delta_nanos,
            start_x,
            next_millis,
        ).timer.duration_nanos <= MAX_SPAWN_MILLIS * NANOS_PER_MILLI,
{
}

/// A seagull is reported caught at most once: once a collision test has
/// reported it, the test of the next step, after the seagulls have moved,
/// does not report it again.
pub proof fn lemma_caught_at_most_once(g: GameView)
    requires
        g.wf(),
    ensures
        ({
            let h = g.collided().advanced();
            let first = caught_events(player_rect(g.player), g.seagulls);
            let second = caught_events(player_rect(h.player), h.seagulls);
            forall|a: int, b: int|
                0 <= a < first.len() && 0 <= b < second.len() ==> first[a].0 != second[b].0
        }),
{
    let h = g.collided().advanced();
    let r1 = player_rect(g.player);
    let r2 = player_rect(h.player);
    let first = caught_events(r1, g.seagulls);
    let second = caught_events(r2, h.seagulls);
    lemma_caught_events_name_caught(r1, g.seagulls);
    lemma_caught_events_name_caught(r2, h.seagulls);
    assert forall|a: int, b: int| 0 <= a < first.len() && 0 <= b < second.len() implies first[a].0
        != second[b].0 by {
        assert(names_caught(r1, g.seagulls, first[a].0));
        assert(names_caught(r2, h.seagulls, second[b].0));
        let i = choose|i: int|
            0 <= i < g.seagulls.len() && #[trigger] g.seagulls[i].entity == first[a].0
                && is_caught(r1, g.seagulls[i]);
        let j = choose|j: int|
            0 <= j < h.seagulls.len() && #[trigger] h.seagulls[j].entity == second[b].0
                && is_caught(r2, h.seagulls[j]);
        assert(h.seagulls[i].collider == disabled(g.seagulls[i]).collider);
        assert(h.seagulls[j].entity == g.seagulls[j].entity);
        if first[a].0 == second[b].0 {
            if i < j {
                assert(g.seagulls[i].entity < g.seagulls[j].entity);
            } else if j < i {
                assert(g.seagulls[j].entity < g.seagulls[i].entity);
            }
        }
    }
}

/// Some seagull of `s` has this entity number.
pub open spec fn alive(s: Seq<Seagull>, entity: u64) -> bool {
    exists|j: int| 0 <= j < s.len() && #[trigger] s[j].entity == entity
}

/// A seagull leaves the game once: once its entity number is no longer
/// alive, no step of the game brings it back, so neither scoring nor the
/// removal of fallen seagulls can take it a second time. Entity numbers
/// already handed out stay handed out.
pub proof fn lemma_left_seagull_never_returns(
    g: GameView,
    entity: u64,
    delta_nanos: u64,
    start_x: i64,
    next_millis: u64,
)
    requires
        g.wf(),
        entity < g.next_entity,
        g.next_entity < u64::MAX,
        !alive(g.seagulls, entity),
    ensures
        !alive(g.spawned(delta_nanos, start_x, next_millis).seagulls, entity),
        !alive(g.advanced().seagulls, entity),
        !alive(g.collided().seagulls, entity),
        !alive(g.scored().seagulls, entity),
        !alive(g.despawned().seagulls, entity),
        g.next_entity <= g.spawned(delta_nanos, start_x, next_millis).next_entity,
{
    let sp = g.spawned(delta_nanos, start_x, next_millis).seagulls;
    if alive(sp, entity) {
        let j = choose|j: int| 0 <= j < sp.len() && #[trigger] sp[j].entity == entity;
        if j < g.seagulls.len() {
            assert(sp[j] == g.seagulls[j]);
        }
    }
    let ad = g.advanced().seagulls;
    if alive(ad, entity) {
        let j = choose|j: int| 0 <= j < ad.len() && #[trigger] ad[j].entity == entity;
        assert(g.seagulls[j].entity == entity);
    }
    let co = g.collided().seagulls;
    if alive(co, entity) {
        let j = choose|j: int| 0 <= j < co.len() && #[trigger] co[j].entity == entity;
        assert(g.seagulls[j].entity == entity);
    }
    let sc = g.scored().seagulls;
    lemma_uncaught_from(g.seagulls, g.events);
    if alive(sc, entity) {
        let j = choose|j: int| 0 <= j < sc.len() && #[trigger] sc[j].entity == entity;
        assert(g.seagulls.contains(sc[j]));
        let i = choose|i: int| 0 <= i < g.seagulls.len() && g.seagulls[i] == sc[j];
        assert(g.seagulls[i].entity == entity);
    }
    let de = g.despawned().seagulls;
    lemma_on_screen_from(g.seagulls);
    if alive(de, entity) {
        let j = choose|j: int| 0 <= j < de.len() && #[trigger] de[j].entity == entity;
        assert(g.seagulls.contains(de[j]));
        let i = choose|i: int| 0 <= i < g.seagulls.len() && g.seagulls[i] == de[j];
        assert(g.seagulls[i].entity == entity);
    }
}

/// The score changes only when catches are scored: spawning, motion, the
/// collision test and the removal of fallen seagulls leave it as it is, and
/// scoring adds exactly `CATCH_REWARD` for each seagull it removes.
pub proof fn lemma_score_only_from_catches(g: GameView, delta_nanos: u64, start_x: i64, next_millis: u64)
    requires
        g.wf(),
        g.score_has_room(),
    ensures
        g.spawned(delta_nanos, start_x, next_millis).score == g.score,
        g.advanced().score == g.score,
        g.collided().score == g.score,
        g.despawned().score == g.score,
        g.scored().score.0 == g.score.0 + CATCH_REWARD * (g.seagulls.len()
            - g.scored().seagulls.len()),
        0 <= g.seagulls.len() - g.scored().seagulls.len(),
{
    lemma_uncaught_len(g.seagulls, g.events);
}

/// The kinematic state after `n` fixed steps.
pub open spec fn advanced_n(b: PhysicsMovementBundle, n: nat) -> PhysicsMovementBundle
    decreases n,
{
    if n == 0 {
        b
    } else {
        advanced_n(b, (n - 1) as nat).advanced()
    }
}

/// Motion is exact while it stays inside the world: after `n` fixed steps,
/// that is `n / 60` seconds, the height is the starting height plus `n`
/// times the vertical velocity, in sub-units, and the velocity is unchanged.
pub proof fn lemma_height_after_steps(b: PhysicsMovementBundle, n: nat)
    requires
        b.wf(),
        -WORLD_LIMIT <= b.physical_translation.0.y + n * b.velocity.0.y <= WORLD_LIMIT,
    ensures
        advanced_n(b, n).physical_translation.0.y == b.physical_translation.0.y + n
            * b.velocity.0.y,
        advanced_n(b, n).velocity == b.velocity,
        advanced_n(b, n).wf(),
    decreases n,
{
    if n > 0 {
        let y = b.physical_translation.0.y as int;
        let v = b.velocity.0.y as int;
        let m = (n - 1) as nat;
        assert(m * v == n * v - v) by (nonlinear_arith)
            requires
                m == n - 1,
        ;
        assert(-WORLD_LIMIT <= y + m * v <= WORLD_LIMIT) by (nonlinear_arith)
            requires
                -WORLD_LIMIT <= y <= WORLD_LIMIT,
                -WORLD_LIMIT <= y + n * v <= WORLD_LIMIT,
                m * v == n * v - v,
                0 <= m,
                n == m + 1,
        ;
        lemma_height_after_steps(b, m);
        let c = advanced_n(b, m);
        assert(advanced_n(b, n) == c.advanced());
        assert(c.physical_translation.0.y + c.velocity.0.y == y + n * v);
        assert(advanced_n(b, n).physical_translation.0.y == c.physical_translation.0.y
            + c.velocity.0.y);
    } else {
        assert(n * b.velocity.0.y == 0) by (nonlinear_arith)
            requires
                n == 0,
        ;
    }
}

/// A seagull appears at 600 units and falls at 280 units per second: after
/// `n` fixed steps its height is `36000 - 280 n` sub-units, that is
/// `600 - 280 t` units at `t = n / 60` seconds, and it counts as fallen off
/// the screen exactly from step 181 on, just after three seconds.
pub proof fn lemma_spawned_seagull_falls(entity: u64, start_x: i64, n: nat)
    requires
        -SPAWN_X_LIMIT <= start_x <= SPAWN_X_LIMIT,
        n <= 0x1_0000_0000_0000,
    ensures
        advanced_n(new_seagull(entity, start_x).movement, n).physical_translation.0.y == 36000
            - 280 * n,
        fell_off(
            Seagull { movement: advanced_n(new_seagull(entity, start_x).movement, n), ..new_seagull(entity, start_x) },
        ) <==> n >= 181,
{
    lemma_height_after_steps(new_seagull(entity, start_x).movement, n);
}

/// Entity numbers increase along the sequence.
pub open spec fn increasing(s: Seq<Seagull>) -> bool {
    forall|i: int, j: int| 0 <= i < j < s.len() ==> s[i].entity < s[j].entity
}

/// Events with pairwise different entity numbers.
pub open spec fn distinct_catches(events: Seq<SeagullCaught>) -> bool {
    forall|a: int, b: int| 0 <= a < b < events.len() ==> events[a].0 != events[b].0
}

/// Scoring against no named seagull keeps every seagull.
proof fn lemma_uncaught_none(t: Seq<Seagull>, events: Seq<SeagullCaught>)
    requires
        forall|i: int| 0 <= i < t.len() ==> !named(events, #[trigger] t[i].entity),
    ensures
        uncaught(t, events) == t,
    decreases t.len(),
{
    if t.len() > 0 {
        let r = t.drop_last();
        assert forall|i: int| 0 <= i < r.len() implies !named(events, #[trigger] r[i].entity) by {
            assert(r[i] == t[i]);
        }
        lemma_uncaught_none(r, events);
        assert(!named(events, t[t.len() - 1].entity));
        assert(r.push(t.last()) =~= t);
    }
}

/// Scoring one more catch is scoring the rest and then that one.
proof fn lemma_uncaught_split(s: Seq<Seagull>, events: Seq<SeagullCaught>, e: SeagullCaught)
    ensures
        uncaught(s, events.push(e)) == uncaught(uncaught(s, events), seq![e]),
    decreases s.len(),
{
    if s.len() > 0 {
        let r = s.drop_last();
        let x = s.last();
        lemma_uncaught_split(r, events, e);
        let ev2 = events.push(e);
        let t = uncaught(r, events);
        assert(t.push(x).drop_last() =~= t);
        if named(events, x.entity) {
            let k = choose|k: int| 0 <= k < events.len() && events[k].0 == x.entity;
            assert(ev2[k] == events[k]);
        } else if x.entity == e.0 {
            assert(ev2[events.len() as int].0 == x.entity);
            assert(named(seq![e], x.entity)) by {
                assert(seq![e][0].0 == x.entity);
            }
        } else {
            assert(!named(ev2, x.entity)) by {
                if named(ev2, x.entity) {
                    let k = choose|k: int| 0 <= k < ev2.len() && ev2[k].0 == x.entity;
                    if k < events.len() {
                        assert(ev2[k] == events[k]);
                    }
                }
            }
            assert(!named(seq![e], x.entity)) by {
                if named(seq![e], x.entity) {
                    let k = choose|k: int| 0 <= k < 1 && seq![e][k].0 == x.entity;
                }
            }
        }
    }
}

/// Scoring a single catch of a live seagull removes exactly one seagull.
proof fn lemma_uncaught_one(t: Seq<Seagull>, e: SeagullCaught)
    requires
        increasing(t),
        alive(t, e.0),
    ensures
        uncaught(t, seq![e]).len() == t.len() - 1,
    decreases t.len(),
{
    let r = t.drop_last();
    let x = t.last();
    if x.entity == e.0 {
        assert(named(seq![e], x.entity)) by {
            assert(seq![e][0].0 == x.entity);
        }
        assert forall|i: int| 0 <= i < r.len() implies !named(seq![e], #[trigger] r[i].entity) by {
            assert(r[i] == t[i]);
            assert(t[i].entity < t[t.len() - 1].entity);
            if named(seq![e], r[i].entity) {
                let k = choose|k: int| 0 <= k < 1 && seq![e][k].0 == r[i].entity;
            }
        }
        lemma_uncaught_none(r, seq![e]);
    } else {
        assert(!named(seq![e], x.entity)) by {
            if named(seq![e], x.entity) {
                let k = choose|k: int| 0 <= k < 1 && seq![e][k].0 == x.entity;
            }
        }
        let j = choose|j: int| 0 <= j < t.len() && #[trigger] t[j].entity == e.0;
        assert(j < t.len() - 1);
        assert(r[j] == t[j]);
        assert(alive(r, e.0));
        lemma_uncaught_one(r, e);
    }
}

/// Scoring keeps entity numbers increasing, and keeps each seagull that no
/// event names.
proof fn lemma_uncaught_keeps(s: Seq<Seagull>, events: Seq<SeagullCaught>)
    requires
        increasing(s),
    ensures
        increasing(uncaught(s, events)),
        forall|i: int|
            0 <= i < s.len() && !named(events, #[trigger] s[i].entity) ==> alive(
                uncaught(s, events),
                s[i].entity,
            ),
    decreases s.len(),
{
    if s.len() > 0 {
        let r = s.drop_last();
        let x = s.last();
        assert forall|i: int, j: int| 0 <= i < j < r.len() implies r[i].entity < r[j].entity by {
            assert(r[i] == s[i] && r[j] == s[j]);
        }
        lemma_uncaught_keeps(r, events);
        lemma_uncaught_from(r, events);
        let t = uncaught(r, events);
        if !named(events, x.entity) {
            let u = uncaught(s, events);
            assert(u == t.push(x));
            assert forall|i: int, j: int| 0 <= i < j < u.len() implies u[i].entity
                < u[j].entity by {
                if j < t.len() {
                    assert(u[i] == t[i] && u[j] == t[j]);
                } else {
                    assert(u[i] == t[i]);
                    assert(r.contains(t[i]));
                    let m = choose|m: int| 0 <= m < r.len() && r[m] == t[i];
                    assert(s[m] == r[m]);
                }
            }
        }
        assert forall|i: int|
            0 <= i < s.len() && !named(events, #[trigger] s[i].entity) implies alive(
            uncaught(s, events),
            s[i].entity,
        ) by {
            let u = uncaught(s, events);
            if i < r.len() {
                assert(r[i] == s[i]);
                assert(alive(t, r[i].entity));
                let j = choose|j: int| 0 <= j < t.len() && #[trigger] t[j].entity == r[i].entity;
                if !named(events, x.entity) {
                    assert(u[j] == t[j]);
                }
            } else {
                assert(u[t.len() as int] == x);
            }
        }
    }
}

/// With distinct catches that all name live seagulls, scoring removes one
/// seagull per catch.
proof fn lemma_uncaught_count(s: Seq<Seagull>, events: Seq<SeagullCaught>)
    requires
        increasing(s),
        distinct_catches(events),
        forall|a: int| 0 <= a < events.len() ==> alive(s, #[trigger] events[a].0),
    ensures
        uncaught(s, events).len() == s.len() - events.len(),
    decreases events.len(),
{
    if events.len() == 0 {
        assert forall|i: int| 0 <= i < s.len() implies !named(events, #[trigger] s[i].entity) by {}
        lemma_uncaught_none(s, events);
    } else {
        let rest = events.drop_last();
        let e = events.last();
        assert forall|a: int| 0 <= a < rest.len() implies alive(s, #[trigger] rest[a].0) by {
            assert(rest[a] == events[a]);
        }
        lemma_uncaught_count(s, rest);
        lemma_uncaught_keeps(s, rest);
        assert(alive(s, events[events.len() - 1].0));
        let i = choose|i: int| 0 <= i < s.len() && #[trigger] s[i].entity == e.0;
        assert(!named(rest, s[i].entity)) by {
            if named(rest, s[i].entity) {
                let k = choose|k: int| 0 <= k < rest.len() && rest[k].0 == s[i].entity;
                assert(rest[k] == events[k]);
            }
        }
        let t = uncaught(s, rest);
        lemma_uncaught_one(t, e);
        lemma_uncaught_split(s, rest, e);
        assert(rest.push(e) =~= events);
    }
}

/// Scoring counts each pending catch once: when the pending catches name
/// different live seagulls, each of those seagulls is removed and no other,
/// the counter drops by the number of catches, and the score grows by
/// `CATCH_REWARD` for each.
pub proof fn lemma_each_catch_scored_once(g: GameView)
    requires
        g.wf(),
        g.score_has_room(),
        distinct_catches(g.events),
        forall|a: int| 0 <= a < g.events.len() ==> alive(g.seagulls, #[trigger] g.events[a].0),
    ensures
        g.scored().seagulls.len() == g.seagulls.len() - g.events.len(),
        g.scored().counter.0 == g.counter.0 - g.events.len(),
        g.scored().score.0 == g.score.0 + CATCH_REWARD * g.events.len(),
        forall|a: int| 0 <= a < g.events.len() ==> !alive(g.scored().seagulls, #[trigger] g.events[a].0),
{
    lemma_uncaught_count(g.seagulls, g.events);
    lemma_uncaught_from(g.seagulls, g.events);
    let u = g.scored().seagulls;
    assert forall|a: int| 0 <= a < g.events.len() implies !alive(u, #[trigger] g.events[a].0) by {
        if alive(u, g.events[a].0) {
            let j = choose|j: int| 0 <= j < u.len() && #[trigger] u[j].entity == g.events[a].0;
            assert(g.seagulls.contains(u[j]));
            lemma_uncaught_not_named(g.seagulls, g.events, j);
        }
    }
}

/// Every seagull that scoring keeps is named by no event.
proof fn lemma_uncaught_not_named(s: Seq<Seagull>, events: Seq<SeagullCaught>, j: int)
    requires
        0 <= j < uncaught(s, events).len(),
    ensures
        !named(events, uncaught(s, events)[j].entity),
    decreases s.len(),
{
    let r = s.drop_last();
    if j < uncaught(r, events).len() {
        lemma_uncaught_not_named(r, events, j);
        assert(uncaught(s, events)[j] == uncaught(r, events)[j]);
    }
}

/// A collision test reports seagulls in increasing order of entity number.
proof fn lemma_caught_events_increasing(rect: CollisionRectangle, s: Seq<Seagull>)
    requires
        increasing(s),
    ensures
        forall|a: int, b: int|
            0 <= a < b < caught_events(rect, s).len() ==> caught_events(rect, s)[a].0
                < caught_events(rect, s)[b].0,
    decreases s.len(),
{
    if s.len() > 0 {
        let r = s.drop_last();
        let x = s.last();
        assert forall|i: int, j: int| 0 <= i < j < r.len() implies r[i].entity < r[j].entity by {
            assert(r[i] == s[i] && r[j] == s[j]);
        }
        lemma_caught_events_increasing(rect, r);
        lemma_caught_events_name_caught(rect, r);
        let t = caught_events(rect, r);
        let ev = caught_events(rect, s);
        assert forall|a: int, b: int| 0 <= a < b < ev.len() implies ev[a].0 < ev[b].0 by {
            assert(ev[a] == t[a]);
            if b < t.len() {
                assert(ev[b] == t[b]);
            } else {
                assert(names_caught(rect, r, t[a].0));
                let i = choose|i: int|
                    0 <= i < r.len() && #[trigger] r[i].entity == t[a].0 && is_caught(rect, r[i]);
                assert(r[i] == s[i]);
                assert(s[s.len() - 1] == x);
            }
        }
    }
}

/// The catches that a collision test reports from a state with none
/// pending name different seagulls, all still alive after the test: just
/// what scoring needs to count each of them once.
pub proof fn lemma_fresh_catches_are_distinct_and_alive(g: GameView)
    requires
        g.wf(),
        g.events.len() == 0,
    ensures
        distinct_catches(g.collided().events),
        forall|a: int|
            0 <= a < g.collided().events.len() ==> alive(
                g.collided().seagulls,
                #[trigger] g.collided().events[a].0,
            ),
{
    let rect = player_rect(g.player);
    let h = g.collided();
    assert(h.events =~= caught_events(rect, g.seagulls));
    lemma_caught_events_increasing(rect, g.seagulls);
    lemma_caught_events_name_caught(rect, g.seagulls);
    assert forall|a: int| 0 <= a < h.events.len() implies alive(h.seagulls, #[trigger] h.events[a].0) by {
        assert(names_caught(rect, g.seagulls, h.events[a].0));
        let i = choose|i: int|
            0 <= i < g.seagulls.len() && #[trigger] g.seagulls[i].entity == h.events[a].0
                && is_caught(rect, g.seagulls[i]);
        assert(h.seagulls[i].entity == g.seagulls[i].entity);
    }
}

} // verus!
