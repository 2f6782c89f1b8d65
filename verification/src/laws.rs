//! What holds of every tick, whatever the swarm.

use vstd::prelude::*;
use crate::agent::{cooled, counter_of, hears, moved, course, received, sensed, Agent, Event, Step, RELAY_LAG};
use crate::config::{beacon_at, Beacon, Config};
use crate::geometry::{clamp_coord, within, wrap_angle, Bounds, HALF_TURN};
use crate::swarm::{contacted, harvest, quiet, relayed, tick_all, ticked};

verus! {

/// An event's source counter for `which`.
pub open spec fn source_counter(e: Event, which: Beacon) -> u64 {
    match which {
        Beacon::A => e.counter_a,
        Beacon::B => e.counter_b,
    }
}

/// Whether the contact pass leaves agent `a`'s counter for `which` alone:
/// its cooldown is still running, or the beacon is out of reach.
pub open spec fn untouched(a: Agent, which: Beacon, c: Config, dt: u64) -> bool {
    cooled(a.trigger_cooldown, dt) > 0 || !within(a.position, beacon_at(c, which), c.contact_radius as int)
}

/// Whether no event that agent `idx` hears carries a smaller counter for
/// `which` than `a`'s own.
pub open spec fn unrelayed(a: Agent, idx: int, which: Beacon, events: Seq<Event>, c: Config) -> bool {
    forall|k: int|
        0 <= k < events.len() && hears(idx, a, #[trigger] events[k], c) ==> source_counter(events[k], which)
            >= counter_of(a, which)
}

/// Relaying never moves an agent.
pub proof fn relay_keeps_position(a: Agent, idx: int, events: Seq<Event>, k: int, c: Config)
    requires
        0 <= k <= events.len(),
    ensures
        relayed(a, idx, events, k, c).position == a.position,
    decreases k,
{
    if k > 0 {
        relay_keeps_position(a, idx, events, k - 1, c);
    }
}

/// While no heard event carries a smaller counter for a beacon, relaying
/// leaves the agent's counter for that beacon as it was.
pub proof fn relay_keeps_counter(a: Agent, idx: int, which: Beacon, events: Seq<Event>, k: int, c: Config)
    requires
        0 <= k <= events.len(),
        unrelayed(a, idx, which, events, c),
    ensures
        counter_of(relayed(a, idx, events, k, c), which) == counter_of(a, which),
    decreases k,
{
    if k > 0 {
        relay_keeps_counter(a, idx, which, events, k - 1, c);
        relay_keeps_position(a, idx, events, k - 1, c);
        let prev = relayed(a, idx, events, k - 1, c);
        assert(hears(idx, prev, events[k - 1], c) == hears(idx, a, events[k - 1], c));
    }
}

/// A signal tick never moves an agent.
pub proof fn tick_keeps_position(agents: Seq<Agent>, i: int, c: Config, dt: u64)
    requires
        0 <= i < agents.len(),
    ensures
        ticked(agents, i, c, dt).position == agents[i].position,
{
    let s = contacted(agents, c, dt);
    let events = harvest(s, s.len() as int);
    relay_keeps_position(quiet(s[i]), i, events, events.len() as int, c);
}

/// The swarm after the first `n` of the signal ticks whose durations are
/// `dts`.
pub open spec fn after_ticks(agents: Seq<Agent>, c: Config, dts: Seq<u64>, n: int) -> Seq<Agent>
    decreases n,
{
    if n <= 0 {
        agents
    } else {
        tick_all(after_ticks(agents, c, dts, n - 1), c, dts[n - 1])
    }
}

/// However many signal ticks pass, there are as many agents as at the
/// start, each still where it was.
pub proof fn ticks_keep_count(agents: Seq<Agent>, c: Config, dts: Seq<u64>, n: int)
    requires
        0 <= n <= dts.len(),
    ensures
        after_ticks(agents, c, dts, n).len() == agents.len(),
        forall|i: int| 0 <= i < agents.len() ==> (#[trigger] after_ticks(agents, c, dts, n)[i]).position == agents[i].position,
    decreases n,
{
    if n > 0 {
        ticks_keep_count(agents, c, dts, n - 1);
        let before = after_ticks(agents, c, dts, n - 1);
        assert forall|i: int| 0 <= i < agents.len() implies (#[trigger] after_ticks(agents, c, dts, n)[i]).position
            == agents[i].position by {
            tick_keeps_position(before, i, c, dts[n - 1]);
        }
    }
}

/// Without a reset or a relay a counter goes up by exactly one per tick:
/// if the contact pass leaves agent `i`'s counter for `which` alone and no
/// event it hears carries a smaller one, the tick adds one to it. A counter
/// already at the largest `u64` stays there, and is left out.
pub proof fn counters_age_by_one(agents: Seq<Agent>, i: int, which: Beacon, c: Config, dt: u64)
    requires
        0 <= i < agents.len(),
        counter_of(agents[i], which) < u64::MAX,
        untouched(agents[i], which, c, dt),
        unrelayed(
            agents[i],
            i,
            which,
            harvest(contacted(agents, c, dt), agents.len() as int),
            c,
        ),
    ensures
        counter_of(ticked(agents, i, c, dt), which) == counter_of(agents[i], which) + 1,
{
    let s = contacted(agents, c, dt);
    let events = harvest(s, s.len() as int);
    let q = quiet(s[i]);
    assert(s[i] == sensed(agents[i], c, dt));
    assert(q.position == agents[i].position);
    assert(counter_of(q, which) == counter_of(agents[i], which));
    assert(unrelayed(q, i, which, events, c)) by {
        assert forall|k: int| 0 <= k < events.len() && hears(i, q, #[trigger] events[k], c) implies source_counter(
            events[k],
            which,
        ) >= counter_of(q, which) by {
            assert(hears(i, agents[i], events[k], c));
        }
    }
    relay_keeps_counter(q, i, which, events, events.len() as int, c);
}

/// An agent standing on beacon A whose cooldown runs out within `dt` leaves
/// the contact pass with `counter_a` at zero and a trigger pending. While
/// the cooldown still runs the contact pass changes nothing but the
/// cooldown, so such an agent is left out.
pub proof fn contact_resets(a: Agent, c: Config, dt: u64)
    requires
        a.position == c.beacon_a,
        cooled(a.trigger_cooldown, dt) == 0,
    ensures
        sensed(a, c, dt).counter_a == 0,
        sensed(a, c, dt).pending_trigger,
{
    let r = c.contact_radius as int;
    assert(r * r >= 0) by (nonlinear_arith);
    assert(within(a.position, c.beacon_a, r));
}

/// An agent whose cooldown is running gets no trigger from a relay, and
/// its cooldown is not restarted, whatever the counters: one event.
pub proof fn cooldown_gates_event(a: Agent, e: Event, cooldown: u64)
    requires
        a.trigger_cooldown > 0,
    ensures
        received(a, e, cooldown).pending_trigger == a.pending_trigger,
        received(a, e, cooldown).trigger_cooldown == a.trigger_cooldown,
{
}

/// An agent whose cooldown is running gets no trigger from the relay pass,
/// whatever events it hears.
pub proof fn cooldown_gates_relay(a: Agent, idx: int, events: Seq<Event>, k: int, c: Config)
    requires
        0 <= k <= events.len(),
        a.trigger_cooldown > 0,
    ensures
        relayed(a, idx, events, k, c).pending_trigger == a.pending_trigger,
        relayed(a, idx, events, k, c).trigger_cooldown == a.trigger_cooldown,
    decreases k,
{
    if k > 0 {
        cooldown_gates_relay(a, idx, events, k - 1, c);
        cooldown_gates_event(relayed(a, idx, events, k - 1, c), events[k - 1], c.cooldown);
    }
}

/// A relay changes a receiver's counter for a beacon only when it is
/// larger than the source's, and then to the source's plus `RELAY_LAG`.
/// Source counters within `RELAY_LAG` of the largest `u64`, where the sum
/// stops at that value, are left out.
pub proof fn relay_offset(a: Agent, which: Beacon, e: Event, cooldown: u64)
    requires
        source_counter(e, which) + RELAY_LAG <= u64::MAX,
    ensures
        counter_of(a, which) > source_counter(e, which) ==> counter_of(received(a, e, cooldown), which)
            == source_counter(e, which) + RELAY_LAG,
        counter_of(a, which) <= source_counter(e, which) ==> counter_of(received(a, e, cooldown), which)
            == counter_of(a, which),
        counter_of(received(a, e, cooldown), which) != counter_of(a, which) ==> counter_of(a, which)
            > source_counter(e, which),
{
}

/// An agent that ends its step beyond the right-hand bound, and inside the
/// vertical ones, has its course mirrored across the vertical axis before
/// the random turn is added.
pub proof fn bounce_off_side(a: Agent, b: Bounds, s: Step, jitter: int)
    requires
        b.min_x < b.max_x,
        clamp_coord(a.position.x + s.dx) > b.max_x,
        b.min_y <= clamp_coord(a.position.y + s.dy) <= b.max_y,
    ensures
        moved(a, b, s, jitter).heading == wrap_angle(wrap_angle(HALF_TURN - course(a, s)) + jitter),
{
}

} // verus!
