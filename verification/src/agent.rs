//! One agent, and what each pass of a tick does to it.

use vstd::prelude::*;
use crate::config::{beacon_at, other, Beacon, Config};
use crate::geometry::{clamp_coord, in_range, reflect, reflected, shift, within, wrap, wrap_angle, Bounds, Point};

verus! {

/// What a relayed counter is set ahead of its source by, in ticks.
pub const RELAY_LAG: u64 = 350;

/// The glow of a ring that has just lit up.
pub const FULL_GLOW: u32 = 1000;

/// What a ring's glow loses per tick.
pub const GLOW_DECAY: u32 = 100;

/// The largest random turn per tick, in angle units, either way.
pub const HEADING_JITTER: i64 = 20_000;

/// A mobile agent.
#[derive(Clone, Copy, Debug, PartialEq, Eq)]
pub struct Agent {
    /// Where the agent is.
    pub position: Point,
    /// The direction of travel, in angle units.
    pub heading: i64,
    /// Thousandths of a unit per second, fixed at creation.
    pub speed: i64,
    /// Ticks since beacon A's signal last reached the agent.
    pub counter_a: u64,
    /// Ticks since beacon B's signal last reached the agent.
    pub counter_b: u64,
    /// The beacon the agent is travelling to.
    pub destination: Beacon,
    /// Set by a beacon contact or a relay; cleared when harvested.
    pub pending_trigger: bool,
    /// Microseconds until the agent may trigger again.
    pub trigger_cooldown: u64,
    /// The beacon whose colour the ring shows, once any has lit it.
    pub ring: Option<Beacon>,
    /// The ring's glow, from 0 to `FULL_GLOW`.
    pub glow: u32,
    /// The signal source the agent has been told to face. The host turns
    /// it into a bearing for the next motion step.
    pub turn_toward: Option<Point>,
}

/// A fired trigger, as its neighbours hear it.
#[derive(Clone, Copy, Debug, PartialEq, Eq)]
pub struct Event {
    /// Index of the agent that fired.
    pub source: usize,
    /// Where it fired.
    pub position: Point,
    /// The source's counter for beacon A when it fired.
    pub counter_a: u64,
    /// The source's counter for beacon B when it fired.
    pub counter_b: u64,
}

/// What the host supplies for one agent's motion step.
#[derive(Clone, Copy, Debug, PartialEq, Eq)]
pub struct Step {
    /// The angle from the agent to its `turn_toward` point. Read only when
    /// there is one.
    pub bearing: i64,
    /// Displacement along x for this tick.
    pub dx: i64,
    /// Displacement along y for this tick.
    pub dy: i64,
}

/// What the host paints a ring with: colour channels and opacity, each in
/// thousandths.
#[derive(Clone, Copy, Debug, PartialEq, Eq, Structural)]
pub struct Tint {
    pub red: u32,
    pub green: u32,
    pub blue: u32,
    pub alpha: u32,
}

/// The tint of an agent's ring: black before any signal has lit it, then
/// beacon A's yellow or beacon B's green, as opaque as the ring glows.
pub open spec fn tint_of(a: Agent) -> Tint {
    match a.ring {
        None => Tint { red: 0, green: 0, blue: 0, alpha: a.glow },
        Some(Beacon::A) => Tint { red: 1000, green: 1000, blue: 0, alpha: a.glow },
        Some(Beacon::B) => Tint { red: 0, green: 1000, blue: 0, alpha: a.glow },
    }
}

/// A counter sum that stops at the largest `u64`.
pub open spec fn capped(v: int) -> u64 {
    if v > u64::MAX { u64::MAX } else { v as u64 }
}

/// The cooldown left after `dt` more microseconds.
pub open spec fn cooled(cooldown: u64, dt: u64) -> u64 {
    if cooldown > dt { (cooldown - dt) as u64 } else { 0 }
}

/// An agent after touching the given beacon.
pub open spec fn touched(a: Agent, which: Beacon, cooldown: u64) -> Agent {
    Agent {
        counter_a: if which == Beacon::A { 0 } else { a.counter_a },
        counter_b: if which == Beacon::B { 0 } else { a.counter_b },
        pending_trigger: true,
        trigger_cooldown: cooldown,
        destination: if a.destination == which { other(which) } else { a.destination },
        ..a
    }
}

/// An agent after the contact pass: the cooldown runs down by `dt`; if none
/// is left, beacon A and then beacon B are touched where in reach.
pub open spec fn sensed(a: Agent, c: Config, dt: u64) -> Agent {
    let a0 = Agent { trigger_cooldown: cooled(a.trigger_cooldown, dt), ..a };
    if a0.trigger_cooldown > 0 {
        a0
    } else {
        let a1 = if within(a.position, beacon_at(c, Beacon::A), c.contact_radius as int) {
            touched(a0, Beacon::A, c.cooldown)
        } else {
            a0
        };
        if within(a.position, beacon_at(c, Beacon::B), c.contact_radius as int) {
            touched(a1, Beacon::B, c.cooldown)
        } else {
            a1
        }
    }
}

/// The receiver's counter for `which`.
pub open spec fn counter_of(a: Agent, which: Beacon) -> u64 {
    match which {
        Beacon::A => a.counter_a,
        Beacon::B => a.counter_b,
    }
}

/// An agent after hearing one beacon's half of an event whose source
/// counter for that beacon is `src`: nothing changes unless the agent's own
/// counter is larger.
pub open spec fn caught(a: Agent, which: Beacon, src: u64, from: Point, cooldown: u64) -> Agent {
    if counter_of(a, which) > src {
        Agent {
            counter_a: if which == Beacon::A { capped(src + RELAY_LAG) } else { a.counter_a },
            counter_b: if which == Beacon::B { capped(src + RELAY_LAG) } else { a.counter_b },
            pending_trigger: a.pending_trigger || a.trigger_cooldown == 0,
            trigger_cooldown: if a.trigger_cooldown == 0 { cooldown } else { a.trigger_cooldown },
            turn_toward: if a.destination == which { Some(from) } else { a.turn_toward },
            ring: Some(which),
            glow: FULL_GLOW,
            ..a
        }
    } else {
        a
    }
}

/// An agent after hearing an event: beacon A's half, then beacon B's.
pub open spec fn received(a: Agent, e: Event, cooldown: u64) -> Agent {
    caught(caught(a, Beacon::A, e.counter_a, e.position, cooldown), Beacon::B, e.counter_b, e.position, cooldown)
}

/// Whether the agent at index `idx` hears the event: it is not the source,
/// and it is within the relay radius of it.
pub open spec fn hears(idx: int, a: Agent, e: Event, c: Config) -> bool {
    idx != e.source && within(e.position, a.position, c.relay_radius as int)
}

/// An agent after the ageing pass.
pub open spec fn aged(a: Agent) -> Agent {
    Agent {
        counter_a: capped(a.counter_a + 1),
        counter_b: capped(a.counter_b + 1),
        glow: if a.glow > GLOW_DECAY { (a.glow - GLOW_DECAY) as u32 } else { 0 },
        ..a
    }
}

/// The heading an agent travels along in a motion step.
pub open spec fn course(a: Agent, s: Step) -> int {
    match a.turn_toward {
        Some(_) => s.bearing as int,
        None => a.heading as int,
    }
}

/// An agent after a motion step with the given random turn.
pub open spec fn moved(a: Agent, b: Bounds, s: Step, jitter: int) -> Agent {
    let p = Point { x: clamp_coord(a.position.x + s.dx) as i64, y: clamp_coord(a.position.y + s.dy) as i64 };
    Agent {
        position: p,
        heading: wrap_angle(wrap_angle(reflected(course(a, s), p, b)) + jitter) as i64,
        turn_toward: None,
        ..a
    }
}

impl Agent {
    /// A fresh agent: counters at zero, nothing pending, ring dark.
    pub fn new(position: Point, heading: i64, speed: i64, destination: Beacon) -> (a: Agent)
        ensures
            a == (Agent {
                position,
                heading,
                speed,
                counter_a: 0,
                counter_b: 0,
                destination,
                pending_trigger: false,
                trigger_cooldown: 0,
                ring: None,
                glow: 0,
                turn_toward: None,
            }),
    {
        Agent {
            position,
            heading,
            speed,
            counter_a: 0,
            counter_b: 0,
            destination,
            pending_trigger: false,
            trigger_cooldown: 0,
            ring: None,
            glow: 0,
            turn_toward: None,
        }
    }

    /// The tint of the agent's ring.
    pub fn tint(&self) -> (t: Tint)
        ensures
            t == tint_of(*self),
    {
        match self.ring {
            None => Tint { red: 0, green: 0, blue: 0, alpha: self.glow },
            Some(Beacon::A) => Tint { red: 1000, green: 1000, blue: 0, alpha: self.glow },
            Some(Beacon::B) => Tint { red: 0, green: 1000, blue: 0, alpha: self.glow },
        }
    }

    /// Touches a beacon: its counter restarts, a trigger is pending, the
    /// cooldown starts, and an agent that was travelling to this beacon
    /// turns to the other.
    pub fn touch(self, which: Beacon, cooldown: u64) -> (r: Agent)
        ensures
            r == touched(self, which, cooldown),
    {
        let mut r = self;
        match which {
            Beacon::A => {
                r.counter_a = 0;
            },
            Beacon::B => {
                r.counter_b = 0;
            },
        }
        r.pending_trigger = true;
        r.trigger_cooldown = cooldown;
        if r.destination == which {
            r.destination = which.flip();
        }
        r
    }

    /// The contact pass for one agent.
    pub fn sense(self, config: &Config, dt: u64) -> (r: Agent)
        ensures
            r == sensed(self, *config, dt),
    {
        let mut r = self;
        r.trigger_cooldown = if r.trigger_cooldown > dt { r.trigger_cooldown - dt } else { 0 };
        if r.trigger_cooldown > 0 {
            return r;
        }
        if in_range(r.position, config.beacon(Beacon::A), config.contact_radius) {
            r = r.touch(Beacon::A, config.cooldown);
        }
        if in_range(r.position, config.beacon(Beacon::B), config.contact_radius) {
            r = r.touch(Beacon::B, config.cooldown);
        }
        r
    }

    /// Hears one beacon's half of an event.
    pub fn catch_signal(self, which: Beacon, src: u64, from: Point, cooldown: u64) -> (r: Agent)
        ensures
            r == caught(self, which, src, from, cooldown),
    {
        let own: u64 = match which {
            Beacon::A => self.counter_a,
            Beacon::B => self.counter_b,
        };
        if own <= src {
            return self;
        }
        let mut r = self;
        let ahead: u64 = if src > u64::MAX - RELAY_LAG { u64::MAX } else { src + RELAY_LAG };
        match which {
            Beacon::A => {
                r.counter_a = ahead;
            },
            Beacon::B => {
                r.counter_b = ahead;
            },
        }
        if r.trigger_cooldown == 0 {
            r.pending_trigger = true;
            r.trigger_cooldown = cooldown;
        }
        if r.destination == which {
            r.turn_toward = Some(from);
        }
        r.ring = Some(which);
        r.glow = FULL_GLOW;
        r
    }

    /// Hears an event in full.
    pub fn receive(self, event: &Event, cooldown: u64) -> (r: Agent)
        ensures
            r == received(self, *event, cooldown),
    {
        let half = self.catch_signal(Beacon::A, event.counter_a, event.position, cooldown);
        half.catch_signal(Beacon::B, event.counter_b, event.position, cooldown)
    }

    /// The ageing pass for one agent: both counters go up by one, the ring
    /// fades by one step and stays at zero once dark.
    pub fn age(self) -> (r: Agent)
        ensures
            r == aged(self),
    {
        let mut r = self;
        r.counter_a = if r.counter_a == u64::MAX { u64::MAX } else { r.counter_a + 1 };
        r.counter_b = if r.counter_b == u64::MAX { u64::MAX } else { r.counter_b + 1 };
        r.glow = if r.glow > GLOW_DECAY { r.glow - GLOW_DECAY } else { 0 };
        r
    }

    /// The motion step for one agent: it takes up a pending bearing, moves
    /// by the displacement, bounces off the rectangle and turns by `jitter`.
    pub fn advance(self, bounds: &Bounds, step: &Step, jitter: i64) -> (r: Agent)
        ensures
            r == moved(self, *bounds, *step, jitter as int),
            0 <= r.heading < crate::geometry::FULL_TURN,
    {
        let mut r = self;
        let course: i64 = match r.turn_toward {
            Some(_) => step.bearing,
            None => r.heading,
        };
        r.position = Point { x: shift(r.position.x, step.dx), y: shift(r.position.y, step.dy) };
        let bounced: i64 = reflect(course, r.position, *bounds);
        r.heading = wrap(bounced as i128 + jitter as i128);
        r.turn_toward = None;
        r
    }
}

} // verus!
