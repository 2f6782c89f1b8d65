//! The swarm: all agents, and the passes of a tick over them.

use vstd::prelude::*;
use rand::rngs::StdRng;
use crate::agent::{aged, hears, moved, received, sensed, Agent, Event, Step, HEADING_JITTER};
use crate::config::{config_fault, Beacon, Config, ConfigError};
use crate::geometry::{clamp_coord, shift, Bounds, Point, FULL_TURN};
use crate::proximity::ProximityIndex;
use crate::random::draw_between;

verus! {

/// All agents of a simulation, with its configuration. An agent is known by
/// its index, which never changes.
pub struct Swarm {
    pub config: Config,
    pub agents: Vec<Agent>,
}

/// Why a motion step is refused.
#[derive(Clone, Copy, Debug, PartialEq, Eq, Structural)]
pub enum MotionError {
    /// There is not exactly one step per agent.
    StepCount,
}

/// An agent with its pending trigger cleared.
pub open spec fn quiet(a: Agent) -> Agent {
    Agent { pending_trigger: false, ..a }
}

/// The event that agent `i` fires.
pub open spec fn event_of(agents: Seq<Agent>, i: int) -> Event {
    Event {
        source: i as usize,
        position: agents[i].position,
        counter_a: agents[i].counter_a,
        counter_b: agents[i].counter_b,
    }
}

/// All agents after the contact pass.
pub open spec fn contacted(agents: Seq<Agent>, c: Config, dt: u64) -> Seq<Agent> {
    Seq::new(agents.len(), |i: int| sensed(agents[i], c, dt))
}

/// The events fired by the first `n` agents, in order of index: one for
/// each agent with a pending trigger.
pub open spec fn harvest(agents: Seq<Agent>, n: int) -> Seq<Event>
    decreases n,
{
    if n <= 0 {
        Seq::empty()
    } else if agents[n - 1].pending_trigger {
        harvest(agents, n - 1).push(event_of(agents, n - 1))
    } else {
        harvest(agents, n - 1)
    }
}

/// Agent `idx` after the first `k` events have been relayed, in order.
pub open spec fn relayed(a: Agent, idx: int, events: Seq<Event>, k: int, c: Config) -> Agent
    decreases k,
{
    if k <= 0 {
        a
    } else {
        let prev = relayed(a, idx, events, k - 1, c);
        if hears(idx, prev, events[k - 1], c) {
            received(prev, events[k - 1], c.cooldown)
        } else {
            prev
        }
    }
}

/// Agent `i` after a whole signal tick: contact, harvest, relay, ageing.
pub open spec fn ticked(agents: Seq<Agent>, i: int, c: Config, dt: u64) -> Agent {
    let s = contacted(agents, c, dt);
    let events = harvest(s, s.len() as int);
    aged(relayed(quiet(s[i]), i, events, events.len() as int, c))
}

/// All agents after a whole signal tick.
pub open spec fn tick_all(agents: Seq<Agent>, c: Config, dt: u64) -> Seq<Agent> {
    Seq::new(agents.len(), |i: int| ticked(agents, i, c, dt))
}

/// Where the agent of a grid cell is put, given its random offsets.
pub open spec fn grid_point(c: Config, col: int, row: int, jx: int, jy: int) -> Point {
    Point {
        x: clamp_coord(clamp_coord(c.grid_origin.x + col * c.spacing_x) + jx) as i64,
        y: clamp_coord(clamp_coord(c.grid_origin.y + row * c.spacing_y) + jy) as i64,
    }
}

/// A newly made agent.
pub open spec fn fresh(position: Point, heading: i64, speed: i64, destination: Beacon) -> Agent {
    Agent {
        position,
        heading,
        speed,
        counter_a: 0,
        counter_b: 0,
        destination,
        pending_trigger: false,
        trigger_cooldown: 0,
        ring: None,
        glow: 0,
        turn_toward: None,
    }
}

/// Whether `a` may be what spawning puts into a grid cell: a fresh agent
/// within the jitter of the cell's grid point, with a heading inside one
/// turn and a speed inside the configured range.
pub open spec fn spawnable(a: Agent, c: Config, col: int, row: int) -> bool {
    &&& 0 <= a.heading < FULL_TURN
    &&& c.speed_min <= a.speed <= c.speed_max
    &&& exists|jx: int, jy: int|
        -c.jitter <= jx <= c.jitter && -c.jitter <= jy <= c.jitter && a == fresh(
            #[trigger] grid_point(c, col, row, jx, jy),
            a.heading,
            a.speed,
            a.destination,
        )
}

/// Whether `r` may be what a motion step makes of `a`: the step taken with
/// some random turn of at most `HEADING_JITTER` either way.
pub open spec fn may_move_to(a: Agent, b: Bounds, s: Step, r: Agent) -> bool {
    exists|jitter: int|
        -HEADING_JITTER <= jitter <= HEADING_JITTER && r == #[trigger] moved(a, b, s, jitter)
}

/// Puts the agent of one grid cell in place.
pub fn spawn_agent(
    config: &Config,
    col: u16,
    row: u16,
    jx: i64,
    jy: i64,
    heading: i64,
    speed: i64,
    toward_a: bool,
) -> (a: Agent)
    ensures
        a == fresh(
            grid_point(*config, col as int, row as int, jx as int, jy as int),
            heading,
            speed,
            if toward_a { Beacon::A } else { Beacon::B },
        ),
{
    proof {
        assert(0 <= (col as int) * (config.spacing_x as int) <= 0xffff * 0xffff_ffff) by (nonlinear_arith)
            requires
                0 <= col as int <= 0xffff,
                0 <= config.spacing_x as int <= 0xffff_ffff,
        ;
        assert(0 <= (row as int) * (config.spacing_y as int) <= 0xffff * 0xffff_ffff) by (nonlinear_arith)
            requires
                0 <= row as int <= 0xffff,
                0 <= config.spacing_y as int <= 0xffff_ffff,
        ;
    }
    let off_x: i64 = col as i64 * config.spacing_x as i64;
    let off_y: i64 = row as i64 * config.spacing_y as i64;
    let position = Point {
        x: shift(shift(config.grid_origin.x, off_x), jx),
        y: shift(shift(config.grid_origin.y, off_y), jy),
    };
    Agent::new(position, heading, speed, if toward_a { Beacon::A } else { Beacon::B })
}

impl View for Swarm {
    type V = Seq<Agent>;

    open spec fn view(&self) -> Seq<Agent> {
        self.agents@
    }
}

impl Swarm {
    /// Whether the swarm's configuration is free of faults.
    pub open spec fn wf(&self) -> bool {
        self.config.valid()
    }

    /// A swarm of the given agents, if the configuration is acceptable.
    pub fn new(config: Config, agents: Vec<Agent>) -> (r: Result<Swarm, ConfigError>)
        ensures
            r is Ok <==> config.valid(),
            r is Err ==> config_fault(config) == Some(r->Err_0),
            r is Ok ==> r->Ok_0.config == config && r->Ok_0@ == agents@,
    {
        match config.validate() {
            Err(e) => Err(e),
            Ok(()) => Ok(Swarm { config, agents }),
        }
    }

    /// A swarm spawned on the configured grid, column by column, one agent
    /// per cell. The generator supplies each agent's offsets, heading,
    /// speed and destination. A faulty configuration draws nothing.
    pub fn populate(config: Config, rng: &mut StdRng) -> (r: Result<Swarm, ConfigError>)
        ensures
            r is Ok <==> config.valid(),
            r is Err ==> config_fault(config) == Some(r->Err_0),
            r is Ok ==> ({
                let s = r->Ok_0;
                &&& s.config == config
                &&& s.wf()
                &&& s@.len() == config.columns * config.rows
                &&& forall|n: int|
                    0 <= n < s@.len() ==> spawnable(
                        #[trigger] s@[n],
                        config,
                        n / (config.rows as int),
                        n % (config.rows as int),
                    )
            }),
    {
        match config.validate() {
            Err(e) => {
                return Err(e);
            },
            Ok(()) => {},
        }
        let mut agents: Vec<Agent> = Vec::new();
        let spread: i64 = config.jitter as i64;
        let rows = config.rows;
        let mut col: u16 = 0;
        while col < config.columns
            invariant
                config.valid(),
                rows == config.rows,
                spread == config.jitter,
                col <= config.columns,
                agents@.len() == col * rows,
                forall|n: int|
                    0 <= n < agents@.len() ==> spawnable(
                        #[trigger] agents@[n],
                        config,
                        n / (rows as int),
                        n % (rows as int),
                    ),
            decreases config.columns - col,
        {
            let mut row: u16 = 0;
            while row < rows
                invariant
                    config.valid(),
                    rows == config.rows,
                    spread == config.jitter,
                    col < config.columns,
                    row <= rows,
                    agents@.len() == col * rows + row,
                    forall|n: int|
                        0 <= n < agents@.len() ==> spawnable(
                            #[trigger] agents@[n],
                            config,
                            n / (rows as int),
                            n % (rows as int),
                        ),
                decreases rows - row,
            {
                let jx: i64 = draw_between(rng, -spread, spread);
                let jy: i64 = draw_between(rng, -spread, spread);
                let heading: i64 = draw_between(rng, 0, FULL_TURN - 1);
                let speed: i64 = draw_between(rng, config.speed_min, config.speed_max);
                let coin: i64 = draw_between(rng, 0, 1);
                let agent = spawn_agent(&config, col, row, jx, jy, heading, speed, coin == 0);
                let ghost n0 = agents@.len() as int;
                proof {
                    lemma_cell_index(col as int, row as int, rows as int);
                    assert(spawnable(agent, config, n0 / (rows as int), n0 % (rows as int)));
                }
                agents.push(agent);
                row += 1;
            }
            proof {
                assert((col + 1) * rows == col * rows + rows) by (nonlinear_arith);
            }
            col += 1;
        }
        Ok(Swarm { config, agents })
    }

    /// How many agents there are.
    pub fn len(&self) -> (n: usize)
        ensures
            n == self@.len(),
    {
        self.agents.len()
    }

    /// The agent at index `i`, which must exist.
    pub fn agent(&self, i: usize) -> (a: &Agent)
        requires
            i < self@.len(),
        ensures
            *a == self@[i as int],
    {
        &self.agents[i]
    }

    /// The contact pass: every agent's cooldown runs down, and those whose
    /// cooldown is over touch the beacons in reach.
    pub fn sense_beacons(&mut self, dt: u64)
        ensures
            final(self).config == old(self).config,
            final(self)@ == contacted(old(self)@, old(self).config, dt),
    {
        let mut i: usize = 0;
        while i < self.agents.len()
            invariant
                self.config == old(self).config,
                self@.len() == old(self)@.len(),
                i <= self@.len(),
                forall|j: int| 0 <= j < i ==> self@[j] == sensed(#[trigger] old(self)@[j], self.config, dt),
                forall|j: int| i <= j < self@.len() ==> self@[j] == #[trigger] old(self)@[j],
            decreases self@.len() - i,
        {
            let next = self.agents[i].sense(&self.config, dt);
            self.agents.set(i, next);
            i += 1;
        }
        assert(self@ =~= contacted(old(self)@, old(self).config, dt));
    }

    /// The harvest pass: collects the event of every agent with a pending
    /// trigger, in order of index, and clears all pending triggers.
    pub fn harvest_triggers(&mut self) -> (events: Vec<Event>)
        ensures
            final(self).config == old(self).config,
            final(self)@.len() == old(self)@.len(),
            forall|i: int| 0 <= i < old(self)@.len() ==> final(self)@[i] == quiet(#[trigger] old(self)@[i]),
            events@ == harvest(old(self)@, old(self)@.len() as int),
    {
        let mut events: Vec<Event> = Vec::new();
        let mut i: usize = 0;
        while i < self.agents.len()
            invariant
                self.config == old(self).config,
                self@.len() == old(self)@.len(),
                i <= self@.len(),
                events@ == harvest(old(self)@, i as int),
                forall|j: int| 0 <= j < i ==> self@[j] == quiet(#[trigger] old(self)@[j]),
                forall|j: int| i <= j < self@.len() ==> self@[j] == #[trigger] old(self)@[j],
            decreases self@.len() - i,
        {
            let mut agent = self.agents[i];
            if agent.pending_trigger {
                events.push(Event {
                    source: i,
                    position: agent.position,
                    counter_a: agent.counter_a,
                    counter_b: agent.counter_b,
                });
                agent.pending_trigger = false;
                self.agents.set(i, agent);
            }
            i += 1;
        }
        events
    }

    /// The relay pass: each event in turn reaches every agent that hears
    /// it. `index` holds the agents' positions.
    pub fn relay(&mut self, events: &Vec<Event>, index: &ProximityIndex)
        requires
            index.snapshot_of(old(self)@),
        ensures
            final(self).config == old(self).config,
            final(self)@.len() == old(self)@.len(),
            forall|i: int|
                0 <= i < old(self)@.len() ==> final(self)@[i] == relayed(
                    #[trigger] old(self)@[i],
                    i,
                    events@,
                    events@.len() as int,
                    old(self).config,
                ),
    {
        let mut k: usize = 0;
        while k < events.len()
            invariant
                self.config == old(self).config,
                self@.len() == old(self)@.len(),
                k <= events@.len(),
                index.snapshot_of(self@),
                forall|i: int|
                    0 <= i < self@.len() ==> self@[i] == relayed(
                        #[trigger] old(self)@[i],
                        i,
                        events@,
                        k as int,
                        self.config,
                    ),
            decreases events@.len() - k,
        {
            let event = events[k];
            let found = index.query(event.position, self.config.relay_radius, event.source);
            let ghost base = self@;
            let mut j: usize = 0;
            while j < found.len()
                invariant
                    self.config == old(self).config,
                    self@.len() == base.len(),
                    index.snapshot_of(base),
                    index.positions@.len() == base.len(),
                    j <= found@.len(),
                    event == events@[k as int],
                    forall|m: int, n: int| 0 <= m < n < found@.len() ==> found@[m] < found@[n],
                    forall|m: int|
                        0 <= m < found@.len() ==> index.near(
                            #[trigger] found@[m] as int,
                            event.position,
                            self.config.relay_radius as int,
                            event.source as int,
                        ),
                    forall|i: int|
                        0 <= i < base.len() ==> #[trigger] self@[i] == (if exists|m: int|
                            0 <= m < j && #[trigger] found@[m] == i {
                            received(base[i], event, self.config.cooldown)
                        } else {
                            base[i]
                        }),
                decreases found@.len() - j,
            {
                let target = found[j];
                proof {
                    // Indices rise, so `target` has not been reached yet.
                    if exists|m: int| 0 <= m < j && #[trigger] found@[m] == target {
                        let m = choose|m: int| 0 <= m < j && #[trigger] found@[m] == target;
                        assert(found@[m] < found@[j as int]);
                    }
                }
                let next = self.agents[target].receive(&event, self.config.cooldown);
                self.agents.set(target, next);
                proof {
                    assert forall|i: int| 0 <= i < base.len() implies #[trigger] self@[i] == (if exists|m: int|
                        0 <= m < j + 1 && #[trigger] found@[m] == i {
                        received(base[i], event, self.config.cooldown)
                    } else {
                        base[i]
                    }) by {
                        if i == target {
                            assert(found@[j as int] == i);
                        } else {
                            if exists|m: int| 0 <= m < j + 1 && #[trigger] found@[m] == i {
                                let m = choose|m: int| 0 <= m < j + 1 && #[trigger] found@[m] == i;
                                assert(m != j);
                                assert(0 <= m < j && found@[m] == i);
                            }
                        }
                    }
                }
                j += 1;
            }
            proof {
                assert forall|i: int| 0 <= i < self@.len() implies self@[i] == relayed(
                    #[trigger] old(self)@[i],
                    i,
                    events@,
                    k + 1,
                    self.config,
                ) by {
                    let prev = relayed(old(self)@[i], i, events@, k as int, self.config);
                    assert(base[i] == prev);
                    let listed = exists|m: int| 0 <= m < found@.len() && #[trigger] found@[m] == i;
                    if listed {
                        let m = choose|m: int| 0 <= m < found@.len() && #[trigger] found@[m] == i;
                        assert(index.near(found@[m] as int, event.position, self.config.relay_radius as int, event.source as int));
                        assert(hears(i, prev, event, self.config));
                    } else {
                        if hears(i, prev, event, self.config) {
                            assert(index.near(i, event.position, self.config.relay_radius as int, event.source as int));
                            assert(false);
                        }
                    }
                }
                assert forall|i: int| 0 <= i < self@.len() implies index.positions@[i] == (#[trigger] self@[i]).position by {
                    assert(index.positions@[i] == base[i].position);
                }
            }
            k += 1;
        }
    }

    /// The ageing pass: every agent's counters go up and its ring fades.
    pub fn age_all(&mut self)
        ensures
            final(self).config == old(self).config,
            final(self)@.len() == old(self)@.len(),
            forall|i: int| 0 <= i < old(self)@.len() ==> final(self)@[i] == aged(#[trigger] old(self)@[i]),
    {
        let mut i: usize = 0;
        while i < self.agents.len()
            invariant
                self.config == old(self).config,
                self@.len() == old(self)@.len(),
                i <= self@.len(),
                forall|j: int| 0 <= j < i ==> self@[j] == aged(#[trigger] old(self)@[j]),
                forall|j: int| i <= j < self@.len() ==> self@[j] == #[trigger] old(self)@[j],
            decreases self@.len() - i,
        {
            let next = self.agents[i].age();
            self.agents.set(i, next);
            i += 1;
        }
    }

    /// One signal tick after `dt` microseconds: the positions are recorded,
    /// then come the contact, harvest, relay and ageing passes. No agent
    /// moves; those told to face a signal source carry it in `turn_toward`.
    pub fn propagate(&mut self, dt: u64)
        ensures
            final(self).config == old(self).config,
            final(self)@.len() == old(self)@.len(),
            final(self)@ == tick_all(old(self)@, old(self).config, dt),
    {
        let index = ProximityIndex::build(&self.agents);
        self.sense_beacons(dt);
        let ghost s = self@;
        let events = self.harvest_triggers();
        let ghost q = self@;
        proof {
            assert forall|i: int| 0 <= i < q.len() implies index.positions@[i] == (#[trigger] q[i]).position by {
                assert(q[i] == quiet(s[i]));
                assert(s[i] == sensed(old(self)@[i], self.config, dt));
            }
        }
        self.relay(&events, &index);
        self.age_all();
        assert(self@ =~= tick_all(old(self)@, old(self).config, dt));
    }

    /// The motion step: every agent takes its step with a random turn drawn
    /// from the generator. Without exactly one step per agent nothing
    /// moves and nothing is drawn.
    pub fn advance(&mut self, steps: &Vec<Step>, rng: &mut StdRng) -> (r: Result<(), MotionError>)
        ensures
            final(self).config == old(self).config,
            final(self)@.len() == old(self)@.len(),
            r is Ok <==> steps@.len() == old(self)@.len(),
            r is Err ==> final(self)@ == old(self)@,
            r is Ok ==> forall|i: int|
                0 <= i < old(self)@.len() ==> may_move_to(
                    old(self)@[i],
                    old(self).config.bounds,
                    steps@[i],
                    #[trigger] final(self)@[i],
                ),
    {
        if steps.len() != self.agents.len() {
            return Err(MotionError::StepCount);
        }
        let mut i: usize = 0;
        while i < self.agents.len()
            invariant
                self.config == old(self).config,
                self@.len() == old(self)@.len(),
                steps@.len() == self@.len(),
                i <= self@.len(),
                forall|j: int|
                    0 <= j < i ==> may_move_to(
                        old(self)@[j],
                        self.config.bounds,
                        steps@[j],
                        #[trigger] self@[j],
                    ),
                forall|j: int| i <= j < self@.len() ==> self@[j] == #[trigger] old(self)@[j],
            decreases self@.len() - i,
        {
            let jitter: i64 = draw_between(rng, -HEADING_JITTER, HEADING_JITTER);
            let next = self.agents[i].advance(&self.config.bounds, &steps[i], jitter);
            self.agents.set(i, next);
            i += 1;
        }
        Ok(())
    }
}

/// A cell's place in the column-by-column order determines the cell.
proof fn lemma_cell_index(col: int, row: int, rows: int)
    requires
        0 <= col,
        0 <= row < rows,
    ensures
        (col * rows + row) / rows == col,
        (col * rows + row) % rows == row,
{
    assert(col * rows + row == rows * col + row) by (nonlinear_arith);
    vstd::arithmetic::div_mod::lemma_fundamental_div_mod_converse(col * rows + row, rows, col, row);
}

} // verus!
