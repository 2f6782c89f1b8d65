use rand::rngs::StdRng;
use rand::SeedableRng;
use swarm_signal::agent::{Agent, Event, Step, HEADING_JITTER};
use swarm_signal::config::{Beacon, Config, ConfigError};
use swarm_signal::geometry::{wrap, Point, FULL_TURN, HALF_TURN};
use swarm_signal::proximity::ProximityIndex;
use swarm_signal::swarm::{spawn_agent, MotionError, Swarm};

fn pt(x: i64, y: i64) -> Point {
    Point { x, y }
}

fn swarm_of(agents: Vec<Agent>) -> Swarm {
    match Swarm::new(Config::reference(), agents) {
        Ok(s) => s,
        Err(e) => panic!("{}", e.message()),
    }
}

fn still(n: usize) -> Vec<Step> {
    vec![Step { bearing: 0, dx: 0, dy: 0 }; n]
}

/// The bearing from `q` to `p`, in angle units.
fn bearing(q: Point, p: Point) -> i64 {
    let radians = ((p.y - q.y) as f64).atan2((p.x - q.x) as f64);
    (radians / std::f64::consts::PI * HALF_TURN as f64).round() as i64
}

#[test]
fn proximity_query_lists_neighbours_in_rising_order() {
    let agents = vec![
        Agent::new(pt(0, 0), 0, 1, Beacon::A),
        Agent::new(pt(350_000, 0), 0, 1, Beacon::A),
        Agent::new(pt(350_001, 0), 0, 1, Beacon::A),
        Agent::new(pt(0, -100), 0, 1, Beacon::A),
        Agent::new(pt(-200_000, 200_000), 0, 1, Beacon::A),
    ];
    let index = ProximityIndex::build(&agents);
    assert_eq!(index.positions.len(), 5);
    assert_eq!(index.positions[4], pt(-200_000, 200_000));
    assert_eq!(index.query(pt(0, 0), 350_000, 0), vec![1, 3, 4]);
    assert_eq!(index.query(pt(0, 0), 350_000, 3), vec![0, 1, 4]);
    assert_eq!(index.query(pt(0, 0), 350_000, 99), vec![0, 1, 3, 4]);
    assert_eq!(index.query(pt(0, 0), 99, 0), Vec::<usize>::new());
    assert_eq!(index.query(pt(350_001, 0), 1, 0), vec![1, 2]);
}

#[test]
fn proximity_excludes_by_index_not_by_position() {
    let agents = vec![
        Agent::new(pt(5, 5), 0, 1, Beacon::A),
        Agent::new(pt(5, 5), 0, 1, Beacon::A),
    ];
    let index = ProximityIndex::build(&agents);
    assert_eq!(index.query(pt(5, 5), 10, 0), vec![1]);
    assert_eq!(index.query(pt(5, 5), 10, 1), vec![0]);
}

#[test]
fn new_swarm_rejects_a_faulty_configuration() {
    let mut c = Config::reference();
    c.relay_radius = 0;
    assert!(matches!(Swarm::new(c, Vec::new()), Err(ConfigError::ZeroRadius)));
    let s = swarm_of(vec![Agent::new(pt(1, 2), 3, 4, Beacon::B)]);
    assert_eq!(s.len(), 1);
    assert_eq!(*s.agent(0), Agent::new(pt(1, 2), 3, 4, Beacon::B));
    assert_eq!(s.config, Config::reference());
}

#[test]
fn spawn_agent_places_by_column_and_row() {
    let c = Config::reference();
    let a = spawn_agent(&c, 0, 0, 0, 0, 11, 222_000, true);
    assert_eq!(a, Agent::new(pt(-270_000, -120_000), 11, 222_000, Beacon::A));
    let b = spawn_agent(&c, 6, 3, -15_000, 15_000, 11, 222_000, false);
    assert_eq!(b, Agent::new(pt(270_000 - 15_000, 15_000), 11, 222_000, Beacon::B));
    let mid = spawn_agent(&c, 3, 3, 7, -7, 0, 200_000, true);
    assert_eq!(mid.position, pt(7, -7));
}

#[test]
fn populate_fills_the_grid_within_the_configured_ranges() {
    let c = Config::reference();
    let mut rng = StdRng::seed_from_u64(7);
    let s = match Swarm::populate(c, &mut rng) {
        Ok(s) => s,
        Err(e) => panic!("{}", e.message()),
    };
    assert_eq!(s.len(), 49);
    for n in 0..49usize {
        let a = s.agent(n);
        let col = (n / 7) as i64;
        let row = (n % 7) as i64;
        let gx = -270_000 + col * 90_000;
        let gy = -120_000 + row * 40_000;
        assert!((a.position.x - gx).abs() <= 15_000);
        assert!((a.position.y - gy).abs() <= 15_000);
        assert!(0 <= a.heading && a.heading < FULL_TURN);
        assert!(200_000 <= a.speed && a.speed <= 297_000);
        assert_eq!(*a, Agent::new(a.position, a.heading, a.speed, a.destination));
    }
}

#[test]
fn populate_draws_from_the_generator() {
    let c = Config::reference();
    let mut rng = StdRng::seed_from_u64(7);
    let s = match Swarm::populate(c, &mut rng) {
        Ok(s) => s,
        Err(e) => panic!("{}", e.message()),
    };
    let first = *s.agent(0);
    // Draws vary: the agents do not all share the lowest value of a range.
    assert!(s.agents.iter().any(|a| a.heading != first.heading));
    assert!(s.agents.iter().any(|a| a.speed != first.speed));
    assert!(s.agents.iter().any(|a| a.heading != 0));
    assert!(s.agents.iter().any(|a| a.speed != 200_000));
    assert!(s.agents.iter().any(|a| a.destination == Beacon::A));
    assert!(s.agents.iter().any(|a| a.destination == Beacon::B));
    let offsets: Vec<i64> = s.agents.iter().enumerate().map(|(n, a)| a.position.x - (-270_000 + (n as i64 / 7) * 90_000)).collect();
    assert!(offsets.iter().any(|o| *o != offsets[0]));
    assert!(offsets.iter().any(|o| *o != -15_000));
}

#[test]
fn populate_is_reproducible_from_a_seed() {
    let c = Config::reference();
    let mut r1 = StdRng::seed_from_u64(2024);
    let mut r2 = StdRng::seed_from_u64(2024);
    let a = Swarm::populate(c, &mut r1);
    let b = Swarm::populate(c, &mut r2);
    match (a, b) {
        (Ok(a), Ok(b)) => assert_eq!(a.agents, b.agents),
        _ => panic!("a valid configuration was refused"),
    }
}

#[test]
fn populate_rejects_a_faulty_configuration() {
    let mut c = Config::reference();
    c.speed_min = 300_000;
    let mut rng = StdRng::seed_from_u64(1);
    assert!(matches!(Swarm::populate(c, &mut rng), Err(ConfigError::BadSpeedRange)));
    c = Config::reference();
    c.columns = 0;
    assert!(matches!(Swarm::populate(c, &mut rng), Err(ConfigError::NoAgents)));
}

#[test]
fn populate_handles_a_single_cell_and_zero_jitter() {
    let mut c = Config::reference();
    c.columns = 1;
    c.rows = 1;
    c.jitter = 0;
    c.speed_min = 5;
    c.speed_max = 5;
    let mut rng = StdRng::seed_from_u64(3);
    match Swarm::populate(c, &mut rng) {
        Ok(s) => {
            assert_eq!(s.len(), 1);
            assert_eq!(s.agent(0).position, pt(-270_000, -120_000));
            assert_eq!(s.agent(0).speed, 5);
        },
        Err(e) => panic!("{}", e.message()),
    }
}

#[test]
fn relay_scenario_between_two_agents() {
    let at_a = Agent::new(pt(-700_000, 0), 0, 250_000, Beacon::A);
    let mut near = Agent::new(pt(-400_000, 0), 2_000_000, 250_000, Beacon::A);
    near.counter_a = 900;
    let mut s = swarm_of(vec![at_a, near]);

    // The first three passes, one by one.
    let index = ProximityIndex::build(&s.agents);
    s.sense_beacons(16_000);
    assert_eq!(s.agent(0).counter_a, 0);
    assert!(s.agent(0).pending_trigger);
    assert_eq!(*s.agent(1), near);
    let events = s.harvest_triggers();
    assert_eq!(events, vec![Event { source: 0, position: pt(-700_000, 0), counter_a: 0, counter_b: 0 }]);
    assert!(!s.agent(0).pending_trigger);
    s.relay(&events, &index);
    assert_eq!(s.agent(0).counter_a, 0);
    assert_eq!(s.agent(1).counter_a, 350);
    assert_eq!(s.agent(1).turn_toward, Some(pt(-700_000, 0)));
    assert!(s.agent(1).pending_trigger);
    assert_eq!(s.agent(1).trigger_cooldown, 500_000);
    assert_eq!(s.agent(1).ring, Some(Beacon::A));
    assert_eq!(s.agent(1).glow, 1000);
    // Ageing then adds one to every counter and fades the ring by a step.
    s.age_all();
    assert_eq!(s.agent(0).counter_a, 1);
    assert_eq!(s.agent(1).counter_a, 351);
    assert_eq!(s.agent(1).glow, 900);

    // The same tick in one call.
    let mut whole = swarm_of(vec![at_a, near]);
    whole.propagate(16_000);
    assert_eq!(whole.agents, s.agents);
    assert_eq!(whole.agent(0).destination, Beacon::B);

    // The motion step turns the second agent to face the first.
    let toward = bearing(near.position, at_a.position);
    assert_eq!(toward, HALF_TURN);
    let steps = vec![Step { bearing: 0, dx: 0, dy: 0 }, Step { bearing: toward, dx: -4_000, dy: 0 }];
    let mut rng = StdRng::seed_from_u64(5);
    assert_eq!(whole.advance(&steps, &mut rng), Ok(()));
    let h = whole.agent(1).heading;
    assert!(HALF_TURN - HEADING_JITTER <= h && h <= HALF_TURN + HEADING_JITTER);
    assert_eq!(whole.agent(1).position, pt(-404_000, 0));
    assert_eq!(whole.agent(1).turn_toward, None);
}

#[test]
fn relayed_trigger_fires_on_the_next_tick() {
    // A chain: 0 on beacon A, 1 within reach of 0, 2 within reach of 1 only.
    let a0 = Agent::new(pt(-700_000, 0), 0, 1, Beacon::B);
    let mut a1 = Agent::new(pt(-400_000, 0), 0, 1, Beacon::B);
    let mut a2 = Agent::new(pt(-100_000, 0), 0, 1, Beacon::A);
    a1.counter_a = 5000;
    a2.counter_a = 5000;
    let mut s = swarm_of(vec![a0, a1, a2]);
    s.propagate(16_000);
    assert_eq!(s.agent(1).counter_a, 351);
    assert!(s.agent(1).pending_trigger);
    assert_eq!(s.agent(2).counter_a, 5001);
    assert!(!s.agent(2).pending_trigger);
    s.propagate(16_000);
    // Agent 1 fired with counter 351; agent 2 takes 351 + 350, then ages.
    assert_eq!(s.agent(2).counter_a, 702);
    assert_eq!(s.agent(2).turn_toward, Some(pt(-400_000, 0)));
    assert!(s.agent(2).pending_trigger);
    assert!(!s.agent(1).pending_trigger);
    // Agent 0 is on cooldown and was not reset again; it heard agent 1,
    // whose counter was larger than its own, so nothing changed but age.
    assert_eq!(s.agent(0).counter_a, 2);
    assert_eq!(s.agent(0).trigger_cooldown, 500_000 - 16_000);
}

#[test]
fn later_events_see_what_earlier_ones_did() {
    // Two sources fire in one tick; the receiver hears them in index order.
    let mut s0 = Agent::new(pt(0, 0), 0, 1, Beacon::B);
    s0.pending_trigger = true;
    s0.counter_a = 10;
    s0.counter_b = 999_999;
    s0.trigger_cooldown = 1_000_000;
    let mut s1 = Agent::new(pt(0, 100_000), 0, 1, Beacon::B);
    s1.pending_trigger = true;
    s1.counter_a = 20;
    s1.counter_b = 999_999;
    s1.trigger_cooldown = 1_000_000;
    let mut r = Agent::new(pt(100_000, 0), 0, 1, Beacon::A);
    r.counter_a = 500;
    r.counter_b = 0;
    let mut s = swarm_of(vec![s0, s1, r]);
    s.propagate(1);
    // From 500 to 10 + 350 = 360, then 360 > 20 gives 20 + 350 = 370, then age.
    assert_eq!(s.agent(2).counter_a, 371);
    assert_eq!(s.agent(2).turn_toward, Some(pt(0, 100_000)));
    // The sources hear each other with the counters harvested before the relay:
    // s0 (10) hears s1 (20): no change; s1 (20) hears s0 (10): 360.
    assert_eq!(s.agent(0).counter_a, 11);
    assert_eq!(s.agent(1).counter_a, 361);
    assert!(!s.agent(0).pending_trigger);
    assert!(!s.agent(1).pending_trigger);
    assert!(s.agent(2).pending_trigger);
}

#[test]
fn source_does_not_hear_itself_but_a_twin_does() {
    let mut src = Agent::new(pt(0, 0), 0, 1, Beacon::A);
    src.pending_trigger = true;
    src.counter_a = 3;
    src.counter_b = 3;
    let mut twin = Agent::new(pt(0, 0), 0, 1, Beacon::A);
    twin.counter_a = 1000;
    let mut s = swarm_of(vec![src, twin]);
    s.propagate(1);
    assert_eq!(s.agent(0).counter_a, 4);
    assert_eq!(s.agent(0).ring, None);
    assert_eq!(s.agent(1).counter_a, 354);
    assert_eq!(s.agent(1).turn_toward, Some(pt(0, 0)));
}

#[test]
fn out_of_reach_agents_only_age() {
    let mut src = Agent::new(pt(0, 0), 0, 1, Beacon::A);
    src.pending_trigger = true;
    let mut far = Agent::new(pt(350_001, 0), 0, 1, Beacon::A);
    far.counter_a = 1000;
    far.counter_b = 1000;
    let mut rim = Agent::new(pt(0, -350_000), 0, 1, Beacon::B);
    rim.counter_a = 1000;
    rim.counter_b = 1000;
    let mut s = swarm_of(vec![src, far, rim]);
    for tick in 1..=5u64 {
        s.propagate(16_000);
        assert_eq!(s.agent(1).counter_a, 1000 + tick);
        assert_eq!(s.agent(1).counter_b, 1000 + tick);
    }
    assert_eq!(s.agent(2).counter_a, 350 + 5);
    assert_eq!(s.agent(2).counter_b, 350 + 5);
    assert_eq!(s.agent(2).ring, Some(Beacon::B));
    assert_eq!(s.agent(2).turn_toward, Some(pt(0, 0)));
}

#[test]
fn harvest_collects_in_index_order_and_clears() {
    let mut a = Agent::new(pt(1, 1), 0, 1, Beacon::A);
    a.pending_trigger = true;
    a.counter_a = 4;
    let b = Agent::new(pt(2, 2), 0, 1, Beacon::A);
    let mut c = Agent::new(pt(3, 3), 0, 1, Beacon::A);
    c.pending_trigger = true;
    c.counter_b = 6;
    let mut s = swarm_of(vec![a, b, c]);
    let events = s.harvest_triggers();
    assert_eq!(
        events,
        vec![
            Event { source: 0, position: pt(1, 1), counter_a: 4, counter_b: 0 },
            Event { source: 2, position: pt(3, 3), counter_a: 0, counter_b: 6 },
        ]
    );
    assert!(s.agents.iter().all(|x| !x.pending_trigger));
    assert_eq!(s.harvest_triggers(), Vec::<Event>::new());
}

#[test]
fn agent_count_never_changes() {
    let c = Config::reference();
    let mut rng = StdRng::seed_from_u64(11);
    let mut s = match Swarm::populate(c, &mut rng) {
        Ok(s) => s,
        Err(e) => panic!("{}", e.message()),
    };
    for _ in 0..200 {
        s.propagate(16_667);
        let steps: Vec<Step> = s
            .agents
            .iter()
            .map(|a| {
                let target = match a.turn_toward {
                    Some(p) => bearing(a.position, p),
                    None => a.heading,
                };
                let radians = target as f64 / HALF_TURN as f64 * std::f64::consts::PI;
                let reach = a.speed as f64 * 16_667.0 / 1_000_000.0;
                Step { bearing: target, dx: (radians.cos() * reach).round() as i64, dy: (radians.sin() * reach).round() as i64 }
            })
            .collect();
        assert_eq!(s.advance(&steps, &mut rng), Ok(()));
        assert_eq!(s.len(), 49);
        assert!(s.agents.iter().all(|a| 0 <= a.heading && a.heading < FULL_TURN));
    }
}

#[test]
fn advance_needs_one_step_per_agent() {
    let a = Agent::new(pt(0, 0), 100, 1, Beacon::A);
    let mut s = swarm_of(vec![a, a]);
    let mut rng = StdRng::seed_from_u64(1);
    assert_eq!(s.advance(&still(1), &mut rng), Err(MotionError::StepCount));
    assert_eq!(s.advance(&still(3), &mut rng), Err(MotionError::StepCount));
    assert_eq!(s.agents, vec![a, a]);
    assert_eq!(s.advance(&still(2), &mut rng), Ok(()));
    let mut empty = swarm_of(Vec::new());
    assert_eq!(empty.advance(&still(0), &mut rng), Ok(()));
    assert_eq!(empty.len(), 0);
}

#[test]
fn advance_turns_each_agent_by_a_small_random_angle() {
    let a = Agent::new(pt(0, 0), 1_000_000, 1, Beacon::A);
    let mut s = swarm_of(vec![a; 64]);
    let mut rng = StdRng::seed_from_u64(9);
    let steps = vec![Step { bearing: 0, dx: 10, dy: -10 }; 64];
    assert_eq!(s.advance(&steps, &mut rng), Ok(()));
    for x in s.agents.iter() {
        assert_eq!(x.position, pt(10, -10));
        assert!((x.heading - 1_000_000).abs() <= HEADING_JITTER);
    }
    let first = s.agent(0).heading;
    assert!(s.agents.iter().any(|x| x.heading != first));
    assert!(s.agents.iter().any(|x| x.heading != 1_000_000 - HEADING_JITTER));
}

#[test]
fn advance_wraps_a_heading_that_turns_below_zero() {
    let a = Agent::new(pt(0, 0), 0, 1, Beacon::A);
    let mut s = swarm_of(vec![a; 32]);
    let mut rng = StdRng::seed_from_u64(4);
    assert_eq!(s.advance(&still(32), &mut rng), Ok(()));
    for x in s.agents.iter() {
        let h = x.heading;
        assert!(h <= HEADING_JITTER || h >= FULL_TURN - HEADING_JITTER);
        assert_eq!(h, wrap(h as i128));
    }
}
