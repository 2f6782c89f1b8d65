//! The tunable parameters of a simulation, and their validation.

use vstd::prelude::*;
use crate::geometry::{Bounds, Point};

verus! {

/// The identity of a beacon.
#[derive(Clone, Copy, Debug, PartialEq, Eq, Structural)]
pub enum Beacon {
    A,
    B,
}

/// The beacon that is not `which`.
pub open spec fn other(which: Beacon) -> Beacon {
    match which {
        Beacon::A => Beacon::B,
        Beacon::B => Beacon::A,
    }
}

/// Where the given beacon stands.
pub open spec fn beacon_at(c: Config, which: Beacon) -> Point {
    match which {
        Beacon::A => c.beacon_a,
        Beacon::B => c.beacon_b,
    }
}

impl Beacon {
    /// The other beacon.
    pub fn flip(self) -> (r: Beacon)
        ensures
            r == other(self),
    {
        match self {
            Beacon::A => Beacon::B,
            Beacon::B => Beacon::A,
        }
    }
}

/// Everything that shapes a simulation. Lengths are in thousandths of a
/// world unit, speeds in thousandths of a unit per second, and the cooldown
/// in microseconds.
#[derive(Clone, Copy, Debug, PartialEq, Eq)]
pub struct Config {
    /// Where beacon A stands.
    pub beacon_a: Point,
    /// Where beacon B stands.
    pub beacon_b: Point,
    /// The rectangle that agents bounce off.
    pub bounds: Bounds,
    /// How close to a beacon an agent must be to touch it.
    pub contact_radius: u32,
    /// How far a fired trigger carries.
    pub relay_radius: u32,
    /// How long an agent stays deaf after it has triggered.
    pub cooldown: u64,
    /// Columns of the spawn grid.
    pub columns: u16,
    /// Rows of the spawn grid.
    pub rows: u16,
    /// The grid point of column 0, row 0.
    pub grid_origin: Point,
    /// Distance between neighbouring columns.
    pub spacing_x: u32,
    /// Distance between neighbouring rows.
    pub spacing_y: u32,
    /// Largest offset of a spawned agent from its grid point, per axis.
    pub jitter: u32,
    /// Slowest speed an agent may be given.
    pub speed_min: i64,
    /// Fastest speed an agent may be given.
    pub speed_max: i64,
}

/// Why a configuration is refused.
#[derive(Clone, Copy, Debug, PartialEq, Eq, Structural)]
pub enum ConfigError {
    /// The spawn grid has no column or no row.
    NoAgents,
    /// The bounding rectangle has no interior along some axis.
    EmptyBounds,
    /// The contact radius or the relay radius is zero.
    ZeroRadius,
    /// The slowest speed is negative or above the fastest.
    BadSpeedRange,
}

/// The first fault of a configuration, if it has one.
pub open spec fn config_fault(c: Config) -> Option<ConfigError> {
    if c.columns == 0 || c.rows == 0 {
        Some(ConfigError::NoAgents)
    } else if c.bounds.min_x >= c.bounds.max_x || c.bounds.min_y >= c.bounds.max_y {
        Some(ConfigError::EmptyBounds)
    } else if c.contact_radius == 0 || c.relay_radius == 0 {
        Some(ConfigError::ZeroRadius)
    } else if c.speed_min < 0 || c.speed_min > c.speed_max {
        Some(ConfigError::BadSpeedRange)
    } else {
        None
    }
}

impl Config {
    /// Whether the configuration is free of faults.
    pub open spec fn valid(self) -> bool {
        config_fault(self) is None
    }

    /// The configuration of the classic demonstration: beacons 1400 units
    /// apart on the horizontal axis, a 7 by 7 grid of agents between them.
    pub fn reference() -> (c: Config)
        ensures
            c.valid(),
            c.columns == 7 && c.rows == 7,
            c.beacon_a == (Point { x: -700_000i64, y: 0 }),
            c.beacon_b == (Point { x: 700_000, y: 0 }),
            c.bounds == (Bounds { min_x: -700_000i64, max_x: 700_000, min_y: -300_000i64, max_y: 300_000 }),
            c.contact_radius == 30_000 && c.relay_radius == 350_000,
            c.cooldown == 500_000,
            c.grid_origin == (Point { x: -270_000i64, y: -120_000i64 }),
            c.spacing_x == 90_000 && c.spacing_y == 40_000 && c.jitter == 15_000,
            c.speed_min == 200_000 && c.speed_max == 297_000,
    {
        Config {
            beacon_a: Point { x: -700_000, y: 0 },
            beacon_b: Point { x: 700_000, y: 0 },
            bounds: Bounds { min_x: -700_000, max_x: 700_000, min_y: -300_000, max_y: 300_000 },
            contact_radius: 30_000,
            relay_radius: 350_000,
            cooldown: 500_000,
            columns: 7,
            rows: 7,
            grid_origin: Point { x: -270_000, y: -120_000 },
            spacing_x: 90_000,
            spacing_y: 40_000,
            jitter: 15_000,
            speed_min: 200_000,
            speed_max: 297_000,
        }
    }

    /// Where the given beacon stands.
    pub fn beacon(&self, which: Beacon) -> (p: Point)
        ensures
            p == beacon_at(*self, which),
    {
        match which {
            Beacon::A => self.beacon_a,
            Beacon::B => self.beacon_b,
        }
    }

    /// Accepts a configuration without fault and names the first fault of
    /// any other.
    pub fn validate(&self) -> (r: Result<(), ConfigError>)
        ensures
            r is Ok <==> self.valid(),
            r is Err ==> config_fault(*self) == Some(r->Err_0),
    {
        if self.columns == 0 || self.rows == 0 {
            Err(ConfigError::NoAgents)
        } else if self.bounds.min_x >= self.bounds.max_x || self.bounds.min_y >= self.bounds.max_y {
            Err(ConfigError::EmptyBounds)
        } else if self.contact_radius == 0 || self.relay_radius == 0 {
            Err(ConfigError::ZeroRadius)
        } else if self.speed_min < 0 || self.speed_min > self.speed_max {
            Err(ConfigError::BadSpeedRange)
        } else {
            Ok(())
        }
    }
}

impl ConfigError {
    /// A sentence for the host to show.
    pub fn message(&self) -> (m: &'static str)
        ensures
            m@ == fault_text(*self),
    {
        match self {
            ConfigError::NoAgents => "the spawn grid needs at least one column and one row",
            ConfigError::EmptyBounds => "the bounding rectangle needs min < max on both axes",
            ConfigError::ZeroRadius => "the contact and relay radii must be positive",
            ConfigError::BadSpeedRange => "speeds must satisfy 0 <= min <= max",
        }
    }
}

/// The sentence that goes with each fault.
pub open spec fn fault_text(e: ConfigError) -> Seq<char> {
    match e {
        ConfigError::NoAgents => "the spawn grid needs at least one column and one row"@,
        ConfigError::EmptyBounds => "the bounding rectangle needs min < max on both axes"@,
        ConfigError::ZeroRadius => "the contact and relay radii must be positive"@,
        ConfigError::BadSpeedRange => "speeds must satisfy 0 <= min <= max"@,
    }
}

} // verus!
