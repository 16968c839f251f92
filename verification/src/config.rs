use vstd::prelude::*;
use crate::vec2::SCALE;

verus! {

/// The largest value any tunable may take, in fixed-point steps (2000
/// units): the cap under which every steering force provably stays at its
/// weight (`vec2::WEIGHT_MAX`).
pub const CFG_MAX: i64 = 2_000_000;

/// The largest coordinate magnitude (and arena dimension) the simulation
/// accepts, in fixed-point steps; a tick rejects state beyond it. Small
/// enough that every normalization input fits the prescaled square root.
pub const POS_MAX: i64 = 0x4000_0000;

/// The largest time step one tick accepts, in fixed-point seconds.
pub const DT_MAX: i64 = 0x10_0000;

/// The largest flock size one world accepts.
pub const BOIDS_MAX: usize = 0x1_0000;

/// The tunable constants of the simulation, all in fixed-point steps
/// (`SCALE` steps to one unit); injected at initialization, never baked in.
#[derive(Clone, Copy, Debug, PartialEq, Eq, Structural)]
pub struct Config {
    /// Maximum velocity magnitude after integration.
    pub max_speed: i64,
    /// How far a boid sees neighbors.
    pub view_radius: i64,
    /// Weight of steering towards the neighbors' average heading.
    pub align_weight: i64,
    /// Weight of steering towards the neighbors' center.
    pub cohesion_weight: i64,
    /// Weight of steering away from crowding neighbors.
    pub separation_weight: i64,
    /// Distance to an arena edge at which avoidance starts.
    pub avoidance_distance: i64,
    /// Weight of the edge-avoidance steering.
    pub avoidance_weight: i64,
    /// Weight of steering towards the attraction point.
    pub attraction_weight: i64,
    /// Distance within which the attraction point pulls.
    pub capture_distance: i64,
    /// Thickness of the border rectangles outside the arena edges.
    pub border_thickness: i64,
    /// Visual/collision radius given to every boid at initialization.
    pub boid_radius: i64,
}

/// The mathematical model of a `Config`.
pub struct ConfigM {
    pub max_speed: int,
    pub view_radius: int,
    pub align_weight: int,
    pub cohesion_weight: int,
    pub separation_weight: int,
    pub avoidance_distance: int,
    pub avoidance_weight: int,
    pub attraction_weight: int,
    pub capture_distance: int,
    pub border_thickness: int,
    pub boid_radius: int,
}

impl View for Config {
    type V = ConfigM;

    open spec fn view(&self) -> ConfigM {
        ConfigM {
            max_speed: self.max_speed as int,
            view_radius: self.view_radius as int,
            align_weight: self.align_weight as int,
            cohesion_weight: self.cohesion_weight as int,
            separation_weight: self.separation_weight as int,
            avoidance_distance: self.avoidance_distance as int,
            avoidance_weight: self.avoidance_weight as int,
            attraction_weight: self.attraction_weight as int,
            capture_distance: self.capture_distance as int,
            border_thickness: self.border_thickness as int,
            boid_radius: self.boid_radius as int,
        }
    }
}

/// A usable configuration: everything nonnegative and within `CFG_MAX`, and
/// the avoidance falloff distance positive (it divides).
pub open spec fn wf_config(c: ConfigM) -> bool {
    &&& 0 <= c.max_speed <= CFG_MAX
    &&& 0 <= c.view_radius <= CFG_MAX
    &&& 0 <= c.align_weight <= CFG_MAX
    &&& 0 <= c.cohesion_weight <= CFG_MAX
    &&& 0 <= c.separation_weight <= CFG_MAX
    &&& 1 <= c.avoidance_distance <= CFG_MAX
    &&& 0 <= c.avoidance_weight <= CFG_MAX
    &&& 0 <= c.attraction_weight <= CFG_MAX
    &&& 0 <= c.capture_distance <= CFG_MAX
    &&& 0 <= c.border_thickness <= CFG_MAX
    &&& 0 <= c.boid_radius <= CFG_MAX
}

impl Config {
    /// Whether the configuration is within the accepted ranges.
    pub fn is_valid(&self) -> (r: bool)
        ensures
            r == wf_config(self@),
    {
        0 <= self.max_speed && self.max_speed <= CFG_MAX && 0 <= self.view_radius
            && self.view_radius <= CFG_MAX && 0 <= self.align_weight && self.align_weight <= CFG_MAX
            && 0 <= self.cohesion_weight && self.cohesion_weight <= CFG_MAX
            && 0 <= self.separation_weight && self.separation_weight <= CFG_MAX
            && 1 <= self.avoidance_distance && self.avoidance_distance <= CFG_MAX
            && 0 <= self.avoidance_weight && self.avoidance_weight <= CFG_MAX
            && 0 <= self.attraction_weight && self.attraction_weight <= CFG_MAX
            && 0 <= self.capture_distance && self.capture_distance <= CFG_MAX
            && 0 <= self.border_thickness && self.border_thickness <= CFG_MAX
            && 0 <= self.boid_radius && self.boid_radius <= CFG_MAX
    }
}

impl Default for Config {
    /// The stock tuning: speeds and distances in simulation units times
    /// `SCALE`.
    fn default() -> (r: Config)
        ensures
            wf_config(r@),
            r@.max_speed == 300 * SCALE,
            r@.view_radius == 50 * SCALE,
            r@.align_weight == 15 * SCALE,
            r@.cohesion_weight == 15 * SCALE,
            r@.separation_weight == 17 * SCALE,
            r@.avoidance_distance == 10 * SCALE,
            r@.avoidance_weight == 30 * SCALE,
            r@.attraction_weight == 30 * SCALE,
            r@.capture_distance == 100 * SCALE,
            r@.border_thickness == 10 * SCALE,
            r@.boid_radius == 2 * SCALE + SCALE / 2,
    {
        Config {
            max_speed: 300 * SCALE,
            view_radius: 50 * SCALE,
            align_weight: 15 * SCALE,
            cohesion_weight: 15 * SCALE,
            separation_weight: 17 * SCALE,
            avoidance_distance: 10 * SCALE,
            avoidance_weight: 30 * SCALE,
            attraction_weight: 30 * SCALE,
            capture_distance: 100 * SCALE,
            border_thickness: 10 * SCALE,
            boid_radius: 2 * SCALE + SCALE / 2,
        }
    }
}

} // verus!
