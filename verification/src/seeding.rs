//! The initial population: agents scattered at random over a disk centred on
//! the grid, each heading for the centre.

use vstd::prelude::*;
use crate::agent::{Agent, Direction};
use crate::fixed::{rotate, rotate_heading, travel, travel_coord, FULL_TURN, UNIT};
use crate::grid::SimulationConstants;

verus! {

/// Half a turn of a heading, in millionths of a radian.
pub const HALF_TURN: u64 = 3_141_592;

/// The number of values a random word can take.
pub const WORD_RANGE: u64 = 0x1_0000_0000;

/// Where an agent starts, in polar coordinates about the centre of the grid:
/// the distance in millionths of a cell, the angle in millionths of a
/// radian.
#[derive(Clone, Copy, Debug, PartialEq, Eq, Structural)]
pub struct PolarSeed {
    pub radius: u64,
    pub angle: u64,
}

/// The largest integer whose square does not exceed `n`.
pub open spec fn floor_sqrt(n: nat) -> nat
    decreases n,
{
    if n == 0 {
        0
    } else {
        let below = floor_sqrt((n - 1) as nat);
        if (below + 1) * (below + 1) <= n {
            below + 1
        } else {
            below
        }
    }
}

/// `floor_sqrt(n)` is the one integer `r >= 0` with `r * r <= n < (r + 1) * (r + 1)`.
pub proof fn lemma_floor_sqrt(n: nat, r: nat)
    ensures
        floor_sqrt(n) * floor_sqrt(n) <= n < (floor_sqrt(n) + 1) * (floor_sqrt(n) + 1),
        r * r <= n < (r + 1) * (r + 1) ==> r == floor_sqrt(n),
    decreases n,
{
    let s = floor_sqrt(n);
    if n > 0 {
        lemma_floor_sqrt((n - 1) as nat, 0);
        let below = floor_sqrt((n - 1) as nat);
        if (below + 1) * (below + 1) <= n {
            assert(s == below + 1);
            assert(s * s <= n < (s + 1) * (s + 1)) by (nonlinear_arith)
                requires
                    s == below + 1,
                    (below + 1) * (below + 1) <= n,
                    n - 1 < (below + 1) * (below + 1),
            ;
        } else {
            assert(s == below);
            assert(s * s <= n < (s + 1) * (s + 1)) by (nonlinear_arith)
                requires
                    s == below,
                    below * below <= n - 1,
                    n < (below + 1) * (below + 1),
            ;
        }
    } else {
        assert(s == 0);
        assert(s * s <= n < (s + 1) * (s + 1)) by (nonlinear_arith)
            requires
                s == 0,
                n == 0,
        ;
    }
    if r * r <= n < (r + 1) * (r + 1) {
        assert(r == s) by (nonlinear_arith)
            requires
                r * r <= n < (r + 1) * (r + 1),
                s * s <= n < (s + 1) * (s + 1),
        ;
    }
}

/// The largest integer whose square does not exceed `n`.
pub fn integer_sqrt(n: u64) -> (root: u64)
    ensures
        root == floor_sqrt(n as nat),
        root < WORD_RANGE,
{
    let mut low: u64 = 0;
    let mut high: u64 = WORD_RANGE;
    while high - low > 1
        invariant
            low < high <= WORD_RANGE,
            low * low <= n,
            n < high * high,
        decreases high - low,
    {
        let middle: u64 = low + (high - low) / 2;
        assert(middle * middle <= 0xffff_ffff * 0xffff_ffff) by (nonlinear_arith)
            requires
                middle <= 0xffff_ffff,
        ;
        if middle * middle <= n {
            low = middle;
        } else {
            high = middle;
        }
    }
    proof {
        lemma_floor_sqrt(n as nat, low as nat);
    }
    low
}

impl SimulationConstants {
    /// Radius of the disk the agents start in: half the height of the grid,
    /// in millionths of a cell.
    pub open spec fn disk_radius(&self) -> int {
        self.grid_height as int * UNIT as int / 2
    }

    /// Horizontal coordinate of the centre of the grid.
    pub open spec fn centre_x(&self) -> int {
        self.grid_width as int * UNIT as int / 2
    }

    /// Vertical coordinate of the centre of the grid.
    pub open spec fn centre_y(&self) -> int {
        self.grid_height as int * UNIT as int / 2
    }
}

/// The seed that two random words stand for. Read as fractions of the word
/// range, the first gives the distance from the centre as the disk's radius
/// times its square root, so that seeds spread evenly over the disk's area,
/// and the second gives the angle as that fraction of a full turn.
pub open spec fn seed_of(constants: SimulationConstants, radial: int, angular: int) -> PolarSeed {
    PolarSeed {
        radius: (constants.disk_radius() * floor_sqrt((radial * WORD_RANGE as int) as nat)
            / WORD_RANGE as int) as u64,
        angle: (angular * FULL_TURN as int / WORD_RANGE as int) as u64,
    }
}

/// Whether a seed is the seed of some pair of words.
pub open spec fn drawn(constants: SimulationConstants, seed: PolarSeed) -> bool {
    exists|radial: u32, angular: u32|
        seed == #[trigger] seed_of(constants, radial as int, angular as int)
}

/// The agent that starts at the seed's place, given the direction of the
/// seed's angle: it stands at the seed's distance from the centre along
/// that direction, wrapped onto the grid, and heads back for the centre.
pub open spec fn agent_of(constants: SimulationConstants, seed: PolarSeed, direction: Direction) -> Agent {
    Agent {
        x: travel(constants.centre_x(), seed.radius as int, direction.dx as int, constants.extent_x()) as u64,
        y: travel(constants.centre_y(), seed.radius as int, direction.dy as int, constants.extent_y()) as u64,
        heading: rotate(seed.angle as int, HALF_TURN as int) as u64,
    }
}

impl PolarSeed {
    /// The seed lies within the starting disk and its angle within one full
    /// turn.
    pub open spec fn within(self, constants: SimulationConstants) -> bool {
        self.radius as int <= constants.disk_radius() && self.angle < FULL_TURN
    }

    /// The seed that two random words stand for.
    pub fn from_words(constants: &SimulationConstants, radial: u32, angular: u32) -> (seed: PolarSeed)
        ensures
            seed == seed_of(*constants, radial as int, angular as int),
            seed.within(*constants),
    {
        let disk: u64 = constants.grid_height as u64 * UNIT / 2;
        let root: u64 = integer_sqrt(radial as u64 * WORD_RANGE);
        assert(disk as u128 * root as u128 <= 0xffff_ffff * 500_000 * 0xffff_ffff) by (nonlinear_arith)
            requires
                disk <= 0xffff_ffff * 500_000,
                root <= 0xffff_ffff,
        ;
        let scaled: u128 = disk as u128 * root as u128;
        let radius: u128 = scaled / (WORD_RANGE as u128);
        assert(radius <= disk) by (nonlinear_arith)
            requires
                radius == scaled / (WORD_RANGE as u128),
                scaled == disk * root,
                root < WORD_RANGE,
                WORD_RANGE == 0x1_0000_0000,
        ;
        let angle: u64 = angular as u64 * FULL_TURN / WORD_RANGE;
        PolarSeed { radius: radius as u64, angle }
    }

    /// The agent that starts at this seed's place, given the direction of
    /// the seed's angle.
    pub fn place(&self, constants: &SimulationConstants, direction: &Direction) -> (agent: Agent)
        requires
            constants.valid(),
        ensures
            agent == agent_of(*constants, *self, *direction),
            agent.x < constants.extent_x(),
            agent.y < constants.extent_y(),
            agent.heading < FULL_TURN,
    {
        let extent_x: u64 = constants.width_extent();
        let extent_y: u64 = constants.height_extent();
        Agent {
            x: travel_coord(extent_x / 2, self.radius, direction.dx, extent_x),
            y: travel_coord(extent_y / 2, self.radius, direction.dy, extent_y),
            heading: rotate_heading(self.angle, HALF_TURN, true),
        }
    }
}

/// `rand::random::<u32>()`: a word drawn from the thread's generator. Nothing
/// is claimed of the word: any value may come back, and two calls may differ.
#[verifier::external_body]
fn random_word() -> (word: u32) {
    rand::random::<u32>()
}

/// Draws one seed per agent at random. Whatever words come up, every seed
/// is the seed of two words, and so lies within the starting disk.
pub fn scatter(constants: &SimulationConstants) -> (seeds: Vec<PolarSeed>)
    ensures
        seeds.len() == constants.agent_count,
        forall|i: int| 0 <= i < seeds.len() ==> drawn(*constants, #[trigger] seeds[i]),
        forall|i: int| 0 <= i < seeds.len() ==> (#[trigger] seeds[i]).within(*constants),
{
    let mut seeds: Vec<PolarSeed> = Vec::new();
    let mut made: u32 = 0;
    while made < constants.agent_count
        invariant
            made <= constants.agent_count,
            seeds.len() == made,
            forall|i: int| 0 <= i < seeds.len() ==> drawn(*constants, #[trigger] seeds[i]),
            forall|i: int| 0 <= i < seeds.len() ==> (#[trigger] seeds[i]).within(*constants),
        decreases constants.agent_count - made,
    {
        let radial: u32 = random_word();
        let angular: u32 = random_word();
        let seed: PolarSeed = PolarSeed::from_words(constants, radial, angular);
        assert(drawn(*constants, seed));
        seeds.push(seed);
        made = made + 1;
    }
    seeds
}

} // verus!
