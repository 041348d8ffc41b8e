use crate::rank::{lemma_magnitude_orders_sizes, negated, size_of, MAGNITUDE, SIGN};
use crate::{is_draw, random};
use vstd::prelude::*;

verus! {

/// The binary64 pattern of 1e-8, the threshold under which a component
/// counts as zero.
pub const TINY: u64 = 0x3E45_798E_E230_8C3A;

/// A vector of three numbers, each held as its binary64 pattern: a point,
/// a direction or a colour.
#[derive(Clone, Copy, Debug, PartialEq, Eq, Structural)]
pub struct Vec3 {
    pub x: u64,
    pub y: u64,
    pub z: u64,
}

impl Vec3 {
    pub fn new(x: u64, y: u64, z: u64) -> (r: Vec3)
        ensures
            r.x == x,
            r.y == y,
            r.z == z,
    {
        Vec3 { x, y, z }
    }

    /// Every component is a number from zero up to one, one left out.
    pub open spec fn in_unit_cube(self) -> bool {
        is_draw(self.x) && is_draw(self.y) && is_draw(self.z)
    }

    /// A vector of three draws, each from zero up to one.
    pub fn random(rng: &mut rand::rngs::ThreadRng) -> (r: Vec3)
        ensures
            r.in_unit_cube(),
    {
        let x: u64 = random(rng);
        let y: u64 = random(rng);
        let z: u64 = random(rng);
        Vec3 { x, y, z }
    }

    /// The opposite vector: every component with its sign turned.
    pub open spec fn opposite(self) -> Vec3 {
        Vec3 { x: negated(self.x), y: negated(self.y), z: negated(self.z) }
    }

    /// Turns the vector round.
    pub fn neg(self) -> (r: Vec3)
        ensures
            r == self.opposite(),
    {
        Vec3 { x: self.x ^ SIGN, y: self.y ^ SIGN, z: self.z ^ SIGN }
    }

    /// Every component is smaller than `TINY` in absolute value.
    pub open spec fn is_near_zero(self) -> bool {
        size_of(self.x) < size_of(TINY) && size_of(self.y) < size_of(TINY) && size_of(self.z)
            < size_of(TINY)
    }

    /// Whether the vector is too short to serve as a direction.
    pub fn near_zero(&self) -> (r: bool)
        ensures
            r == self.is_near_zero(),
    {
        proof {
            lemma_magnitude_orders_sizes(self.x, TINY);
            lemma_magnitude_orders_sizes(self.y, TINY);
            lemma_magnitude_orders_sizes(self.z, TINY);
            assert(0x3E45_798E_E230_8C3Au64 & 0x7FFF_FFFF_FFFF_FFFF == 0x3E45_798E_E230_8C3A)
                by (bit_vector);
        }
        (self.x & MAGNITUDE) < TINY && (self.y & MAGNITUDE) < TINY && (self.z & MAGNITUDE) < TINY
    }
}

} // verus!
