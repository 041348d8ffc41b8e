use crate::rank::{below, is_number, lemma_zero_and_one, less, ONE, ZERO};
use crate::vec::Vec3;
use crate::{clamp, clamp_of, is_draw, random};
use vstd::prelude::*;

verus! {

/// A diffuse surface.
#[derive(Clone, Copy, Debug, PartialEq, Eq, Structural)]
pub struct Lambertian {
    pub albedo: Vec3,
}

/// A mirror, roughened by its fuzz.
#[derive(Clone, Copy, Debug, PartialEq, Eq, Structural)]
pub struct Metal {
    pub albedo: Vec3,
    pub fuzz: u64,
}

/// A clear surface that reflects or refracts.
#[derive(Clone, Copy, Debug, PartialEq, Eq, Structural)]
pub struct Dielectric {
    pub index_of_refraction: u64,
}

/// The surface materials.
#[derive(Clone, Copy, Debug, PartialEq, Eq, Structural)]
pub enum Material {
    Lambertian(Lambertian),
    Metal(Metal),
    Dielectric(Dielectric),
}

/// What the host has measured at a hit before the material decides, each
/// number as its binary64 pattern. A material reads only the fields that
/// concern it.
#[derive(Clone, Copy, Debug, PartialEq, Eq, Structural)]
pub struct Sample {
    /// The hit normal plus a random unit vector: the direction in which a
    /// diffuse surface would send the ray.
    pub diffuse: Vec3,
    /// The refraction ratio times the sine of the angle of incidence.
    /// Above one, no refracted ray exists.
    pub refraction: u64,
    /// The Schlick reflectance: the share of the light that a clear
    /// surface mirrors at this angle.
    pub reflectance: u64,
}

impl Sample {
    /// No refracted ray exists: the light is reflected totally.
    pub open spec fn cannot_refract(self) -> bool {
        below(ONE, self.refraction)
    }
}

/// The direction in which a material sends the scattered ray.
#[derive(Clone, Copy, Debug, PartialEq, Eq, Structural)]
pub enum Direction {
    /// The hit normal plus a random unit vector.
    Diffuse,
    /// The hit normal itself.
    Normal,
    /// The mirror image of the unit incoming direction, plus fuzz times a
    /// random point in the unit sphere.
    Fuzzed,
    /// The mirror image of the unit incoming direction.
    Reflected,
    /// The unit incoming direction bent by Snell's law.
    Refracted,
}

/// How a ray leaves a surface: its new direction, and the colour by which
/// the light that comes back along it is multiplied.
#[derive(Clone, Copy, Debug, PartialEq, Eq, Structural)]
pub struct Scatter {
    pub direction: Direction,
    pub attenuation: Vec3,
}

/// The colour that takes nothing away.
pub open spec fn white() -> Vec3 {
    Vec3 { x: ONE, y: ONE, z: ONE }
}

impl Lambertian {
    pub fn new(albedo: Vec3) -> (r: Lambertian)
        ensures
            r.albedo == albedo,
    {
        Lambertian { albedo }
    }
}

impl Metal {
    /// The fuzz is neither below zero nor above one.
    pub open spec fn wf(self) -> bool {
        !below(self.fuzz, ZERO) && !below(ONE, self.fuzz)
    }

    /// A metal whose fuzz is `fuzz` brought into the range from zero to
    /// one.
    pub fn new(albedo: Vec3, fuzz: u64) -> (r: Metal)
        ensures
            r.albedo == albedo,
            r.fuzz == clamp_of(fuzz, ZERO, ONE),
            r.wf(),
    {
        proof {
            lemma_zero_and_one();
        }
        Metal { albedo, fuzz: clamp(fuzz, ZERO, ONE) }
    }
}

impl Dielectric {
    pub fn new(index_of_refraction: u64) -> (r: Dielectric)
        ensures
            r.index_of_refraction == index_of_refraction,
    {
        Dielectric { index_of_refraction }
    }

    /// The direction that a clear surface chooses for `sample` when the
    /// uniform draw is `draw`: the mirror image where no refracted ray
    /// exists or the reflectance is above the draw, else the refracted
    /// ray.
    pub open spec fn direction_for(sample: Sample, draw: u64) -> Direction {
        if sample.cannot_refract() || below(draw, sample.reflectance) {
            Direction::Reflected
        } else {
            Direction::Refracted
        }
    }

    /// Decides between mirror image and refraction for a given draw.
    pub fn direction(sample: Sample, draw: u64) -> (r: Direction)
        ensures
            r == Self::direction_for(sample, draw),
    {
        if less(ONE, sample.refraction) || less(draw, sample.reflectance) {
            Direction::Reflected
        } else {
            Direction::Refracted
        }
    }
}


impl Material {
    /// The direction that this material chooses for `sample` when the
    /// uniform draw, which only a clear surface asks for, is `draw`.
    pub open spec fn direction(self, sample: Sample, draw: u64) -> Direction {
        match self {
            Material::Lambertian(_) => if sample.diffuse.is_near_zero() {
                Direction::Normal
            } else {
                Direction::Diffuse
            },
            Material::Metal(_) => Direction::Fuzzed,
            Material::Dielectric(_) => Dielectric::direction_for(sample, draw),
        }
    }

    /// The attenuation of this material, whatever the ray: the albedo of a
    /// diffuse surface or a metal, and white for a clear surface.
    pub open spec fn attenuation(self) -> Vec3 {
        match self {
            Material::Lambertian(surface) => surface.albedo,
            Material::Metal(surface) => surface.albedo,
            Material::Dielectric(_) => white(),
        }
    }

    /// Decides how a ray that hit this material goes on. None of the three
    /// materials absorbs a ray, and the attenuation depends on the material
    /// alone. A diffuse surface sends the ray along its normal where the
    /// diffuse direction is near zero. A clear surface that can refract
    /// draws a number from `rng` and mirrors the ray where its reflectance
    /// is above the draw; no other material, and no surface that cannot
    /// refract, draws.
    pub fn scatter(&self, sample: Sample, rng: &mut rand::rngs::ThreadRng) -> (r: Option<Scatter>)
        ensures
            r matches Some(scatter) && scatter.attenuation == self.attenuation() && exists|
                draw: u64,
            |
                is_draw(draw) && scatter.direction == #[trigger] self.direction(sample, draw),
            self matches Material::Lambertian(surface) ==> r.unwrap().attenuation
                == surface.albedo,
    {
        proof {
            lemma_zero_and_one();
        }
        match self {
            Material::Lambertian(surface) => {
                let direction = if sample.diffuse.near_zero() {
                    Direction::Normal
                } else {
                    Direction::Diffuse
                };
                assert(is_draw(ZERO) && direction == self.direction(sample, ZERO));
                Some(Scatter { direction, attenuation: surface.albedo })
            },
            Material::Metal(surface) => {
                assert(is_draw(ZERO) && Direction::Fuzzed == self.direction(sample, ZERO));
                Some(Scatter { direction: Direction::Fuzzed, attenuation: surface.albedo })
            },
            Material::Dielectric(_) => {
                let direction = if less(ONE, sample.refraction) {
                    assert(is_draw(ZERO) && Direction::Reflected == self.direction(sample, ZERO));
                    Direction::Reflected
                } else {
                    let draw: u64 = random(rng);
                    let direction = Dielectric::direction(sample, draw);
                    assert(is_draw(draw) && direction == self.direction(sample, draw));
                    direction
                };
                Some(Scatter { direction, attenuation: Vec3::new(ONE, ONE, ONE) })
            },
        }
    }
}

/// A clear surface whose reflectance is one or more mirrors every ray, and
/// one whose reflectance is zero or less mirrors only the rays that it
/// cannot refract.
pub proof fn lemma_sure_reflectance(sample: Sample, draw: u64)
    requires
        is_draw(draw),
        is_number(sample.reflectance),
    ensures
        !below(sample.reflectance, ONE) ==> Dielectric::direction_for(sample, draw)
            == Direction::Reflected,
        !below(ZERO, sample.reflectance) ==> Dielectric::direction_for(sample, draw) == (
        if sample.cannot_refract() {
            Direction::Reflected
        } else {
            Direction::Refracted
        }),
{
    lemma_zero_and_one();
}

} // verus!
