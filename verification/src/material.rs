//! Colors and materials: what a surface does to the light that a ray
//! carries, and which way it sends the ray on.
use crate::hittable::HitRecord;
use crate::ray::Ray;
use crate::scalar::{Scalar, ONE_BITS, ZERO_BITS};
use crate::vec3::Vec3;
use vstd::arithmetic::div_mod::{lemma_div_by_self, lemma_div_is_ordered};
use vstd::arithmetic::power2::{lemma2_to64_rest, lemma_pow2_adds, lemma_pow2_pos, pow2};
use vstd::prelude::*;

verus! {

/// A color in linear space: red, green and blue.
#[derive(Debug, Clone, Copy)]
pub struct Rgb {
    pub r: Scalar,
    pub g: Scalar,
    pub b: Scalar,
}

impl Rgb {
    /// The three channels as bytes: each is cut to its whole part and held
    /// within 0 to 255.
    pub open spec fn bytes_spec(self) -> Seq<u8> {
        seq![self.r.to_u8_spec(), self.g.to_u8_spec(), self.b.to_u8_spec()]
    }

    /// The color with the given channels.
    pub fn new(r: Scalar, g: Scalar, b: Scalar) -> (c: Rgb)
        ensures
            c.r == r,
            c.g == g,
            c.b == b,
    {
        Rgb { r, g, b }
    }

    /// White: one in every channel.
    pub fn white() -> (c: Rgb)
        ensures
            c == (Rgb {
                r: Scalar { bits: ONE_BITS },
                g: Scalar { bits: ONE_BITS },
                b: Scalar { bits: ONE_BITS },
            }),
    {
        Rgb { r: Scalar::one(), g: Scalar::one(), b: Scalar::one() }
    }

    /// Black: zero in every channel, the color of a path that has no bounce
    /// left.
    pub fn black() -> (c: Rgb)
        ensures
            c == (Rgb {
                r: Scalar { bits: ZERO_BITS },
                g: Scalar { bits: ZERO_BITS },
                b: Scalar { bits: ZERO_BITS },
            }),
    {
        Rgb { r: Scalar::zero(), g: Scalar::zero(), b: Scalar::zero() }
    }
}

impl From<Vec3> for Rgb {
    /// The vector's components as the color's channels, in order.
    fn from(v: Vec3) -> (c: Rgb) {
        Rgb { r: v.i, g: v.j, b: v.k }
    }
}

impl vstd::std_specs::convert::FromSpecImpl<Vec3> for Rgb {
    open spec fn obeys_from_spec() -> bool {
        true
    }

    open spec fn from_spec(v: Vec3) -> Rgb {
        Rgb { r: v.i, g: v.j, b: v.k }
    }
}

/// A diffuse surface.
#[derive(Clone, Copy, Debug)]
pub struct Lambertian {
    pub albedo: Rgb,
}

/// A mirror, more or less polished.
#[derive(Clone, Copy, Debug)]
pub struct Metal {
    pub albedo: Rgb,
    /// How far a reflected ray may stray; what lies outside 0 to 1 is held to
    /// the nearer end.
    pub fuzz: Scalar,
}

/// A clear surface that bends light, in a vacuum.
#[derive(Clone, Copy, Debug)]
pub struct Dieletric {
    /// The index of refraction.
    pub ir: Scalar,
}

/// The materials a surface can be made of.
#[derive(Clone, Copy, Debug)]
pub enum Material {
    Lambertian(Lambertian),
    Metal(Metal),
    Dieletric(Dieletric),
}

impl Material {
    /// The color by which the material filters the light that its scattered
    /// ray brings back: its albedo, and white for a clear surface, which
    /// takes nothing away.
    pub open spec fn attenuation_spec(self) -> Rgb {
        match self {
            Material::Lambertian(m) => m.albedo,
            Material::Metal(m) => m.albedo,
            Material::Dieletric(_) => Rgb {
                r: Scalar { bits: ONE_BITS },
                g: Scalar { bits: ONE_BITS },
                b: Scalar { bits: ONE_BITS },
            },
        }
    }

    /// The color by which the material filters the light that its scattered
    /// ray brings back.
    pub fn attenuation(&self) -> (c: Rgb)
        ensures
            c == self.attenuation_spec(),
    {
        match self {
            Material::Lambertian(m) => m.albedo,
            Material::Metal(m) => m.albedo,
            Material::Dieletric(_) => Rgb::white(),
        }
    }
}

impl Lambertian {
    /// What a diffuse surface does to a ray: the ray leaves the point of the
    /// hit along `scatter_direction`, or along the normal where every
    /// component of `scatter_direction` is next to nothing, and the light it
    /// brings back is filtered by the albedo.
    pub open spec fn scatter_spec(self, hit_record: HitRecord, scatter_direction: Vec3) -> (Ray, Rgb) {
        (
            Ray {
                origin: hit_record.intersection,
                direction: if scatter_direction.near_zero_spec() {
                    hit_record.normal
                } else {
                    scatter_direction
                },
            },
            self.albedo,
        )
    }

    /// The ray that leaves a diffuse surface, and the color that filters what
    /// it brings back. `scatter_direction` is the hit's normal plus a random
    /// unit vector. The outcome depends on nothing else: the same hit and
    /// the same draw give the same ray and the same color.
    pub fn scatter(&self, hit_record: &HitRecord, scatter_direction: Vec3) -> (out: (Ray, Rgb))
        ensures
            out == self.scatter_spec(*hit_record, scatter_direction),
            out.1 == Material::Lambertian(*self).attenuation_spec(),
    {
        let mut direction = scatter_direction;
        if direction.near_zero() {
            direction = hit_record.normal;
        }
        (Ray { origin: hit_record.intersection, direction }, self.albedo)
    }
}

impl Metal {
    /// The fuzz, held within 0 to 1.
    pub open spec fn fuzz_factor_spec(self) -> Scalar {
        self.fuzz.clamp_spec(Scalar { bits: ZERO_BITS }, Scalar { bits: ONE_BITS })
    }

    /// What a metal surface does to a ray: the ray leaves the point of the
    /// hit along `direction`, and the light it brings back is filtered by the
    /// albedo.
    pub open spec fn scatter_spec(self, hit_record: HitRecord, direction: Vec3) -> (Ray, Rgb) {
        (Ray { origin: hit_record.intersection, direction }, self.albedo)
    }

    /// The factor by which the random vector is scaled before it is added to
    /// the mirrored direction: the fuzz, held within 0 to 1.
    pub fn fuzz_factor(&self) -> (r: Scalar)
        ensures
            r == self.fuzz_factor_spec(),
            !self.fuzz.is_nan() ==> !r.is_nan() && 0 <= r.value() <= (Scalar {
                bits: ONE_BITS,
            }).value(),
    {
        self.fuzz.clamp(Scalar::zero(), Scalar::one())
    }

    /// The ray that leaves a metal surface, and the color that filters what it
    /// brings back. `direction` is the mirrored direction of the incoming ray
    /// plus the random vector scaled by the fuzz factor. It is taken as it is,
    /// also where it points into the surface. The outcome depends on nothing
    /// else: the same hit and the same draw give the same ray and the same
    /// color.
    pub fn scatter(&self, hit_record: &HitRecord, direction: Vec3) -> (out: (Ray, Rgb))
        ensures
            out == self.scatter_spec(*hit_record, direction),
            out.1 == Material::Metal(*self).attenuation_spec(),
    {
        (Ray { origin: hit_record.intersection, direction }, self.albedo)
    }
}

impl Dieletric {
    /// The ratio of the two media's indices for a ray that meets the surface:
    /// `reciprocal`, which is one over the index, where the ray comes from
    /// outside, and the index itself where it comes from inside.
    pub fn ratio(&self, hit_record: &HitRecord, reciprocal: Scalar) -> (r: Scalar)
        ensures
            r == if hit_record.out_facing {
                reciprocal
            } else {
                self.ir
            },
    {
        if hit_record.out_facing {
            reciprocal
        } else {
            self.ir
        }
    }

    /// The ray cannot pass the surface. `bend` is the ratio of the indices
    /// times the sine of the angle between ray and normal; above one, no
    /// angle on the far side has that sine.
    pub open spec fn reflects_spec(bend: Scalar) -> bool {
        bend.gt_spec(Scalar { bits: ONE_BITS })
    }

    /// What a clear surface does to a ray: the ray leaves the point of the
    /// hit along the mirrored direction where it cannot pass and along the
    /// refracted direction where it can, and the light it brings back is not
    /// filtered.
    pub open spec fn scatter_spec(
        self,
        hit_record: HitRecord,
        bend: Scalar,
        reflected: Vec3,
        refracted: Vec3,
    ) -> (Ray, Rgb) {
        (
            Ray {
                origin: hit_record.intersection,
                direction: if Self::reflects_spec(bend) {
                    reflected
                } else {
                    refracted
                },
            },
            Material::Dieletric(self).attenuation_spec(),
        )
    }

    /// Whether the ray is thrown back whole.
    pub fn reflects(bend: Scalar) -> (r: bool)
        ensures
            r == Self::reflects_spec(bend),
    {
        bend.gt(Scalar::one())
    }

    /// The ray that leaves a clear surface, and the color that filters what it
    /// brings back. The ray takes the mirrored direction where `bend` is above
    /// one and the refracted direction where it is not; nothing lies between
    /// the two. The filter is white.
    pub fn scatter(&self, hit_record: &HitRecord, bend: Scalar, reflected: Vec3, refracted: Vec3) -> (out: (
        Ray,
        Rgb,
    ))
        ensures
            out == self.scatter_spec(*hit_record, bend, reflected, refracted),
    {
        let direction = if Self::reflects(bend) {
            reflected
        } else {
            refracted
        };
        (Ray { origin: hit_record.intersection, direction }, Rgb::white())
    }
}

/// Black is written as three zero bytes.
pub proof fn lemma_black_bytes()
    ensures
        (Rgb {
            r: Scalar { bits: ZERO_BITS },
            g: Scalar { bits: ZERO_BITS },
            b: Scalar { bits: ZERO_BITS },
        }).bytes_spec() == seq![0u8, 0u8, 0u8],
{
    lemma_pow2_pos(1074);
}

/// A color of which a channel is a number that is at least one is not
/// written as the bytes of black: a pixel of a path that ended for want of a
/// bounce cannot be taken for a pixel that bright.
pub proof fn lemma_bright_is_not_black(color: Rgb)
    requires
        ({
            ||| !color.r.is_nan() && color.r.value() >= pow2(1074)
            ||| !color.g.is_nan() && color.g.value() >= pow2(1074)
            ||| !color.b.is_nan() && color.b.value() >= pow2(1074)
        }),
    ensures
        color.bytes_spec() != seq![0u8, 0u8, 0u8],
{
    lemma_pow2_pos(1074);
    lemma_div_by_self(pow2(1074) as int);
    let black = seq![0u8, 0u8, 0u8];
    if !color.r.is_nan() && color.r.value() >= pow2(1074) {
        lemma_div_is_ordered(pow2(1074) as int, color.r.magnitude() as int, pow2(1074) as int);
        assert(color.bytes_spec()[0] != black[0]);
    } else if !color.g.is_nan() && color.g.value() >= pow2(1074) {
        lemma_div_is_ordered(pow2(1074) as int, color.g.magnitude() as int, pow2(1074) as int);
        assert(color.bytes_spec()[1] != black[1]);
    } else {
        lemma_div_is_ordered(pow2(1074) as int, color.b.magnitude() as int, pow2(1074) as int);
        assert(color.bytes_spec()[2] != black[2]);
    }
}

/// A clear surface throws a ray back exactly where the ratio of the indices
/// times the sine of the angle is a number above one. Below the critical
/// angle, and at it, the ray is refracted.
pub proof fn lemma_reflects_above_one(bend: Scalar)
    ensures
        Dieletric::reflects_spec(bend) <==> !bend.is_nan() && bend.value() > pow2(1074),
        Dieletric::reflects_spec(bend) ==> !bend.negative(),
{
    let one = Scalar { bits: ONE_BITS };
    assert(one.exponent() == 1023 && one.fraction() == 0);
    lemma2_to64_rest();
    lemma_pow2_adds(52, 1022);
    lemma_pow2_pos(1074);
}

} // verus!
