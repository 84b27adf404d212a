//! Surface materials and their stochastic interaction with a light path.
//!
//! A material has no discrete type. At every interaction one uniform draw
//! selects among specular reflection, transmission, absorption and diffuse
//! scattering, each weighted by the material's continuous parameters. This
//! module decides the kind of interaction and the throughput it carries; the
//! outgoing direction is geometry and is computed by the caller from the
//! kind.

use crate::color::Color;
use crate::fixed::{lemma_product_bounds, product, scale, ONE};
use crate::random::uniform;
use vstd::prelude::*;

verus! {

/// The reciprocal of pi, rounded down.
pub const INV_PI: u64 = 1367130551;

/// Pi, rounded down.
pub const PI: u64 = 13493037704;

/// What happened to the light at a surface.
#[derive(Clone, Copy, Debug, PartialEq, Eq, Structural)]
pub enum Scattering {
    /// Mirror reflection off the outside, perturbed by roughness.
    Reflect,
    /// Refraction from the outside into the medium.
    Transmit,
    /// Absorption by a metal: the path ends.
    Absorb,
    /// Cosine-weighted diffuse scattering off the outside.
    Diffuse,
    /// Refraction from the medium back to the outside.
    Exit,
    /// Total internal reflection on the way out: the path ends.
    Trapped,
}

/// One sampled interaction: its kind, the throughput multiplier it carries,
/// and whether it was specular. The flag is false for diffuse and for ending
/// interactions.
#[derive(Clone, Copy, Debug, PartialEq, Eq, Structural)]
pub struct BSDF {
    pub kind: Scattering,
    pub signal: Color,
    pub reflected: bool,
}

impl BSDF {
    /// Whether the interaction ends the path.
    pub open spec fn ends(self) -> bool {
        self.kind == Scattering::Absorb || self.kind == Scattering::Trapped
    }

    /// Whether the interaction ends the path.
    pub fn is_dead(&self) -> (dead: bool)
        ensures
            dead == self.ends(),
    {
        match self.kind {
            Scattering::Absorb => true,
            Scattering::Trapped => true,
            _ => false,
        }
    }
}

/// The continuous parameters of a surface.
#[derive(Clone, Copy, Debug, PartialEq, Eq, Structural)]
pub struct Material {
    /// Albedo.
    pub color: Color,
    /// Index of refraction of the medium behind the surface.
    pub refraction: u64,
    /// Transparency: how much of the light that is not reflected enters the
    /// medium.
    pub transparency: u64,
    /// Emitted radiance.
    pub light: Color,
    /// Fresnel reflectance at normal incidence.
    pub fresnel: Color,
    /// Metalness: how much of the light that is not reflected or
    /// transmitted is absorbed, and how far reflections are tinted.
    pub metal: u64,
    /// Glossiness: how narrow the cone around the mirror direction is in
    /// which reflected light leaves. The host reads it.
    pub gloss: u64,
}

/// `x` to the fifth power.
pub open spec fn fifth_power(x: int) -> int {
    let square = product(x, x);
    product(product(square, square), x)
}

/// Schlick's approximation of the Fresnel reflectance of one channel, for
/// the cosine of the angle between the surface normal and the direction back
/// along the incoming ray.
pub open spec fn schlick(base: int, cos_theta: int) -> int {
    base + product(ONE - base, fifth_power(ONE - cos_theta))
}

/// The probability mass excluded after one more outcome of the cascade: the
/// outcome takes the fraction `weight` of what the earlier ones left.
pub open spec fn mass(previous: int, weight: int) -> int {
    previous + product(ONE - previous, weight)
}

/// Whether Snell's law has a solution for light that crosses from a medium
/// of index `exterior` into one of index `interior`, where `cosine` is the
/// cosine of the angle between the ray and the surface normal. Without one
/// the light is totally reflected.
pub open spec fn refracts(cosine: i64, exterior: u64, interior: u64) -> bool {
    let sine_squared = ONE - product(cosine as int, cosine as int);
    product(product(exterior as int, exterior as int), sine_squared) <= product(
        interior as int,
        interior as int,
    )
}

/// How far a medium of the given opacity tints light that travelled
/// `length` through it: the opacity times the square of the length, at most
/// one.
pub open spec fn volume(opacity: int, length: int) -> int {
    let grown = product(product(length, opacity), length);
    if grown > ONE {
        ONE as int
    } else {
        grown
    }
}

/// The excluded mass never shrinks and never passes one. A weight of zero
/// adds nothing, a weight of one takes all that is left.
pub proof fn lemma_mass_bounds(previous: int, weight: int)
    requires
        0 <= previous <= ONE,
        0 <= weight <= ONE,
    ensures
        previous <= mass(previous, weight) <= ONE,
        mass(previous, 0) == previous,
        mass(previous, ONE as int) == ONE,
        mass(0, weight) == weight,
{
    lemma_product_bounds(ONE - previous, weight);
}

/// The Fresnel reflectance is a weight, and at normal incidence it is the
/// base reflectance.
pub proof fn lemma_schlick_bounds(base: int, cos_theta: int)
    requires
        0 <= base <= ONE,
        0 <= cos_theta <= ONE,
    ensures
        base <= schlick(base, cos_theta) <= ONE,
        0 <= fifth_power(ONE - cos_theta) <= ONE,
        schlick(base, ONE as int) == base,
{
    let x = ONE - cos_theta;
    lemma_product_bounds(x, x);
    let square = product(x, x);
    lemma_product_bounds(square, square);
    lemma_product_bounds(product(square, square), x);
    lemma_product_bounds(ONE - base, fifth_power(x));
}

/// Decides whether light crossing a surface is refracted or totally
/// reflected.
pub fn refraction(cosine: i64, exterior: u64, interior: u64) -> (through: bool)
    requires
        -ONE <= cosine <= ONE,
    ensures
        through == refracts(cosine, exterior, interior),
{
    let c: i128 = cosine as i128;
    assert(0 <= c * c <= 0x1_0000_0000 * 0x1_0000_0000) by (nonlinear_arith)
        requires
            -0x1_0000_0000 <= c <= 0x1_0000_0000,
    ;
    let cosine_squared: u128 = ((c * c) as u128) / (ONE as u128);
    let sine_squared: u128 = ONE as u128 - cosine_squared;
    let e: u128 = exterior as u128;
    let i: u128 = interior as u128;
    assert(e * e <= 0xffff_ffff_ffff_ffff * 0xffff_ffff_ffff_ffff && i * i <= 0xffff_ffff_ffff_ffff
        * 0xffff_ffff_ffff_ffff) by (nonlinear_arith)
        requires
            e <= 0xffff_ffff_ffff_ffff,
            i <= 0xffff_ffff_ffff_ffff,
    ;
    let outside: u128 = (e * e) / (ONE as u128);
    let inside: u128 = (i * i) / (ONE as u128);
    assert(outside * sine_squared <= 0xffff_ffff_ffff_ffff_ffff_ffff * 0x1_0000_0000)
        by (nonlinear_arith)
        requires
            outside <= 0xffff_ffff_ffff_ffff_ffff_ffff,
            sine_squared <= 0x1_0000_0000,
    ;
    (outside * sine_squared) / (ONE as u128) <= inside
}

/// A cascade of mutually exclusive outcomes tested against one uniform draw.
///
/// Each call of `or` names the probability of the next outcome relative to
/// the mass that the earlier outcomes left over. The draw is kept across the
/// whole cascade, so at most one outcome fires first, and the order of the
/// calls is part of the meaning.
#[derive(Clone, Copy, Debug, PartialEq, Eq, Structural)]
pub struct FilteredProbabilityTest {
    /// The draw, as a fraction of two to the thirty-second power.
    pub r: u32,
    /// The mass excluded so far.
    pub p: u64,
}

impl FilteredProbabilityTest {
    pub open spec fn wf(self) -> bool {
        self.p <= ONE
    }

    /// Starts a cascade on a fresh draw.
    pub fn new() -> (test: FilteredProbabilityTest)
        ensures
            test.p == 0,
    {
        FilteredProbabilityTest { r: uniform(), p: 0 }
    }

    /// Starts a cascade on a given draw.
    pub fn from_draw(r: u32) -> (test: FilteredProbabilityTest)
        ensures
            test == (FilteredProbabilityTest { r, p: 0 }),
    {
        FilteredProbabilityTest { r, p: 0 }
    }

    /// Tests the next outcome, of probability `p` among what is left. It
    /// fires when the draw falls below the mass excluded so far, this
    /// outcome included; once an outcome has fired, every later one does.
    pub fn or(&mut self, p: u64) -> (fired: bool)
        requires
            old(self).wf(),
            p <= ONE,
        ensures
            final(self).r == old(self).r,
            final(self).p == mass(old(self).p as int, p as int),
            final(self).wf(),
            fired == (final(self).r < final(self).p),
    {
        self.p = self.p + scale(ONE - self.p, p);
        (self.r as u64) < self.p
    }
}

impl Material {
    /// Whether every parameter lies in its range: albedo, Fresnel base
    /// reflectance, transparency, metalness and glossiness are weights.
    pub open spec fn wf(self) -> bool {
        &&& self.color.is_weight()
        &&& self.fresnel.is_weight()
        &&& self.transparency <= ONE
        &&& self.metal <= ONE
        &&& self.gloss <= ONE
    }

    /// The Fresnel reflectance per channel.
    pub open spec fn reflectance(self, cos_theta: int) -> Color {
        Color {
            r: schlick(self.fresnel.r as int, cos_theta) as u64,
            g: schlick(self.fresnel.g as int, cos_theta) as u64,
            b: schlick(self.fresnel.b as int, cos_theta) as u64,
        }
    }

    /// The first threshold of the cascade for light that arrives from
    /// outside: the probability of specular reflection, which is the mean of
    /// the Fresnel reflectance over the channels.
    pub open spec fn reflect_mass(self, cosine: i64) -> int {
        self.reflectance(-cosine).mean()
    }

    /// The second threshold: the mass excluded after transmission, which
    /// takes the transparency of what reflection left. Where the light
    /// cannot be refracted, transmission takes nothing at this sample.
    pub open spec fn transmit_mass(self, cosine: i64) -> int {
        mass(
            self.reflect_mass(cosine),
            if refracts(cosine, ONE, self.refraction) {
                self.transparency as int
            } else {
                0
            },
        )
    }

    /// The third threshold: the mass excluded after absorption, which takes
    /// the metalness of what transmission left. Diffuse scattering takes
    /// the rest.
    pub open spec fn absorb_mass(self, cosine: i64) -> int {
        mass(self.transmit_mass(cosine), self.metal as int)
    }

    /// The kind of interaction that a draw selects. `cosine` is the cosine
    /// of the angle between the incoming direction and the outward normal:
    /// negative where the light arrives from outside.
    pub open spec fn kind(self, cosine: i64, draw: u32) -> Scattering {
        if cosine < 0 {
            if draw < self.reflect_mass(cosine) {
                Scattering::Reflect
            } else if draw < self.transmit_mass(cosine) {
                Scattering::Transmit
            } else if draw < self.absorb_mass(cosine) {
                Scattering::Absorb
            } else {
                Scattering::Diffuse
            }
        } else if refracts(cosine, self.refraction, ONE) {
            Scattering::Exit
        } else {
            Scattering::Trapped
        }
    }

    /// The throughput multiplier of each kind of interaction, for light
    /// that travelled `length` inside the medium.
    pub open spec fn signal(self, kind: Scattering, length: u64) -> Color {
        match kind {
            Scattering::Reflect => Color::clear().blended(self.fresnel, self.metal as int),
            Scattering::Transmit => Color::clear(),
            Scattering::Absorb => Color::dark(),
            Scattering::Diffuse => self.color.dimmed(INV_PI as int),
            Scattering::Exit => Color::clear().blended(
                self.color,
                volume(ONE - self.transparency, length as int),
            ),
            Scattering::Trapped => Color::dark(),
        }
    }

    /// The interaction of the given kind.
    pub open spec fn outcome(self, kind: Scattering, length: u64) -> BSDF {
        BSDF {
            kind,
            signal: self.signal(kind, length),
            reflected: kind == Scattering::Reflect || kind == Scattering::Transmit || kind
                == Scattering::Exit,
        }
    }

    /// The interaction that a draw selects.
    pub open spec fn sample(self, cosine: i64, length: u64, draw: u32) -> BSDF {
        self.outcome(self.kind(cosine, draw), length)
    }

    pub fn new(
        color: Color,
        refraction: u64,
        transparency: u64,
        light: Color,
        fresnel: Color,
        metal: u64,
        gloss: u64,
    ) -> (m: Material)
        ensures
            m == (Material { color, refraction, transparency, light, fresnel, metal, gloss }),
    {
        Material { color, refraction, transparency, light, fresnel, metal, gloss }
    }

    /// Whether every parameter lies in its range.
    pub fn is_valid(&self) -> (valid: bool)
        ensures
            valid == self.wf(),
    {
        self.color.r <= ONE && self.color.g <= ONE && self.color.b <= ONE && self.fresnel.r <= ONE
            && self.fresnel.g <= ONE && self.fresnel.b <= ONE && self.transparency <= ONE
            && self.metal <= ONE && self.gloss <= ONE
    }

    /// The radiance that the surface emits, the same in every direction.
    pub fn emit(&self) -> (light: Color)
        ensures
            light == self.light,
    {
        self.light
    }

    /// The radiance that the surface emits against a ray of the given
    /// cosine to the outward normal: the emitted radiance weighted by the
    /// cosine of the angle between the normal and the way back along the
    /// ray, and nothing towards the inside.
    pub fn emit_towards(&self, cosine: i64) -> (light: Color)
        requires
            -ONE <= cosine <= ONE,
        ensures
            light == self.light.dimmed(
                if cosine < 0 {
                    -cosine
                } else {
                    0
                },
            ),
    {
        if self.light.is_black() {
            return Color::black();
        }
        let facing: u64 = if cosine < 0 {
            (-cosine) as u64
        } else {
            0
        };
        self.light.scaled(facing)
    }

    /// Schlick's approximation of the Fresnel reflectance, per channel.
    pub fn schlick(&self, cos_theta: u64) -> (f: Color)
        requires
            self.fresnel.is_weight(),
            cos_theta <= ONE,
        ensures
            f == self.reflectance(cos_theta as int),
            f.is_weight(),
    {
        proof {
            let x = ONE - cos_theta;
            lemma_product_bounds(x, x);
        }
        let x: u64 = ONE - cos_theta;
        let square: u64 = scale(x, x);
        let fifth: u64 = scale(scale(square, square), x);
        Color {
            r: self.fresnel.r + scale(ONE - self.fresnel.r, fifth),
            g: self.fresnel.g + scale(ONE - self.fresnel.g, fifth),
            b: self.fresnel.b + scale(ONE - self.fresnel.b, fifth),
        }
    }

    /// Samples an interaction on a fresh uniform draw.
    pub fn bsdf(&self, cosine: i64, length: u64) -> (sample: BSDF)
        requires
            self.wf(),
            -ONE <= cosine <= ONE,
        ensures
            exists|draw: u32| sample == #[trigger] self.sample(cosine, length, draw),
    {
        let draw: u32 = uniform();
        self.scatter(cosine, length, draw)
    }

    /// Samples an interaction on the given draw.
    ///
    /// Light that arrives from outside runs the cascade, in this order:
    /// reflection with the mean Fresnel reflectance, transmission with the
    /// transparency, absorption with the metalness, and diffuse scattering
    /// with what is left. Light that arrives from inside leaves the medium
    /// or is trapped.
    pub fn scatter(&self, cosine: i64, length: u64, draw: u32) -> (sample: BSDF)
        requires
            self.wf(),
            -ONE <= cosine <= ONE,
        ensures
            sample == self.sample(cosine, length, draw),
            sample.signal.is_weight(),
    {
        let entering: bool = cosine < 0;
        if entering {
            let mut test = FilteredProbabilityTest::from_draw(draw);
            let reflectance: u64 = self.schlick((-cosine) as u64).component_average();
            let transparency: u64 = if refraction(cosine, ONE, self.refraction) {
                self.transparency
            } else {
                0
            };
            if test.or(reflectance) {
                self.reflected()
            } else if test.or(transparency) {
                self.refracted_entry()
            } else if test.or(self.metal) {
                self.dead()
            } else {
                self.diffused()
            }
        } else if refraction(cosine, self.refraction, ONE) {
            self.refracted_exit(length)
        } else {
            self.trapped()
        }
    }

    /// Absorption: the path ends and carries nothing.
    pub fn dead(&self) -> (sample: BSDF)
        ensures
            sample == self.outcome(Scattering::Absorb, 0),
            sample.signal == Color::dark(),
            sample.ends(),
    {
        BSDF { kind: Scattering::Absorb, signal: Color::black(), reflected: false }
    }

    /// Total internal reflection on the way out: the path ends and carries
    /// nothing.
    pub fn trapped(&self) -> (sample: BSDF)
        ensures
            sample == self.outcome(Scattering::Trapped, 0),
            sample.signal == Color::dark(),
            sample.ends(),
    {
        BSDF { kind: Scattering::Trapped, signal: Color::black(), reflected: false }
    }

    /// Diffuse scattering: the albedo over pi.
    pub fn diffused(&self) -> (sample: BSDF)
        requires
            self.color.is_weight(),
        ensures
            sample == self.outcome(Scattering::Diffuse, 0),
            sample.signal.is_weight(),
    {
        BSDF { kind: Scattering::Diffuse, signal: self.color.scaled(INV_PI), reflected: false }
    }

    /// Specular reflection: white, tinted towards the Fresnel base
    /// reflectance by the metalness.
    pub fn reflected(&self) -> (sample: BSDF)
        requires
            self.fresnel.is_weight(),
            self.metal <= ONE,
        ensures
            sample == self.outcome(Scattering::Reflect, 0),
            sample.signal.is_weight(),
    {
        BSDF {
            kind: Scattering::Reflect,
            signal: Color::white().lerp(self.fresnel, self.metal),
            reflected: true,
        }
    }

    /// Refraction into the medium: nothing is lost at the surface.
    pub fn refracted_entry(&self) -> (sample: BSDF)
        ensures
            sample == self.outcome(Scattering::Transmit, 0),
            sample.signal.is_weight(),
    {
        BSDF { kind: Scattering::Transmit, signal: Color::white(), reflected: true }
    }

    /// Refraction out of the medium: white, tinted towards the albedo by
    /// the volume that the light crossed.
    pub fn refracted_exit(&self, length: u64) -> (sample: BSDF)
        requires
            self.color.is_weight(),
            self.transparency <= ONE,
        ensures
            sample == self.outcome(Scattering::Exit, length),
            sample.signal.is_weight(),
    {
        let opacity: u64 = ONE - self.transparency;
        let thin: u64 = scale(length, opacity);
        assert(thin * length <= 0xffff_ffff_ffff_ffff * 0xffff_ffff_ffff_ffff) by (nonlinear_arith)
            requires
                thin <= 0xffff_ffff_ffff_ffff,
                length <= 0xffff_ffff_ffff_ffff,
        ;
        let grown: u128 = (thin as u128 * length as u128) / (ONE as u128);
        let volume: u64 = if grown > ONE as u128 {
            ONE
        } else {
            grown as u64
        };
        BSDF {
            kind: Scattering::Exit,
            signal: Color::white().lerp(self.color, volume),
            reflected: true,
        }
    }
}

/// The thresholds of the cascade come in the order of its outcomes, and
/// none passes one: every draw selects exactly one kind of interaction.
pub proof fn lemma_cascade_ordered(material: Material, cosine: i64)
    requires
        material.wf(),
        -ONE <= cosine < 0,
    ensures
        0 <= material.reflect_mass(cosine) <= material.transmit_mass(cosine)
            <= material.absorb_mass(cosine) <= ONE,
        material.transparency == 0 ==> material.transmit_mass(cosine) == material.reflect_mass(
            cosine,
        ),
        material.metal == 0 ==> material.absorb_mass(cosine) == material.transmit_mass(cosine),
        material.metal == ONE ==> material.absorb_mass(cosine) == ONE,
{
    lemma_schlick_bounds(material.fresnel.r as int, -cosine as int);
    lemma_schlick_bounds(material.fresnel.g as int, -cosine as int);
    lemma_schlick_bounds(material.fresnel.b as int, -cosine as int);
    let reflect = material.reflect_mass(cosine);
    lemma_mass_bounds(reflect, material.transparency as int);
    lemma_mass_bounds(material.transmit_mass(cosine), material.metal as int);
}

/// A surface that neither transmits nor absorbs conserves energy where it
/// scatters diffusely: every draw that does not select the specular
/// reflection selects the diffuse kind, and its signal, multiplied by pi, is
/// the albedo, up to four units lost in rounding.
pub proof fn lemma_diffuse_conserves_energy(material: Material, cosine: i64, length: u64, draw: u32)
    requires
        material.wf(),
        material.transparency == 0,
        material.metal == 0,
        -ONE <= cosine < 0,
        draw >= material.reflect_mass(cosine),
    ensures
        material.sample(cosine, length, draw).kind == Scattering::Diffuse,
        !material.sample(cosine, length, draw).reflected,
        material.sample(cosine, length, draw).signal == material.color.dimmed(INV_PI as int),
        material.color.r - 4 <= product(
            material.sample(cosine, length, draw).signal.r as int,
            PI as int,
        ) <= material.color.r,
        material.color.g - 4 <= product(
            material.sample(cosine, length, draw).signal.g as int,
            PI as int,
        ) <= material.color.g,
        material.color.b - 4 <= product(
            material.sample(cosine, length, draw).signal.b as int,
            PI as int,
        ) <= material.color.b,
{
}

} // verus!
