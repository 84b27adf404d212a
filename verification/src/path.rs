//! Tracing one light path.
//!
//! A path starts at the camera with a clear throughput and no energy. Its
//! ray is followed through the scene, and at every encounter the path
//! decides what the encounter contributes, how the throughput changes and
//! whether the path goes on. It never meets more surfaces than its bounce
//! limit.
//!
//! The geometry is the caller's: `trace` takes a function that finds what a
//! ray meets and a function that turns the ray at a surface, and treats the
//! ray itself as an opaque value.

use crate::color::Color;
use crate::fixed::{product, quotient, ratio, ONE};
use crate::material::BSDF;
use crate::random::uniform;
use crate::scene::Intersection;
use vstd::prelude::*;

verus! {

/// The state of a light path between two encounters.
#[derive(Clone, Copy, Debug, PartialEq, Eq, Structural)]
pub struct Path {
    /// What fraction of the light met from here on reaches the camera.
    pub throughput: Color,
    /// The radiance gathered so far.
    pub energy: Color,
    /// The number of surfaces met so far.
    pub depth: u32,
    /// The largest number of surfaces the path may meet.
    pub limit: u32,
    /// Whether lights are sampled directly at every diffuse vertex.
    pub sampling_lights: bool,
    /// Whether the last interaction was specular. The camera ray counts as
    /// specular.
    pub specular: bool,
    /// Whether the path goes on.
    pub alive: bool,
}

/// The probability with which a path of the given throughput goes on: the
/// length of the throughput, at most one.
pub open spec fn survival(throughput: Color) -> int {
    if throughput.length() > ONE {
        ONE as int
    } else {
        throughput.length()
    }
}

/// The throughput of a survivor: every channel divided by the probability
/// of survival.
pub open spec fn compensated(throughput: Color, survival: int) -> Color {
    Color {
        r: quotient(throughput.r as int, survival) as u64,
        g: quotient(throughput.g as int, survival) as u64,
        b: quotient(throughput.b as int, survival) as u64,
    }
}

impl Path {
    /// The throughput is a filter, and a path that goes on has not reached
    /// its bounce limit.
    pub open spec fn wf(self) -> bool {
        &&& self.throughput.is_weight()
        &&& self.depth <= self.limit
        &&& self.alive ==> self.depth < self.limit
    }

    /// The path as it leaves the camera.
    pub open spec fn fresh(limit: u32, sampling_lights: bool) -> Path {
        Path {
            throughput: Color::clear(),
            energy: Color::dark(),
            depth: 0,
            limit,
            sampling_lights,
            specular: true,
            alive: limit > 0,
        }
    }

    /// The path after its ray left the scene: the background, seen through
    /// the throughput, is added and the path ends.
    pub open spec fn missed(self, background: Color) -> Path {
        Path {
            energy: self.energy.sum(background.filtered(self.throughput)),
            alive: false,
            ..self
        }
    }

    /// Whether the emission of a surface counts where it is met. With
    /// direct light sampling it counts only after a specular interaction:
    /// after a diffuse one the light was already sampled at the vertex
    /// before.
    pub open spec fn counts_emission(self) -> bool {
        !self.sampling_lights || self.specular
    }

    /// The energy after the emission of the surface.
    pub open spec fn with_emission(self, surface: Intersection) -> Color {
        if self.counts_emission() {
            self.energy.sum(surface.material.light.filtered(self.throughput))
        } else {
            self.energy
        }
    }

    /// The energy after the light sampled directly from the vertex, which
    /// counts at a diffuse vertex only.
    pub open spec fn with_direct(self, surface: Intersection, direct: Color, sample: BSDF) -> Color {
        if self.sampling_lights && !sample.reflected {
            self.with_emission(surface).sum(
                direct.filtered(sample.signal).filtered(self.throughput),
            )
        } else {
            self.with_emission(surface)
        }
    }

    /// The path after it met a surface, for the draw `chance` that selects
    /// the interaction and the draw `roulette` that decides survival.
    pub open spec fn struck(self, surface: Intersection, direct: Color, chance: u32, roulette: u32) -> Path {
        let sample = surface.material.sample(surface.cosine, surface.distance, chance);
        let carried = self.throughput.filtered(sample.signal);
        let survives = !sample.ends() && roulette < survival(carried);
        Path {
            throughput: if survives {
                compensated(carried, survival(carried))
            } else {
                carried
            },
            energy: self.with_direct(surface, direct, sample),
            depth: (self.depth + 1) as u32,
            limit: self.limit,
            sampling_lights: self.sampling_lights,
            specular: sample.reflected,
            alive: survives && self.depth + 1 < self.limit,
        }
    }

    /// Starts a path at the camera.
    pub fn new(limit: u32, sampling_lights: bool) -> (path: Path)
        ensures
            path == Path::fresh(limit, sampling_lights),
            path.wf(),
    {
        Path {
            throughput: Color::white(),
            energy: Color::black(),
            depth: 0,
            limit,
            sampling_lights,
            specular: true,
            alive: limit > 0,
        }
    }

    /// Whether the throughput is a filter and the path is within its
    /// bounce limit.
    pub fn is_valid(&self) -> (valid: bool)
        ensures
            valid == self.wf(),
    {
        self.throughput.r <= ONE && self.throughput.g <= ONE && self.throughput.b <= ONE
            && self.depth <= self.limit && (!self.alive || self.depth < self.limit)
    }

    /// Whether the path goes on.
    pub fn is_alive(&self) -> (alive: bool)
        ensures
            alive == self.alive,
    {
        self.alive
    }

    /// The radiance gathered so far.
    pub fn radiance(&self) -> (energy: Color)
        ensures
            energy == self.energy,
    {
        self.energy
    }

    /// Reports that the ray left the scene.
    pub fn miss(&mut self, background: Color)
        requires
            old(self).wf(),
            old(self).alive,
        ensures
            *final(self) == old(self).missed(background),
            final(self).wf(),
    {
        self.energy = self.energy.plus(background.times(self.throughput));
        self.alive = false;
    }

    /// Reports that the ray met a surface, and draws the interaction and
    /// the survival of the path.
    pub fn bounce(&mut self, surface: &Intersection, direct: Color) -> (sample: BSDF)
        requires
            old(self).wf(),
            old(self).alive,
            surface.wf(),
        ensures
            final(self).wf(),
            exists|chance: u32, roulette: u32|
                {
                    &&& *final(self) == #[trigger] old(self).struck(
                        *surface,
                        direct,
                        chance,
                        roulette,
                    )
                    &&& sample == surface.material.sample(surface.cosine, surface.distance, chance)
                },
    {
        let chance: u32 = uniform();
        let roulette: u32 = uniform();
        self.hit(surface, direct, chance, roulette)
    }

    /// Reports that the ray met a surface, with the two draws given.
    ///
    /// The emission of the surface is added where it counts. The material
    /// is sampled. With direct light sampling, the light that reaches a
    /// diffuse vertex straight from the lamp is added. An absorbed or
    /// trapped sample ends the path. Otherwise the throughput takes up the
    /// signal of the sample and the path plays Russian roulette: it goes on
    /// where the draw lies below the probability of survival, with its
    /// throughput divided by that probability. At the bounce limit the path
    /// ends whatever was drawn.
    pub fn hit(&mut self, surface: &Intersection, direct: Color, chance: u32, roulette: u32) -> (sample: BSDF)
        requires
            old(self).wf(),
            old(self).alive,
            surface.wf(),
        ensures
            *final(self) == old(self).struck(*surface, direct, chance, roulette),
            sample == surface.material.sample(surface.cosine, surface.distance, chance),
            final(self).wf(),
    {
        let sample = surface.material.scatter(surface.cosine, surface.distance, chance);
        let mut energy = self.energy;
        if !self.sampling_lights || self.specular {
            energy = energy.plus(surface.material.emit().times(self.throughput));
        }
        if self.sampling_lights && !sample.reflected {
            energy = energy.plus(direct.times(sample.signal).times(self.throughput));
        }
        let carried = self.throughput.times(sample.signal);
        let length: u64 = carried.norm();
        let chances: u64 = if length > ONE {
            ONE
        } else {
            length
        };
        let survives: bool = !sample.is_dead() && (roulette as u64) < chances;
        let throughput = if survives {
            Color {
                r: ratio(carried.r, chances),
                g: ratio(carried.g, chances),
                b: ratio(carried.b, chances),
            }
        } else {
            carried
        };
        let depth: u32 = self.depth + 1;
        *self = Path {
            throughput,
            energy,
            depth,
            limit: self.limit,
            sampling_lights: self.sampling_lights,
            specular: sample.reflected,
            alive: survives && depth < self.limit,
        };
        sample
    }
}

/// A ray that leaves the camera and meets nothing gathers exactly the
/// background.
pub proof fn lemma_first_miss_is_background(limit: u32, sampling_lights: bool, background: Color)
    ensures
        Path::fresh(limit, sampling_lights).missed(background).energy == background,
{
}

/// Russian roulette keeps the estimate unbiased: the throughput of a
/// survivor, weighted by the probability of survival, is the throughput
/// before the roulette, up to one unit lost in rounding.
pub proof fn lemma_roulette_is_unbiased(throughput: int, survival: int)
    requires
        0 <= throughput <= survival,
        0 < survival <= ONE,
    ensures
        throughput - 1 <= product(quotient(throughput, survival), survival) <= throughput,
{
    // The quotient times the divisor falls short of the dividend by less
    // than the divisor.
    let q = quotient(throughput, survival);
    vstd::arithmetic::div_mod::lemma_fundamental_div_mod(throughput * ONE, survival);
    assert(q * survival == survival * q) by (nonlinear_arith);
}

/// What a ray met.
pub enum Encounter<G> {
    /// Nothing: the ray left the scene, which has this radiance behind it.
    Miss { background: Color },
    /// A surface. `direct` is the radiance that reaches the point of the hit
    /// straight from a sampled lamp, weighted by the share of the hemisphere
    /// that the lamp covers; it is read only where lights are sampled.
    /// `geometry` is whatever the caller needs to turn the ray.
    Hit { surface: Intersection, direct: Color, geometry: G },
}

/// A path together with the ray that it follows.
pub struct Leg<R> {
    pub path: Path,
    pub ray: R,
}

/// Whether a surface that is met is sound.
pub open spec fn is_sound<G>(encounter: Encounter<G>) -> bool {
    encounter matches Encounter::Hit { surface, .. } ==> surface.wf()
}

/// Whether `after` follows from `before` by the given encounter and draws:
/// a miss ends the path, and a hit changes it as `struck` says and, where
/// the path goes on, turns the ray as `redirect` does for the sample.
pub open spec fn follows<R, G, D: Fn(R, G, BSDF) -> R>(
    redirect: D,
    before: Leg<R>,
    encounter: Encounter<G>,
    chance: u32,
    roulette: u32,
    after: Leg<R>,
) -> bool {
    match encounter {
        Encounter::Miss { background } => {
            &&& after.path == before.path.missed(background)
            &&& after.ray == before.ray
        },
        Encounter::Hit { surface, direct, geometry } => {
            let sample = surface.material.sample(surface.cosine, surface.distance, chance);
            &&& after.path == before.path.struck(surface, direct, chance, roulette)
            &&& if after.path.alive {
                call_ensures(redirect, (before.ray, geometry, sample), after.ray)
            } else {
                after.ray == before.ray
            }
        },
    }
}

/// Whether one encounter leads from `before` to `after`: the path is alive,
/// and what its ray meets is a possible result of `intersect`.
pub open spec fn is_step<R, G, I: Fn(R) -> Encounter<G>, D: Fn(R, G, BSDF) -> R>(
    intersect: I,
    redirect: D,
    before: Leg<R>,
    after: Leg<R>,
) -> bool {
    &&& before.path.alive
    &&& exists|encounter: Encounter<G>, chance: u32, roulette: u32|
        {
            &&& call_ensures(intersect, (before.ray,), encounter)
            &&& #[trigger] follows(redirect, before, encounter, chance, roulette, after)
        }
}

/// Whether the given number of encounters, one after the other, lead from
/// `start` to `end`.
pub open spec fn is_walk<R, G, I: Fn(R) -> Encounter<G>, D: Fn(R, G, BSDF) -> R>(
    intersect: I,
    redirect: D,
    start: Leg<R>,
    end: Leg<R>,
    encounters: nat,
) -> bool
    decreases encounters,
{
    if encounters == 0 {
        end == start
    } else {
        exists|middle: Leg<R>|
            {
                &&& is_walk(intersect, redirect, start, middle, (encounters - 1) as nat)
                &&& #[trigger] is_step(intersect, redirect, middle, end)
            }
    }
}

/// Follows a ray through the scene until its path ends, and returns the
/// radiance that the path has gathered.
///
/// `intersect` finds what the ray meets. At a surface the path draws the
/// interaction and plays Russian roulette; where it goes on, `redirect`
/// turns the ray at the surface for the sample that was drawn. The path
/// ends on a miss, on a sample that is absorbed or trapped, at the roulette,
/// or at its bounce limit.
pub fn trace<R: Copy, G, I: Fn(R) -> Encounter<G>, D: Fn(R, G, BSDF) -> R>(
    start: Path,
    ray: R,
    intersect: I,
    redirect: D,
) -> (radiance: Color)
    requires
        start.wf(),
        forall|r: R| call_requires(intersect, (r,)),
        forall|r: R, e: Encounter<G>| call_ensures(intersect, (r,), e) ==> is_sound(e),
        forall|r: R, g: G, s: BSDF| call_requires(redirect, (r, g, s)),
    ensures
        exists|end: Leg<R>, encounters: nat|
            {
                &&& #[trigger] is_walk(
                    intersect,
                    redirect,
                    Leg { path: start, ray },
                    end,
                    encounters,
                )
                &&& encounters <= start.limit - start.depth
                &&& !end.path.alive
                &&& radiance == end.path.energy
            },
{
    let mut path = start;
    let mut current = ray;
    let ghost origin = Leg { path: start, ray };
    let ghost mut encounters: nat = 0;
    while path.is_alive()
        invariant
            path.wf(),
            path.limit == start.limit,
            forall|r: R| call_requires(intersect, (r,)),
            forall|r: R, e: Encounter<G>| call_ensures(intersect, (r,), e) ==> is_sound(e),
            forall|r: R, g: G, s: BSDF| call_requires(redirect, (r, g, s)),
            is_walk(intersect, redirect, origin, Leg { path, ray: current }, encounters),
            start.depth <= path.depth,
            encounters <= path.depth - start.depth + (if path.depth < path.limit {
                1nat
            } else {
                0nat
            }),
            path.alive ==> encounters <= path.depth - start.depth,
        decreases
            (if path.alive { 1int } else { 0int }) + (path.limit - path.depth),
    {
        let ghost before = Leg { path, ray: current };
        let encounter = intersect(current);
        let ghost met = encounter;
        match encounter {
            Encounter::Miss { background } => {
                path.miss(background);
                proof {
                    let after = Leg { path, ray: current };
                    assert(follows(redirect, before, met, 0, 0, after));
                }
            },
            Encounter::Hit { surface, direct, geometry } => {
                let ghost entered = path;
                let sample = path.bounce(&surface, direct);
                let ghost (chance, roulette) = choose|chance: u32, roulette: u32|
                    {
                        &&& path == #[trigger] entered.struck(surface, direct, chance, roulette)
                        &&& sample == surface.material.sample(
                            surface.cosine,
                            surface.distance,
                            chance,
                        )
                    };
                if path.is_alive() {
                    current = redirect(current, geometry, sample);
                }
                proof {
                    let after = Leg { path, ray: current };
                    assert(follows(redirect, before, met, chance, roulette, after));
                }
            },
        }
        proof {
            let after = Leg { path, ray: current };
            assert(is_step(intersect, redirect, before, after));
            encounters = encounters + 1;
        }
    }
    path.radiance()
}

} // verus!
