//! Choosing what a ray hits.
//!
//! The geometry of a ray and a sphere yields, per sphere, at most two
//! distances along the ray. This module decides which of them counts and
//! which sphere is nearest. Distances are fixed-point quantities measured
//! along the ray.

use crate::color::Color;
use crate::fixed::{root, sqrt, ONE};
use crate::material::Material;
use vstd::prelude::*;

verus! {

/// Roots no farther than this are taken for the surface that the ray just
/// left: one millionth, rounded down.
pub const BIAS: i64 = 4294;

/// What a light path reads from the surface it hit.
#[derive(Clone, Copy, Debug, PartialEq, Eq, Structural)]
pub struct Intersection {
    pub material: Material,
    /// How far the ray travelled to the surface.
    pub distance: u64,
    /// The cosine of the angle between the direction of the ray and the
    /// outward normal: negative where the ray arrives from outside.
    pub cosine: i64,
}

impl Intersection {
    pub open spec fn wf(self) -> bool {
        &&& self.material.wf()
        &&& self.distance > 0
        &&& -ONE <= self.cosine <= ONE
    }

    pub fn is_valid(&self) -> (valid: bool)
        ensures
            valid == self.wf(),
    {
        self.material.is_valid() && self.distance > 0 && -(ONE as i64) <= self.cosine
            && self.cosine <= ONE as i64
    }
}

/// The distance at which a ray meets a sphere.
///
/// With `op` the vector from the origin of the ray to the centre of the
/// sphere, `b` is the dot product of `op` and the direction of the ray, and
/// the discriminant is `b * b - op . op + radius * radius`. A negative
/// discriminant means that the ray passes the sphere by. Otherwise the two
/// roots are `b` less and `b` plus the square root of the discriminant: the
/// nearer root counts where it lies beyond the bias, else the farther root
/// where that does, else nothing.
pub open spec fn first_root(b: i64, discriminant: i64) -> Option<u64> {
    if discriminant < 0 {
        None
    } else {
        let spread = root(discriminant * ONE);
        if b - spread > BIAS {
            Some((b - spread) as u64)
        } else if b + spread > BIAS {
            Some((b + spread) as u64)
        } else {
            None
        }
    }
}

/// Whether `found` is the first of the nearest candidates in `distances`,
/// or nothing where there is no candidate.
pub open spec fn is_closest(distances: Seq<Option<u64>>, found: Option<usize>) -> bool {
    match found {
        Some(index) => {
            &&& index < distances.len()
            &&& distances[index as int] is Some
            &&& forall|j: int|
                0 <= j < distances.len() && distances[j] is Some ==> distances[index as int]->0
                    <= (#[trigger] distances[j])->0
            &&& forall|j: int|
                0 <= j < index && distances[j] is Some ==> distances[index as int]->0 < (
                #[trigger] distances[j])->0
        },
        None => forall|j: int| 0 <= j < distances.len() ==> (#[trigger] distances[j]) is None,
    }
}

/// Solves the quadratic of a ray and a sphere and picks the root that
/// counts as the hit.
pub fn intersection_distance(b: i64, discriminant: i64) -> (distance: Option<u64>)
    ensures
        distance == first_root(b, discriminant),
        distance matches Some(d) ==> d > BIAS,
{
    if discriminant < 0 {
        return None;
    }
    let positive: u128 = discriminant as u128;
    assert(positive * ONE < 0x8000_0000_0000_0000 * 0x1_0000_0000) by (nonlinear_arith)
        requires
            positive < 0x8000_0000_0000_0000,
            ONE == 0x1_0000_0000,
    ;
    let wide: u128 = positive * (ONE as u128);
    let spread: u64 = sqrt(wide);
    assert(spread < 0x1_0000_0000_0000) by (nonlinear_arith)
        requires
            spread * spread <= wide,
            wide < 0x8000_0000_0000_0000 * 0x1_0000_0000,
    ;
    let near: i128 = b as i128 - spread as i128;
    let far: i128 = b as i128 + spread as i128;
    if near > BIAS as i128 {
        Some(near as u64)
    } else if far > BIAS as i128 {
        Some(far as u64)
    } else {
        None
    }
}

/// Scans the candidate distances of all objects, in order, and picks the
/// nearest. Among equal distances the first object wins. Where no object
/// has a candidate the ray misses.
pub fn closest(distances: &Vec<Option<u64>>) -> (found: Option<usize>)
    ensures
        is_closest(distances@, found),
{
    let mut found: Option<usize> = None;
    let mut best: u64 = 0;
    let mut i: usize = 0;
    while i < distances.len()
        invariant
            i <= distances.len(),
            is_closest(distances@.take(i as int), found),
            found matches Some(index) ==> distances@[index as int] == Some(best),
        decreases distances.len() - i,
    {
        match distances[i] {
            Some(d) => {
                if found.is_none() || d < best {
                    found = Some(i);
                    best = d;
                }
            },
            None => {},
        }
        i = i + 1;
    }
    assert(distances@.take(i as int) =~= distances@);
    found
}

/// Where a ray first meets the scene: which object, and how far along the
/// ray.
#[derive(Clone, Copy, Debug, PartialEq, Eq, Structural)]
pub struct Hit {
    pub object: usize,
    pub distance: u64,
}

/// The candidate distances of spheres whose quadratics have the given
/// coefficients, `b` first and the discriminant second.
pub open spec fn candidates(coefficients: Seq<(i64, i64)>) -> Seq<Option<u64>> {
    coefficients.map_values(|c: (i64, i64)| first_root(c.0, c.1))
}

/// Whether `found` is the first of the nearest candidates, with its
/// distance, or nothing where there is no candidate.
pub open spec fn is_hit(distances: Seq<Option<u64>>, found: Option<Hit>) -> bool {
    match found {
        Some(hit) => {
            &&& is_closest(distances, Some(hit.object))
            &&& distances[hit.object as int] == Some(hit.distance)
        },
        None => is_closest(distances, None),
    }
}

/// Finds what a ray meets first: scans the objects in order, solves the
/// quadratic of each, and keeps the nearest candidate. Among equal
/// distances the first object wins. Where no object has a candidate the
/// ray misses.
///
/// `quadratic` computes, for one object, the two coefficients that
/// `first_root` takes.
pub fn intersect<T, Q: Fn(&T) -> (i64, i64)>(objects: &Vec<T>, quadratic: Q) -> (found: Option<Hit>)
    requires
        forall|i: int| 0 <= i < objects@.len() ==> call_requires(quadratic, (&objects@[i],)),
    ensures
        exists|coefficients: Seq<(i64, i64)>|
            {
                &&& coefficients.len() == objects@.len()
                &&& forall|i: int|
                    0 <= i < objects@.len() ==> call_ensures(
                        quadratic,
                        (&objects@[i],),
                        #[trigger] coefficients[i],
                    )
                &&& #[trigger] is_hit(candidates(coefficients), found)
            },
{
    let mut found: Option<Hit> = None;
    let mut best: u64 = 0;
    let ghost mut coefficients: Seq<(i64, i64)> = Seq::empty();
    let mut i: usize = 0;
    while i < objects.len()
        invariant
            i <= objects@.len(),
            forall|k: int| 0 <= k < objects@.len() ==> call_requires(quadratic, (&objects@[k],)),
            coefficients.len() == i,
            forall|k: int|
                0 <= k < i ==> call_ensures(quadratic, (&objects@[k],), #[trigger] coefficients[k]),
            is_hit(candidates(coefficients), found),
            found matches Some(hit) ==> hit.distance == best,
        decreases objects@.len() - i,
    {
        let (b, discriminant) = quadratic(&objects[i]);
        let distance = intersection_distance(b, discriminant);
        proof {
            let before = candidates(coefficients);
            coefficients = coefficients.push((b, discriminant));
            let after = candidates(coefficients);
            assert(forall|j: int| 0 <= j < i ==> after[j] == before[j]);
        }
        match distance {
            Some(d) => {
                if found.is_none() || d < best {
                    found = Some(Hit { object: i, distance: d });
                    best = d;
                }
            },
            None => {},
        }
        i = i + 1;
    }
    found
}

/// The radiance of the background, the same in every direction.
pub fn bg() -> (radiance: Color)
    ensures
        radiance == (Color { r: ONE, g: 0, b: 0 }),
{
    Color { r: ONE, g: 0, b: 0 }
}

} // verus!
