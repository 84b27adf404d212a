//! The exposure buffer: per pixel, the sum of all radiance samples and their
//! number, and the tone curve that turns the running mean into a displayed
//! colour.
//!
//! Sums are exact. They only grow, and they do not depend on the order in
//! which the samples arrive.

use crate::color::Color;
use crate::fixed::ONE;
use vstd::prelude::*;

verus! {

/// The number of display levels above black.
pub const LEVELS: usize = 255;

/// A displayed colour, one byte per channel.
#[derive(Clone, Copy, Debug, PartialEq, Eq, Structural)]
pub struct Rgb {
    pub r: u8,
    pub g: u8,
    pub b: u8,
}

/// The display level of a radiance under a tone curve: the number of
/// thresholds that the radiance has reached.
pub open spec fn reached(levels: Seq<u64>, value: int) -> nat
    decreases levels.len(),
{
    if levels.len() == 0 {
        0
    } else {
        reached(levels.drop_last(), value) + if levels.last() <= value {
            1nat
        } else {
            0nat
        }
    }
}

/// The thresholds of the curve that displays a radiance as its integer
/// part: a gamma of one.
pub open spec fn linear_levels() -> Seq<u64> {
    Seq::new(LEVELS as nat, |i: int| ((i + 1) * ONE) as u64)
}

/// No more levels are reached than there are thresholds.
pub proof fn lemma_reached_bound(levels: Seq<u64>, value: int)
    ensures
        reached(levels, value) <= levels.len(),
    decreases levels.len(),
{
    if levels.len() > 0 {
        lemma_reached_bound(levels.drop_last(), value);
    }
}

/// A brighter radiance is displayed at least as bright.
pub proof fn lemma_reached_monotonic(levels: Seq<u64>, low: int, high: int)
    requires
        low <= high,
    ensures
        reached(levels, low) <= reached(levels, high),
    decreases levels.len(),
{
    if levels.len() > 0 {
        lemma_reached_monotonic(levels.drop_last(), low, high);
    }
}

/// Under the linear curve a radiance is displayed as its integer part, at
/// most the highest level.
pub proof fn lemma_linear_level(value: u64)
    ensures
        reached(linear_levels(), value as int) == if value / ONE > LEVELS {
            LEVELS as int
        } else {
            (value / ONE) as int
        },
{
    lemma_linear_prefix(value, LEVELS as int);
    assert(linear_levels().take(LEVELS as int) =~= linear_levels());
}

proof fn lemma_linear_prefix(value: u64, n: int)
    requires
        0 <= n <= LEVELS,
    ensures
        reached(linear_levels().take(n), value as int) == if value / ONE > n {
            n
        } else {
            (value / ONE) as int
        },
    decreases n,
{
    let prefix = linear_levels().take(n);
    if n > 0 {
        lemma_linear_prefix(value, n - 1);
        assert(prefix.drop_last() =~= linear_levels().take(n - 1));
    }
}

/// A tone curve: for each display level above black, the least radiance
/// that is displayed at that level or brighter.
///
/// For a gamma `g` the threshold of level `k` is `255 * (k / 255)` to the
/// power `g`; the curve then displays a radiance `v` as the integer part of
/// `255 * min((v / 255)` to the power `1 / g, 1)`.
pub struct ToneCurve {
    levels: Vec<u64>,
}

impl View for ToneCurve {
    type V = Seq<u64>;

    closed spec fn view(&self) -> Seq<u64> {
        self.levels@
    }
}

impl ToneCurve {
    pub open spec fn wf(&self) -> bool {
        self@.len() == LEVELS
    }

    /// Makes a curve of the given thresholds, one per level above black.
    pub fn new(levels: Vec<u64>) -> (curve: Option<ToneCurve>)
        ensures
            match curve {
                Some(c) => levels@.len() == LEVELS && c@ == levels@ && c.wf(),
                None => levels@.len() != LEVELS,
            },
    {
        if levels.len() == LEVELS {
            Some(ToneCurve { levels })
        } else {
            None
        }
    }

    /// The curve of gamma one.
    pub fn linear() -> (curve: ToneCurve)
        ensures
            curve.wf(),
            curve@ == linear_levels(),
    {
        let mut levels: Vec<u64> = Vec::new();
        let mut k: usize = 0;
        while k < LEVELS
            invariant
                k <= LEVELS,
                levels@.len() == k,
                forall|i: int| 0 <= i < k ==> levels@[i] == ((i + 1) * ONE) as u64,
            decreases LEVELS - k,
        {
            levels.push((k as u64 + 1) * ONE);
            k = k + 1;
        }
        ToneCurve { levels }
    }

    /// The display level of a radiance.
    pub fn level(&self, value: u64) -> (shade: u8)
        requires
            self.wf(),
        ensures
            shade == reached(self@, value as int),
    {
        let mut shade: u8 = 0;
        let mut k: usize = 0;
        while k < LEVELS
            invariant
                k <= LEVELS,
                self.levels@.len() == LEVELS,
                shade == reached(self.levels@.take(k as int), value as int),
                shade <= k,
            decreases LEVELS - k,
        {
            assert(self.levels@.take(k as int + 1).drop_last() =~= self.levels@.take(k as int));
            if self.levels[k] <= value {
                shade = shade + 1;
            }
            k = k + 1;
        }
        assert(self.levels@.take(k as int) =~= self.levels@);
        shade
    }
}

/// What a pixel has gathered, as mathematical integers.
pub struct Exposure {
    pub red: int,
    pub green: int,
    pub blue: int,
    pub count: int,
}

impl Exposure {
    /// A pixel that has gathered nothing.
    pub open spec fn empty() -> Exposure {
        Exposure { red: 0, green: 0, blue: 0, count: 0 }
    }

    /// The exposure after one more sample.
    pub open spec fn plus(self, sample: Color) -> Exposure {
        Exposure {
            red: self.red + sample.r,
            green: self.green + sample.g,
            blue: self.blue + sample.b,
            count: self.count + 1,
        }
    }

    /// The exposure after the given samples, one after the other.
    pub open spec fn plus_all(self, samples: Seq<Color>) -> Exposure {
        samples.fold_left(self, |e: Exposure, sample: Color| e.plus(sample))
    }

    /// Whether the sums are those of `count` samples.
    pub open spec fn wf(self) -> bool {
        &&& 0 <= self.count
        &&& 0 <= self.red <= self.count * u64::MAX
        &&& 0 <= self.green <= self.count * u64::MAX
        &&& 0 <= self.blue <= self.count * u64::MAX
    }

    /// The mean radiance, rounded down; black before the first sample.
    pub open spec fn mean(self) -> Color {
        if self.count <= 0 {
            Color::dark()
        } else {
            Color {
                r: (self.red / self.count) as u64,
                g: (self.green / self.count) as u64,
                b: (self.blue / self.count) as u64,
            }
        }
    }

    /// The mean radiance as displayed under a tone curve, each channel
    /// by itself.
    pub open spec fn shown(self, levels: Seq<u64>) -> Rgb {
        Rgb {
            r: reached(levels, self.mean().r as int) as u8,
            g: reached(levels, self.mean().g as int) as u8,
            b: reached(levels, self.mean().b as int) as u8,
        }
    }
}

/// Adding samples one after the other adds their number to the count and
/// never lowers a sum.
pub proof fn lemma_exposure_grows(start: Exposure, samples: Seq<Color>)
    requires
        start.wf(),
    ensures
        start.plus_all(samples).wf(),
        start.plus_all(samples).count == start.count + samples.len(),
        start.plus_all(samples).red >= start.red,
        start.plus_all(samples).green >= start.green,
        start.plus_all(samples).blue >= start.blue,
    decreases samples.len(),
{
    if samples.len() > 0 {
        lemma_exposure_grows(start, samples.drop_last());
        let before = start.plus_all(samples.drop_last());
        assert((before.count + 1) * u64::MAX == before.count * u64::MAX + u64::MAX)
            by (nonlinear_arith);
    }
}

/// The order in which samples arrive does not matter: two sequences that
/// hold the same samples, each as often as the other, leave the same sums
/// and the same count.
pub proof fn lemma_exposure_order(start: Exposure, first: Seq<Color>, second: Seq<Color>)
    requires
        first.to_multiset() == second.to_multiset(),
    ensures
        start.plus_all(first) == start.plus_all(second),
{
    let step = |e: Exposure, sample: Color| e.plus(sample);
    vstd::seq_lib::lemma_fold_left_permutation(first, second, step, start);
}

/// Adding the samples of two batches one batch after the other is adding
/// all of them at once.
pub proof fn lemma_exposure_batches(start: Exposure, first: Seq<Color>, second: Seq<Color>)
    ensures
        start.plus_all(first).plus_all(second) == start.plus_all(first + second),
    decreases second.len(),
{
    if second.len() > 0 {
        lemma_exposure_batches(start, first, second.drop_last());
        assert((first + second).drop_last() =~= first + second.drop_last());
    }
}

/// What one pixel has gathered: the sum of its samples per channel, and
/// their number.
#[derive(Clone, Copy, Debug, PartialEq, Eq, Structural)]
pub struct PixelInfo {
    pub red: u128,
    pub green: u128,
    pub blue: u128,
    pub exposures: u32,
}

impl View for PixelInfo {
    type V = Exposure;

    open spec fn view(&self) -> Exposure {
        Exposure {
            red: self.red as int,
            green: self.green as int,
            blue: self.blue as int,
            count: self.exposures as int,
        }
    }
}

impl PixelInfo {
    pub open spec fn wf(self) -> bool {
        self@.wf()
    }

    /// A pixel that has gathered nothing.
    pub fn new() -> (info: PixelInfo)
        ensures
            info@ == Exposure::empty(),
            info.wf(),
    {
        PixelInfo { red: 0, green: 0, blue: 0, exposures: 0 }
    }

    /// Adds one sample.
    pub fn add(&mut self, sample: Color)
        requires
            old(self).wf(),
            old(self).exposures < u32::MAX,
        ensures
            final(self)@ == old(self)@.plus(sample),
            final(self).wf(),
    {
        proof {
            let count = self.exposures as int;
            assert((count + 1) * u64::MAX == count * u64::MAX + u64::MAX) by (nonlinear_arith);
        }
        self.red = self.red + sample.r as u128;
        self.green = self.green + sample.g as u128;
        self.blue = self.blue + sample.b as u128;
        self.exposures = self.exposures + 1;
    }

    /// The mean of the samples.
    pub fn mean(&self) -> (mean: Color)
        requires
            self.wf(),
        ensures
            mean == self@.mean(),
    {
        if self.exposures == 0 {
            Color::black()
        } else {
            let count: u128 = self.exposures as u128;
            Color {
                r: (self.red / count) as u64,
                g: (self.green / count) as u64,
                b: (self.blue / count) as u64,
            }
        }
    }

    /// The mean of the samples as displayed.
    pub fn color(&self, curve: &ToneCurve) -> (shown: Rgb)
        requires
            self.wf(),
            curve.wf(),
        ensures
            shown == self@.shown(curve@),
    {
        let mean = self.mean();
        Rgb { r: curve.level(mean.r), g: curve.level(mean.g), b: curve.level(mean.b) }
    }
}

/// The exposure buffer: one `PixelInfo` per pixel, row by row, and the tone
/// curve under which they are displayed.
pub struct Exposures {
    pixels: Vec<PixelInfo>,
    curve: ToneCurve,
}

impl View for Exposures {
    type V = Seq<Exposure>;

    closed spec fn view(&self) -> Seq<Exposure> {
        self.pixels@.map_values(|info: PixelInfo| info@)
    }
}

impl Exposures {
    /// The thresholds of the tone curve.
    pub closed spec fn levels(&self) -> Seq<u64> {
        self.curve@
    }

    pub closed spec fn wf(&self) -> bool {
        &&& self.curve.wf()
        &&& forall|i: int| 0 <= i < self.pixels@.len() ==> (#[trigger] self.pixels@[i]).wf()
    }

    /// Every pixel of a well-formed buffer holds the sums of its samples.
    pub proof fn lemma_pixels_wf(&self)
        requires
            self.wf(),
        ensures
            self.levels().len() == LEVELS,
            forall|i: int| 0 <= i < self@.len() ==> (#[trigger] self@[i]).wf(),
    {
    }

    /// A buffer of `length` pixels that have gathered nothing.
    pub fn new(length: usize, curve: ToneCurve) -> (buffer: Exposures)
        requires
            curve.wf(),
        ensures
            buffer.wf(),
            buffer@ == Seq::new(length as nat, |i: int| Exposure::empty()),
            buffer.levels() == curve@,
    {
        let mut pixels: Vec<PixelInfo> = Vec::new();
        let mut i: usize = 0;
        while i < length
            invariant
                i <= length,
                pixels@.len() == i,
                forall|j: int| 0 <= j < i ==> (#[trigger] pixels@[j])@ == Exposure::empty(),
            decreases length - i,
        {
            pixels.push(PixelInfo::new());
            i = i + 1;
        }
        let buffer = Exposures { pixels, curve };
        buffer
    }

    /// The number of pixels.
    pub fn len(&self) -> (length: usize)
        ensures
            length == self@.len(),
    {
        self.pixels.len()
    }

    /// The number of samples that a pixel has gathered.
    pub fn count_at(&self, position: usize) -> (count: u32)
        requires
            position < self@.len(),
        ensures
            count == self@[position as int].count,
    {
        self.pixels[position].exposures
    }

    /// Adds one sample to a pixel. Nothing else changes.
    pub fn add_sample(&mut self, position: usize, sample: Color)
        requires
            old(self).wf(),
            position < old(self)@.len(),
            old(self)@[position as int].count < u32::MAX,
        ensures
            final(self).wf(),
            final(self).levels() == old(self).levels(),
            final(self)@ == old(self)@.update(
                position as int,
                old(self)@[position as int].plus(sample),
            ),
    {
        let mut info = self.pixels[position];
        info.add(sample);
        self.pixels[position] = info;
    }

    /// The colour that a pixel displays: the mean of its samples under the
    /// tone curve.
    pub fn color_at(&self, position: usize) -> (shown: Rgb)
        requires
            self.wf(),
            position < self@.len(),
        ensures
            shown == self@[position as int].shown(self.levels()),
    {
        self.pixels[position].color(&self.curve)
    }
}

} // verus!
