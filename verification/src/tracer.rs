//! Progressive sampling.
//!
//! The tracer visits the pixels row by row, again and again. On the sweep
//! numbered `n`, counting from one, every visit draws `n` samples, so every
//! pixel gets at least one sample per sweep and the image converges faster
//! as time goes by. `update` makes visits for as long as the time budget of
//! the host lasts. Whenever it returns, every pixel holds whole samples
//! only, and the next call resumes where this one stopped.
//!
//! The tracer knows neither the scene nor the clock: the host passes a
//! function that samples the radiance of a pixel and a function that reads
//! the time spent.

use crate::color::Color;
use crate::exposure::{lemma_exposure_grows, Exposure, Exposures, Rgb, ToneCurve};
use crate::path::Path;
use vstd::prelude::*;

verus! {

/// The coordinates of a pixel, the origin at the top left.
#[derive(Clone, Copy, Debug, PartialEq, Eq, Structural)]
pub struct Pixel {
    pub x: usize,
    pub y: usize,
}

/// The number of samples that a pixel has gathered after the given number
/// of whole sweeps: one on the first, two on the second, and so on.
pub open spec fn samples_after(sweeps: nat) -> nat
    decreases sweeps,
{
    if sweeps == 0 {
        0
    } else {
        samples_after((sweeps - 1) as nat) + sweeps
    }
}

/// The number of samples that the pixel at `position` has gathered when the
/// cursor stands at `cursor`, in an image of `size` pixels.
pub open spec fn samples_due(cursor: nat, size: nat, position: nat) -> nat {
    samples_after(cursor / size) + if position < cursor % size {
        cursor / size + 1
    } else {
        0
    }
}

/// The output buffer after the pixel at `position` was painted: its four
/// bytes hold red, green, blue and full opacity, and no other byte changed.
pub open spec fn painted(buffer: Seq<u8>, position: int, color: Rgb) -> Seq<u8> {
    buffer.update(4 * position, color.r).update(4 * position + 1, color.g).update(
        4 * position + 2,
        color.b,
    ).update(4 * position + 3, 255u8)
}

/// Whether every one of the samples is a possible result of sampling the
/// pixel.
pub open spec fn drawn_at<F: Fn(usize, usize) -> Color>(
    sample: F,
    pixel: Pixel,
    samples: Seq<Color>,
) -> bool {
    forall|i: int|
        0 <= i < samples.len() ==> call_ensures(sample, (pixel.x, pixel.y), #[trigger] samples[i])
}

/// What a visit changes: what the pixels have gathered, the cursor, and the
/// output buffer.
pub struct Frame {
    pub film: Seq<Exposure>,
    pub cursor: nat,
    pub buffer: Seq<u8>,
}

/// The frame after the visit that is due, where the visit drew the given
/// samples: they are added to what the pixel had gathered, the pixel is
/// painted in the colour of its new mean, and the cursor moves on by one.
pub open spec fn visited(before: Frame, size: nat, levels: Seq<u64>, drawn: Seq<Color>) -> Frame {
    let position = (before.cursor % size) as int;
    let gathered = before.film[position].plus_all(drawn);
    Frame {
        film: before.film.update(position, gathered),
        cursor: before.cursor + 1,
        buffer: painted(before.buffer, position, gathered.shown(levels)),
    }
}

/// The progressive sampler: the size of the image, the bounce limit, the
/// exposure buffer and the cursor.
pub struct Tracer {
    bounces: u32,
    width: usize,
    height: usize,
    exposures: Exposures,
    index: usize,
}

impl Tracer {
    /// The largest number of surfaces that a light path may meet.
    pub closed spec fn bounce_limit(&self) -> u32 {
        self.bounces
    }

    pub closed spec fn columns(&self) -> nat {
        self.width as nat
    }

    pub closed spec fn rows(&self) -> nat {
        self.height as nat
    }

    /// The number of visits made so far.
    pub closed spec fn cursor(&self) -> nat {
        self.index as nat
    }

    /// What every pixel has gathered, row by row.
    pub closed spec fn film(&self) -> Seq<Exposure> {
        self.exposures@
    }

    /// The thresholds of the tone curve.
    pub closed spec fn levels(&self) -> Seq<u64> {
        self.exposures.levels()
    }

    /// The number of pixels.
    pub open spec fn size(&self) -> nat {
        self.columns() * self.rows()
    }

    /// The number of whole sweeps made so far.
    pub open spec fn sweep(&self) -> nat {
        self.cursor() / self.size()
    }

    /// The place in the buffer of the pixel that is visited next.
    pub open spec fn position(&self) -> nat {
        self.cursor() % self.size()
    }

    /// The pixel that is visited next.
    pub open spec fn pixel(&self) -> Pixel {
        Pixel {
            x: (self.position() % self.columns()) as usize,
            y: (self.position() / self.columns()) as usize,
        }
    }

    /// The number of samples that the next visit draws.
    pub open spec fn pass_count(&self) -> nat {
        self.sweep() + 1
    }

    /// The state of the tracer together with an output buffer.
    pub open spec fn frame(&self, buffer: Seq<u8>) -> Frame {
        Frame { film: self.film(), cursor: self.cursor(), buffer }
    }

    /// Whether one visit leads from `before` to `after`, drawing the given
    /// samples: as many as are due on the sweep, each a possible result of
    /// sampling the pixel that is due.
    pub open spec fn is_visit<F: Fn(usize, usize) -> Color>(
        &self,
        sample: F,
        before: Frame,
        drawn: Seq<Color>,
        after: Frame,
    ) -> bool {
        let position = before.cursor % self.size();
        let pixel = Pixel {
            x: (position % self.columns()) as usize,
            y: (position / self.columns()) as usize,
        };
        &&& drawn.len() == before.cursor / self.size() + 1
        &&& drawn_at(sample, pixel, drawn)
        &&& after == visited(before, self.size(), self.levels(), drawn)
    }

    /// Whether the given number of visits, one after the other, lead from
    /// `before` to `after`.
    pub open spec fn is_render<F: Fn(usize, usize) -> Color>(
        &self,
        sample: F,
        before: Frame,
        after: Frame,
        visits: nat,
    ) -> bool
        decreases visits,
    {
        if visits == 0 {
            after == before
        } else {
            exists|middle: Frame, drawn: Seq<Color>|
                {
                    &&& self.is_render(sample, before, middle, (visits - 1) as nat)
                    &&& #[trigger] self.is_visit(sample, middle, drawn, after)
                }
        }
    }

    /// Whether the counters can take one more visit.
    pub open spec fn has_room(&self) -> bool {
        &&& self.cursor() < usize::MAX
        &&& samples_after(self.sweep() + 1) <= u32::MAX
    }

    /// The buffer has one entry per pixel, its four bytes per pixel can be
    /// indexed, and every pixel has gathered just what the schedule gave
    /// it.
    pub closed spec fn wf(&self) -> bool {
        &&& self.exposures.wf()
        &&& self.exposures@.len() == self.width * self.height
        &&& 4 * (self.width * self.height) <= usize::MAX
        &&& self.width * self.height > 0 ==> forall|p: int|
            0 <= p < self.exposures@.len() ==> (#[trigger] self.exposures@[p]).count
                == samples_due(self.index as nat, (self.width * self.height) as nat, p as nat)
    }

    /// What well-formedness says of the buffer: its size, and the number
    /// of samples in every pixel.
    pub proof fn lemma_schedule(&self)
        requires
            self.wf(),
        ensures
            self.film().len() == self.size(),
            4 * self.size() <= usize::MAX,
            self.levels().len() == crate::exposure::LEVELS,
            forall|p: int| 0 <= p < self.size() ==> (#[trigger] self.film()[p]).wf(),
            self.size() > 0 ==> forall|p: int|
                0 <= p < self.size() ==> (#[trigger] self.film()[p]).count == samples_due(
                    self.cursor(),
                    self.size(),
                    p as nat,
                ),
    {
        self.exposures.lemma_pixels_wf();
    }

    /// Makes a tracer for an image of `width` by `height` pixels, with an
    /// empty exposure buffer and the cursor on the first pixel.
    pub fn new(bounces: u32, curve: ToneCurve, width: usize, height: usize) -> (tracer: Tracer)
        requires
            curve.wf(),
            4 * (width * height) <= usize::MAX,
        ensures
            tracer.wf(),
            tracer.bounce_limit() == bounces,
            tracer.columns() == width,
            tracer.rows() == height,
            tracer.cursor() == 0,
            tracer.levels() == curve@,
            tracer.film() == Seq::new((width * height) as nat, |i: int| Exposure::empty()),
    {
        let size: usize = width * height;
        let tracer = Tracer {
            bounces,
            width,
            height,
            exposures: Exposures::new(size, curve),
            index: 0,
        };
        proof {
            if size > 0 {
            }
        }
        tracer
    }

    pub fn bounces(&self) -> (limit: u32)
        ensures
            limit == self.bounce_limit(),
    {
        self.bounces
    }

    pub fn width(&self) -> (width: usize)
        ensures
            width == self.columns(),
    {
        self.width
    }

    pub fn height(&self) -> (height: usize)
        ensures
            height == self.rows(),
    {
        self.height
    }

    /// The number of visits made so far.
    pub fn index(&self) -> (index: usize)
        ensures
            index == self.cursor(),
    {
        self.index
    }

    /// Starts a light path that ends at the bounce limit.
    pub fn path(&self, sampling_lights: bool) -> (path: Path)
        ensures
            path == Path::fresh(self.bounce_limit(), sampling_lights),
            path.wf(),
    {
        Path::new(self.bounces, sampling_lights)
    }

    /// The colour that a pixel displays.
    pub fn color_at(&self, position: usize) -> (shown: Rgb)
        requires
            self.wf(),
            position < self.size(),
        ensures
            shown == self.film()[position as int].shown(self.levels()),
    {
        self.exposures.color_at(position)
    }

    /// The number of samples that a pixel has gathered.
    pub fn count_at(&self, position: usize) -> (count: u32)
        requires
            self.wf(),
            position < self.size(),
        ensures
            count == self.film()[position as int].count,
    {
        self.exposures.count_at(position)
    }

    /// The pixel that the visit numbered `index` goes to: the index wraps
    /// around the image, and the pixels are numbered row by row.
    pub fn pixel_for_index(&self, index: usize) -> (pixel: Pixel)
        requires
            self.wf(),
            self.size() > 0,
        ensures
            pixel.x == (index as nat % self.size()) % self.columns(),
            pixel.y == (index as nat % self.size()) / self.columns(),
            pixel.x < self.columns(),
            pixel.y < self.rows(),
            pixel.x + pixel.y * self.columns() == index as nat % self.size(),
    {
        proof {
            lemma_row_and_column(
                index as nat % (self.width * self.height) as nat,
                self.width as nat,
                self.height as nat,
            );
        }
        let wrapped: usize = index % (self.width * self.height);
        Pixel { x: wrapped % self.width, y: wrapped / self.width }
    }

    /// Whether the counters can take one more visit.
    pub fn can_update(&self) -> (room: bool)
        requires
            self.wf(),
            self.size() > 0,
        ensures
            room == self.has_room(),
    {
        let size: usize = self.width * self.height;
        let position: usize = self.index % size;
        let count: u32 = self.exposures.count_at(position);
        self.index < usize::MAX && self.index / size < (u32::MAX - count) as usize
    }

    /// Draws `limit` samples of a pixel and adds them to what the pixel has
    /// gathered.
    fn expose<F: Fn(usize, usize) -> Color>(
        &mut self,
        pixel: Pixel,
        limit: usize,
        sample: &F,
    ) -> (drawn: Ghost<Seq<Color>>)
        requires
            old(self).exposures.wf(),
            pixel.x < old(self).width,
            pixel.y < old(self).height,
            4 * (old(self).width * old(self).height) <= usize::MAX,
            old(self).exposures@.len() == old(self).width * old(self).height,
            old(self).exposures@[pixel.x + pixel.y * old(self).width].count + limit <= u32::MAX,
            call_requires(*sample, (pixel.x, pixel.y)),
        ensures
            final(self).exposures.wf(),
            final(self).bounces == old(self).bounces,
            final(self).width == old(self).width,
            final(self).height == old(self).height,
            final(self).index == old(self).index,
            final(self).exposures.levels() == old(self).exposures.levels(),
            drawn@.len() == limit,
            drawn_at(*sample, pixel, drawn@),
            final(self).exposures@ == old(self).exposures@.update(
                pixel.x + pixel.y * old(self).width,
                old(self).exposures@[pixel.x + pixel.y * old(self).width].plus_all(drawn@),
            ),
    {
        proof {
            assert(pixel.x + pixel.y * self.width < self.width * self.height) by (nonlinear_arith)
                requires
                    pixel.x < self.width,
                    pixel.y < self.height,
            ;
        }
        let rgba_index: usize = pixel.x + pixel.y * self.width;
        let ghost start = self.exposures@[rgba_index as int];
        let ghost mut drawn: Seq<Color> = Seq::empty();
        proof {
            self.exposures.lemma_pixels_wf();
        }
        let mut taken: usize = 0;
        while taken < limit
            invariant
                taken <= limit,
                self.exposures.wf(),
                self.bounces == old(self).bounces,
                self.width == old(self).width,
                self.height == old(self).height,
                self.index == old(self).index,
                self.exposures.levels() == old(self).exposures.levels(),
                rgba_index == pixel.x + pixel.y * self.width,
                rgba_index < old(self).exposures@.len(),
                start == old(self).exposures@[rgba_index as int],
                start.wf(),
                start.count + limit <= u32::MAX,
                call_requires(*sample, (pixel.x, pixel.y)),
                drawn.len() == taken,
                drawn_at(*sample, pixel, drawn),
                self.exposures@ == old(self).exposures@.update(
                    rgba_index as int,
                    start.plus_all(drawn),
                ),
            decreases limit - taken,
        {
            proof {
                lemma_exposure_grows(start, drawn);
            }
            let radiance = sample(pixel.x, pixel.y);
            self.exposures.add_sample(rgba_index, radiance);
            proof {
                assert(drawn.push(radiance).drop_last() =~= drawn);
                drawn = drawn.push(radiance);
            }
            taken = taken + 1;
        }
        Ghost(drawn)
    }

    /// Makes one visit: draws the samples that are due for the next pixel,
    /// adds them to what the pixel has gathered, paints the pixel's new
    /// colour into the output buffer, and moves the cursor on.
    ///
    /// `sample` traces one light path through the pixel at the given column
    /// and row and returns its radiance; every call draws fresh randomness.
    /// The output buffer holds four bytes per pixel, row by row.
    pub fn visit<F: Fn(usize, usize) -> Color>(&mut self, pixels: &mut [u8], sample: &F)
        requires
            old(self).wf(),
            old(self).size() > 0,
            old(self).has_room(),
            old(pixels)@.len() == 4 * old(self).size(),
            forall|x: usize, y: usize|
                x < old(self).columns() && y < old(self).rows() ==> call_requires(*sample, (x, y)),
        ensures
            final(self).wf(),
            final(self).bounce_limit() == old(self).bounce_limit(),
            final(self).columns() == old(self).columns(),
            final(self).rows() == old(self).rows(),
            final(self).levels() == old(self).levels(),
            final(pixels)@.len() == old(pixels)@.len(),
            exists|drawn: Seq<Color>|
                #[trigger] old(self).is_visit(
                    *sample,
                    old(self).frame(old(pixels)@),
                    drawn,
                    final(self).frame(final(pixels)@),
                ),
    {
        let size: usize = self.width * self.height;
        let limit: usize = (self.index / size) + 1;
        let pixel = self.pixel_for_index(self.index);
        let position: usize = pixel.x + pixel.y * self.width;
        let drawn = self.expose(pixel, limit, sample);

        let color = self.exposures.color_at(position);
        let index: usize = position * 4;
        pixels[index] = color.r;
        pixels[index + 1] = color.g;
        pixels[index + 2] = color.b;
        pixels[index + 3] = 255;

        self.index = self.index + 1;
        proof {
            let start = old(self).exposures@[position as int];
            old(self).exposures.lemma_pixels_wf();
            lemma_exposure_grows(start, drawn@);
            lemma_next_visit(old(self).index as nat, size as nat);
            assert(forall|p: int|
                0 <= p < self.exposures@.len() ==> (#[trigger] self.exposures@[p]).count
                    == samples_due(self.index as nat, size as nat, p as nat));
            let before = old(self).frame(old(pixels)@);
            let after = self.frame(pixels@);
            assert(old(self).is_visit(*sample, before, drawn@, after));
        }
    }

    /// Renders for as long as the time budget lasts.
    ///
    /// Before every visit the clock `elapsed` is read. The visit is made
    /// where the reading lies below `time_budget`; otherwise the call
    /// returns. It also returns where the counters can take no further
    /// visit, and at once for an image without pixels. The result is the
    /// number of visits made. Whenever the call returns, every pixel holds
    /// whole samples only, and the next call resumes at the cursor.
    pub fn update<C: Fn() -> u64, F: Fn(usize, usize) -> Color>(
        &mut self,
        pixels: &mut [u8],
        time_budget: u64,
        elapsed: C,
        sample: F,
    ) -> (visits: usize)
        requires
            old(self).wf(),
            old(pixels)@.len() == 4 * old(self).size(),
            call_requires(elapsed, ()),
            forall|x: usize, y: usize|
                x < old(self).columns() && y < old(self).rows() ==> call_requires(sample, (x, y)),
        ensures
            final(self).wf(),
            final(self).bounce_limit() == old(self).bounce_limit(),
            final(self).columns() == old(self).columns(),
            final(self).rows() == old(self).rows(),
            final(self).levels() == old(self).levels(),
            old(self).is_render(
                sample,
                old(self).frame(old(pixels)@),
                final(self).frame(final(pixels)@),
                visits as nat,
            ),
            visits > 0 ==> old(self).size() > 0 && exists|spent: u64|
                #[trigger] call_ensures(elapsed, (), spent) && spent < time_budget,
            old(self).size() > 0 ==> !final(self).has_room() || exists|spent: u64|
                #[trigger] call_ensures(elapsed, (), spent) && spent >= time_budget,
    {
        let mut visits: usize = 0;
        if self.width * self.height == 0 {
            return visits;
        }
        let ghost start = self.frame(pixels@);
        loop
            invariant_except_break
                visits > 0 ==> exists|spent: u64|
                    #[trigger] call_ensures(elapsed, (), spent) && spent < time_budget,
            invariant
                self.wf(),
                self.size() > 0,
                self.bounce_limit() == old(self).bounce_limit(),
                self.columns() == old(self).columns(),
                self.rows() == old(self).rows(),
                self.levels() == old(self).levels(),
                pixels@.len() == 4 * self.size(),
                call_requires(elapsed, ()),
                forall|x: usize, y: usize|
                    x < self.columns() && y < self.rows() ==> call_requires(sample, (x, y)),
                start == old(self).frame(old(pixels)@),
                visits <= self.index,
                old(self).is_render(sample, start, self.frame(pixels@), visits as nat),
            ensures
                visits > 0 ==> exists|spent: u64|
                    #[trigger] call_ensures(elapsed, (), spent) && spent < time_budget,
                !self.has_room() || exists|spent: u64|
                    #[trigger] call_ensures(elapsed, (), spent) && spent >= time_budget,
            decreases usize::MAX - self.index,
        {
            if !self.can_update() {
                break ;
            }
            let spent: u64 = elapsed();
            if spent >= time_budget {
                break ;
            }
            let ghost visitor = *self;
            let ghost middle = self.frame(pixels@);
            self.visit(pixels, &sample);
            proof {
                let after = self.frame(pixels@);
                let drawn = choose|drawn: Seq<Color>|
                    #[trigger] visitor.is_visit(sample, middle, drawn, after);
                assert(old(self).is_visit(sample, middle, drawn, after));
            }
            visits = visits + 1;
        }
        visits
    }
}

/// After `sweeps` whole sweeps a pixel has gathered one sample for the
/// first, two for the second, and so on: half of `sweeps * (sweeps + 1)`.
pub proof fn lemma_samples_after(sweeps: nat)
    ensures
        2 * samples_after(sweeps) == sweeps * (sweeps + 1),
    decreases sweeps,
{
    if sweeps == 0 {
    } else {
        let before = (sweeps - 1) as nat;
        lemma_samples_after(before);
        assert(before * (before + 1) + 2 * sweeps == sweeps * (sweeps + 1)) by (nonlinear_arith)
            requires
                before + 1 == sweeps,
        ;
    }
}

/// A place in the buffer splits into a row and a column.
proof fn lemma_row_and_column(position: nat, width: nat, height: nat)
    requires
        width > 0,
        position < width * height,
    ensures
        position % width < width,
        position / width < height,
        position % width + (position / width) * width == position,
{
    vstd::arithmetic::div_mod::lemma_fundamental_div_mod(position as int, width as int);
    let row = position as int / width as int;
    let column = position as int % width as int;
    assert(row < height) by (nonlinear_arith)
        requires
            position == width * row + column,
            0 <= column,
            position < width * height,
            width > 0,
    ;
    assert(row * width == width * row) by (nonlinear_arith);
}

/// Moving the cursor on by one either stays in the sweep and moves to the
/// next pixel, or ends the sweep and returns to the first pixel.
proof fn lemma_next_visit(cursor: nat, size: nat)
    requires
        size > 0,
    ensures
        cursor % size + 1 < size ==> (cursor + 1) / size == cursor / size && (cursor + 1) % size
            == cursor % size + 1,
        cursor % size + 1 >= size ==> (cursor + 1) / size == cursor / size + 1 && (cursor + 1)
            % size == 0 && cursor % size == size - 1,
{
    let c = cursor as int;
    let s = size as int;
    vstd::arithmetic::div_mod::lemma_fundamental_div_mod(c, s);
    let q = c / s;
    let r = c % s;
    assert(q * s == s * q) by (nonlinear_arith);
    if r + 1 < s {
        vstd::arithmetic::div_mod::lemma_fundamental_div_mod_converse(c + 1, s, q, r + 1);
    } else {
        assert((q + 1) * s == q * s + s) by (nonlinear_arith);
        vstd::arithmetic::div_mod::lemma_fundamental_div_mod_converse(c + 1, s, q + 1, 0);
    }
}

} // verus!
