use vstd::prelude::*;
use crate::effect::{dark_frame, min_nat, stream, BitSource, EffectIterator};
use crate::pixel::RGB8;

verus! {

/// `3 * x`, held at 255.
pub open spec fn ramp(x: int) -> u8 {
    if 3 * x >= 255 { 255 } else { (3 * x) as u8 }
}

/// The colour of one cell of heat.
pub open spec fn heat_colour(h: u8) -> RGB8 {
    if h >= 0x85 {
        RGB8 { r: 255, g: 255, b: ramp(h - 0x85) }
    } else if h >= 0x40 {
        RGB8 { r: 255, g: ramp(h - 0x40), b: 0 }
    } else {
        RGB8 { r: ramp(h as int), g: 0, b: 0 }
    }
}

/// `3 * x`, held at 255.
fn triple(x: u8) -> (r: u8)
    ensures
        r == ramp(x as int),
{
    if x >= 85 { 255 } else { 3 * x }
}

/// Maps one cell of heat to its colour: black through red and yellow to white.
pub fn heat_to_colour(val: u8) -> (c: RGB8)
    ensures
        c == heat_colour(val),
{
    if val >= 0x85 {
        RGB8 { r: 255, g: 255, b: triple(val - 0x85) }
    } else if val >= 0x40 {
        RGB8 { r: 255, g: triple(val - 0x40), b: 0 }
    } else {
        RGB8 { r: triple(val), g: 0, b: 0 }
    }
}


/// `a - b`, held at 0.
pub open spec fn sat_sub(a: u8, b: u8) -> u8 {
    if a >= b { (a - b) as u8 } else { 0 }
}

/// `a + b`, held at 255.
pub open spec fn sat_add(a: u8, b: u8) -> u8 {
    if a + b >= 255 { 255 } else { (a + b) as u8 }
}

/// The heat a frame may take from each cell for a strip of `n` cells:
/// `base * 10 / n + 2`, held at 255 (and 255 for an empty strip).
pub open spec fn cooling_for(base: u8, n: nat) -> u8 {
    if n == 0 || (base as nat) * 10 / n + 2 >= 255 {
        255
    } else {
        ((base as nat) * 10 / n + 2) as u8
    }
}

/// One cell after cooling by the draw `d`: it loses `d % cooling`, held at 0.
pub open spec fn cooled_cell(h: u8, d: u32, cooling: u8) -> u8
    recommends
        cooling > 0,
{
    sat_sub(h, (d % (cooling as u32)) as u8)
}

/// Every cell cooled by its own draw, cell `i` by `d[i]`.
pub open spec fn cooled(heat: Seq<u8>, d: Seq<u32>, cooling: u8) -> Seq<u8> {
    Seq::new(heat.len(), |i: int| cooled_cell(heat[i], d[i], cooling))
}

/// The heat that drifts into a cell from its two lower neighbours `a` (one
/// below) and `b` (two below): `(a + 2 * b) / 3`, at most 255.
pub open spec fn drift(a: u8, b: u8) -> u8 {
    ((a + 2 * b) / 3) as u8
}

/// Diffusion: every cell from index 2 up takes the drift of its two lower
/// neighbours as they were before the pass; cells 0 and 1 keep their heat.
pub open spec fn diffused(heat: Seq<u8>) -> Seq<u8> {
    Seq::new(heat.len(), |i: int| if i < 2 { heat[i] } else { drift(heat[i - 1], heat[i - 2]) })
}

/// Whether the draw `d` lights a spark, with chance `sparking / 255`.
pub open spec fn sparks(d: u32, sparking: u8) -> bool {
    d % 255 < sparking
}

/// The cell that a spark lands on: one of the lowest seventh of the strip.
pub open spec fn spark_pos(d: u32, n: nat) -> nat {
    (d as nat) % ((if n == 0 { 1 } else { n }) / 7 + 1)
}

/// The heat a spark adds: 160 up to 254.
pub open spec fn spark_heat(d: u32) -> u8 {
    (160 + d % 95) as u8
}

/// The heat after a spark placed by `pos_draw` with the amount of `heat_draw`.
pub open spec fn with_spark(heat: Seq<u8>, pos_draw: u32, heat_draw: u32) -> Seq<u8> {
    let y = spark_pos(pos_draw, heat.len());
    if y < heat.len() {
        heat.update(y as int, sat_add(heat[y as int], spark_heat(heat_draw)))
    } else {
        heat
    }
}

/// One frame of the fire on `heat`, with the draws `d` in the order they are
/// taken: one per cell for cooling, then the spark test, then the spark's
/// cell and amount (these last two are drawn only when a spark is lit).
pub open spec fn fire_frame(heat: Seq<u8>, d: Seq<u32>, cooling: u8, sparking: u8) -> Seq<u8> {
    let n = heat.len() as int;
    let h = diffused(cooled(heat, d, cooling));
    if sparks(d[n], sparking) {
        with_spark(h, d[n + 1int], d[n + 2int])
    } else {
        h
    }
}

/// How many draws a frame on `n` cells takes when its spark test draw is `t`.
pub open spec fn frame_draws(n: nat, t: u32, sparking: u8) -> nat {
    if sparks(t, sparking) { n + 3 } else { n + 1 }
}

/// The colours of a heat array.
pub open spec fn heat_colours(heat: Seq<u8>) -> Seq<RGB8> {
    heat.map_values(|h: u8| heat_colour(h))
}

/// The heat after a run of frames, frame `k` drawing `runs[k]`.
pub open spec fn fire_run(heat: Seq<u8>, runs: Seq<Seq<u32>>, cooling: u8, sparking: u8) -> Seq<u8>
    decreases runs.len(),
{
    if runs.len() == 0 {
        heat
    } else {
        fire_frame(
            fire_run(heat, runs.drop_last(), cooling, sparking),
            runs.last(),
            cooling,
            sparking,
        )
    }
}

/// Over any run of frames and whatever the draws, the strip keeps its
/// length and every cell's heat stays within 0 to 255: cooling and sparks
/// saturate, and the drift of two cells never exceeds 255, so it is taken
/// exactly.
pub proof fn lemma_fire_heat_bounded(heat: Seq<u8>, runs: Seq<Seq<u32>>, cooling: u8, sparking: u8)
    ensures
        forall|a: u8, b: u8| #[trigger] drift(a, b) as int == (a + 2 * b) / 3,
        fire_run(heat, runs, cooling, sparking).len() == heat.len(),
        forall|i: int|
            0 <= i < heat.len() ==> 0 <= #[trigger] fire_run(heat, runs, cooling, sparking)[i] <= 255,
    decreases runs.len(),
{
    if runs.len() > 0 {
        lemma_fire_heat_bounded(heat, runs.drop_last(), cooling, sparking);
    }
}

/// A frame depends on the draws it takes and on nothing else: two draw
/// sequences that agree on the words the frame takes give the same heat
/// and the same colours.
pub proof fn lemma_fire_deterministic(
    heat: Seq<u8>,
    d1: Seq<u32>,
    d2: Seq<u32>,
    cooling: u8,
    sparking: u8,
)
    requires
        d1.len() == heat.len() + 3,
        d2.len() == heat.len() + 3,
        forall|k: int|
            0 <= k < frame_draws(heat.len(), d1[heat.len() as int], sparking) ==> d1[k] == d2[k],
    ensures
        fire_frame(heat, d1, cooling, sparking) == fire_frame(heat, d2, cooling, sparking),
        heat_colours(fire_frame(heat, d1, cooling, sparking)) == heat_colours(
            fire_frame(heat, d2, cooling, sparking),
        ),
{
    let n = heat.len() as int;
    assert(d1[n] == d2[n]);
    assert(cooled(heat, d1, cooling) =~= cooled(heat, d2, cooling));
    if sparks(d1[n], sparking) {
        assert(d1[n + 1] == d2[n + 1]);
        assert(d1[n + 2] == d2[n + 2]);
    }
}

/// Cools one cell by the draw `d`, as [`cooled_cell`] states.
pub fn cool_cell(h: u8, d: u32, cooling: u8) -> (r: u8)
    requires
        cooling > 0,
    ensures
        r == cooled_cell(h, d, cooling),
{
    let loss = (d % (cooling as u32)) as u8;
    h.saturating_sub(loss)
}

/// Whether the draw `d` lights a spark, as [`sparks`] states.
pub fn spark_test(d: u32, sparking: u8) -> (r: bool)
    ensures
        r == sparks(d, sparking),
{
    ((d % 255) as u8) < sparking
}

/// Diffuses heat upward through the strip, as [`diffused`] states.
pub fn diffuse(heat: &mut Vec<u8>)
    ensures
        final(heat)@ == diffused(old(heat)@),
{
    let ghost before = heat@;
    let n = heat.len();
    let mut i: usize = n;
    while i > 2
        invariant
            2 <= n ==> 2 <= i <= n,
            n < 2 ==> i == n,
            heat@.len() == n,
            before.len() == n,
            forall|j: int| 0 <= j < i ==> heat@[j] == before[j],
            forall|j: int| i <= j < n && j >= 2 ==> heat@[j] == drift(before[j - 1], before[j - 2]),
        decreases i,
    {
        i = i - 1;
        let a = heat[i - 1];
        let b = heat[i - 2];
        heat[i] = ((a as u16 + 2 * (b as u16)) / 3) as u8;
    }
    assert(heat@ =~= diffused(before));
}

/// Adds a spark to the lowest seventh of the strip, as [`with_spark`] states.
pub fn add_spark(heat: &mut Vec<u8>, pos_draw: u32, heat_draw: u32)
    ensures
        final(heat)@ == with_spark(old(heat)@, pos_draw, heat_draw),
{
    let n = heat.len();
    let m: usize = if n == 0 { 1 } else { n };
    let y = (pos_draw as usize) % (m / 7 + 1);
    let add: u8 = 160 + (heat_draw % 95) as u8;
    if y < n {
        let h = heat[y];
        heat[y] = h.saturating_add(add);
    }
}

/// A heat-diffusion fire.
///
/// Each frame cools every cell by a random amount, lets heat drift upward
/// and now and then lights a spark near the base of the strip.
pub struct Fire<const N: usize, R: BitSource> {
    cooling: u8,
    sparking: u8,
    heat: Vec<u8>,
    rng: R,
}

impl<const N: usize, R: BitSource> Fire<N, R> {
    /// The heat of every cell.
    pub closed spec fn heat_view(&self) -> Seq<u8> {
        self.heat@
    }

    /// The most heat a frame takes from one cell, plus one.
    pub closed spec fn cooling_view(&self) -> u8 {
        self.cooling
    }

    /// The spark rate, out of 255.
    pub closed spec fn sparking_view(&self) -> u8 {
        self.sparking
    }

    /// The fire's bit source.
    pub closed spec fn source_view(&self) -> R {
        self.rng
    }

    /// The heat after the next frame: [`fire_frame`] over the next words of
    /// the fire's own source.
    pub open spec fn next_heat(&self) -> Seq<u8> {
        fire_frame(
            self.heat_view(),
            stream(self.source_view(), N as nat + 3),
            self.cooling_view(),
            self.sparking_view(),
        )
    }

    /// How many words the next frame draws from the source: one per cell,
    /// the spark test, and the spark's cell and amount when it fires.
    pub open spec fn next_draws(&self) -> nat {
        frame_draws(N as nat, self.source_view().peek(N as nat), self.sparking_view())
    }

    /// Whether one frame moves this fire to `next`: the next frame's heat,
    /// the settings kept, and the source moved on by exactly the words the
    /// frame drew.
    pub open spec fn advances_to(&self, next: Self) -> bool {
        &&& next.heat_view() == self.next_heat()
        &&& next.cooling_view() == self.cooling_view()
        &&& next.sparking_view() == self.sparking_view()
        &&& forall|k: nat|
            #[trigger] next.source_view().peek(k) == self.source_view().peek(k + self.next_draws())
    }

    /// The heat of every cell, from the base of the strip up.
    pub fn heat(&self) -> (h: &Vec<u8>)
        ensures
            h@ == self.heat_view(),
    {
        &self.heat
    }

    /// The most heat a frame takes from one cell, plus one.
    pub fn cooling(&self) -> (c: u8)
        ensures
            c == self.cooling_view(),
    {
        self.cooling
    }

    /// The spark rate, out of 255.
    pub fn sparking(&self) -> (s: u8)
        ensures
            s == self.sparking_view(),
    {
        self.sparking
    }

    /// A cold fire. `cooling` defaults to 40 and is scaled down for longer
    /// strips; `sparking` defaults to 120.
    pub fn new(rng: R, cooling: Option<u8>, sparking: Option<u8>) -> (f: Self)
        ensures
            f.inv(),
            f.heat_view() == Seq::new(N as nat, |i: int| 0u8),
            f.cooling_view() == cooling_for(
                match cooling {
                    Some(c) => c,
                    None => 40u8,
                },
                N as nat,
            ),
            f.sparking_view() == match sparking {
                Some(s) => s,
                None => 120u8,
            },
            f.source_view() == rng,
    {
        let base: u8 = match cooling {
            Some(c) => c,
            None => 40,
        };
        let c: u8 = if N == 0 {
            255
        } else {
            let q: usize = (base as usize) * 10 / N + 2;
            if q >= 255 { 255 } else { q as u8 }
        };
        let mut heat: Vec<u8> = Vec::new();
        let mut i: usize = 0;
        while i < N
            invariant
                i <= N,
                heat@ == Seq::new(i as nat, |j: int| 0u8),
            decreases N - i,
        {
            heat.push(0);
            i = i + 1;
            assert(heat@ =~= Seq::new(i as nat, |j: int| 0u8));
        }
        Fire {
            cooling: c,
            sparking: match sparking {
                Some(s) => s,
                None => 120,
            },
            heat,
            rng,
        }
    }
}

/// Two fires in the same state, whose sources hand out the same words for
/// the draws the next frame takes, render the same next frame, reach the
/// same heat and take the same number of draws; as each source then moves on
/// by that number, sources that agree throughout keep the fires in step on
/// every later frame.
pub proof fn lemma_fires_agree<const N: usize, R: BitSource, S: BitSource>(
    a: Fire<N, R>,
    b: Fire<N, S>,
    dt: u32,
)
    requires
        a.heat_view().len() == N,
        a.heat_view() == b.heat_view(),
        a.cooling_view() == b.cooling_view(),
        a.sparking_view() == b.sparking_view(),
        forall|k: nat| k < a.next_draws() ==> a.source_view().peek(k) == b.source_view().peek(k),
    ensures
        a.next_heat() == b.next_heat(),
        a.next_draws() == b.next_draws(),
        forall|i: int| 0 <= i < N ==> heat_colour(#[trigger] a.next_heat()[i]) == heat_colour(b.next_heat()[i]),
{
    let d1 = stream(a.source_view(), N as nat + 3);
    let d2 = stream(b.source_view(), N as nat + 3);
    assert(a.source_view().peek(N as nat) == b.source_view().peek(N as nat));
    assert(d1[N as int] == a.source_view().peek(N as nat));
    assert forall|k: int| 0 <= k < frame_draws(N as nat, d1[N as int], a.sparking_view()) implies d1[k]
        == d2[k] by {
        assert(a.source_view().peek(k as nat) == b.source_view().peek(k as nat));
    }
    lemma_fire_deterministic(a.heat_view(), d1, d2, a.cooling_view(), a.sparking_view());
}

/// `n` words of a source's stream, from the `o`-th on.
pub open spec fn window<S: BitSource>(src: S, o: nat, n: nat) -> Seq<u32> {
    Seq::new(n, |k: int| src.peek(o + k as nat))
}

/// The heat after `k` frames from `heat`, the first frame drawing from the
/// `o`-th word of `src` and each later one where the one before stopped.
pub open spec fn heat_after<S: BitSource>(
    heat: Seq<u8>,
    src: S,
    o: nat,
    k: nat,
    cooling: u8,
    sparking: u8,
) -> Seq<u8>
    decreases k,
{
    if k == 0 {
        heat
    } else {
        let n = heat.len();
        let d = window(src, o, n + 3);
        heat_after(
            fire_frame(heat, d, cooling, sparking),
            src,
            o + frame_draws(n, d[n as int], sparking),
            (k - 1) as nat,
            cooling,
            sparking,
        )
    }
}

/// Frames depend on a source only through its words: a source whose stream
/// is another's from word `m` on gives the same run as that one from `m`.
pub proof fn lemma_heat_after_shift<S: BitSource>(
    heat: Seq<u8>,
    a: S,
    b: S,
    m: nat,
    o: nat,
    k: nat,
    cooling: u8,
    sparking: u8,
)
    requires
        forall|j: nat| #[trigger] b.peek(j) == a.peek(j + m),
    ensures
        heat_after(heat, b, o, k, cooling, sparking) == heat_after(heat, a, o + m, k, cooling, sparking),
    decreases k,
{
    if k > 0 {
        let n = heat.len();
        let db = window(b, o, n + 3);
        let da = window(a, o + m, n + 3);
        assert forall|j: int| 0 <= j < n + 3 implies db[j] == da[j] by {
            assert(b.peek(o + j as nat) == a.peek(o + j as nat + m));
            assert(o + j as nat + m == o + m + j as nat);
        }
        assert(db =~= da);
        let h = fire_frame(heat, db, cooling, sparking);
        let step = frame_draws(n, db[n as int], sparking);
        lemma_heat_after_shift(h, a, b, m, o + step, (k - 1) as nat, cooling, sparking);
        assert(o + step + m == o + m + step);
    }
}

impl<const N: usize, R: BitSource> Fire<N, R> {
    /// A fire that moved on by one frame renders, over any later run of
    /// frames, what the fire before it renders over that run and one more.
    pub proof fn lemma_frames_shift(a: Self, b: Self, dt: u32)
        requires
            a.inv(),
            a.advances_to(b),
        ensures
            forall|dts: Seq<u32>, i: int|
                dts.len() > 0 ==> #[trigger] b.frame_after(dts, i) == a.frame_after(
                    seq![dt] + dts,
                    i,
                ),
    {
        let m = a.next_draws();
        assert(window(a.source_view(), 0, N as nat + 3) =~= stream(a.source_view(), N as nat + 3));
        assert forall|dts: Seq<u32>, i: int| dts.len() > 0 implies #[trigger] b.frame_after(dts, i)
            == a.frame_after(seq![dt] + dts, i) by {
            let l = dts.len();
            assert((seq![dt] + dts).len() == l + 1);
            lemma_heat_after_shift(
                b.heat_view(),
                a.source_view(),
                b.source_view(),
                m,
                0,
                l,
                a.cooling_view(),
                a.sparking_view(),
            );
        }
    }
}

impl<const N: usize, R: BitSource> EffectIterator for Fire<N, R> {
    closed spec fn inv(&self) -> bool {
        &&& self.heat@.len() == N
        &&& self.cooling > 0
    }

    open spec fn spec_pixel_count(&self) -> nat {
        N as nat
    }

    open spec fn spec_name(&self) -> Seq<char> {
        "Fire"@
    }

    open spec fn spec_finished(&self) -> bool {
        false
    }

    /// A fire is held to the model when its source is.
    open spec fn modelled(&self) -> bool {
        self.source_view().modelled()
    }

    /// The colour of cell `i` after `dts.len()` frames.
    open spec fn frame_after(&self, dts: Seq<u32>, i: int) -> RGB8 {
        heat_colour(
            heat_after(
                self.heat_view(),
                self.source_view(),
                0,
                dts.len(),
                self.cooling_view(),
                self.sparking_view(),
            )[i],
        )
    }

    fn name(&self) -> (r: &'static str) {
        "Fire"
    }

    /// One frame: cooling, diffusion, perhaps a spark, then the colours of
    /// the heat into `buf`.
    fn next_line(&mut self, buf: &mut [RGB8], dt_ticks: u32) -> (r: Option<usize>)
        ensures
            r == Some(min_nat(N as nat, old(buf)@.len()) as usize),
            final(self).heat_view().len() == N,
            final(self).cooling_view() == old(self).cooling_view(),
            final(self).sparking_view() == old(self).sparking_view(),
            final(buf)@.len() == old(buf)@.len(),
            forall|i: int|
                0 <= i < min_nat(N as nat, old(buf)@.len()) ==> #[trigger] final(buf)@[i]
                    == heat_colour(final(self).heat_view()[i]),
            forall|i: int|
                #![trigger final(buf)@[i]]
                min_nat(N as nat, old(buf)@.len()) <= i < old(buf)@.len() ==> final(buf)@[i]
                    == old(buf)@[i],
            old(self).source_view().modelled() ==> old(self).advances_to(*final(self)),
    {
        let ghost start = *self;
        let ghost before = self.heat@;
        let ghost src = self.rng;
        let ghost d = stream(src, N as nat + 3);
        let n = self.heat.len();
        let mut i: usize = 0;
        while i < n
            invariant
                n == N,
                self.inv(),
                self.cooling == old(self).cooling,
                self.sparking == old(self).sparking,
                before == old(self).heat@,
                src == old(self).rng,
                d == stream(src, N as nat + 3),
                i <= n,
                src.modelled() ==> self.rng.modelled(),
                src.modelled() ==> forall|k: nat| #[trigger] self.rng.peek(k) == src.peek(k + i as nat),
                src.modelled() ==> forall|j: int|
                    0 <= j < i ==> self.heat@[j] == cooled_cell(before[j], d[j], self.cooling),
                forall|j: int| i <= j < n ==> self.heat@[j] == before[j],
            decreases n - i,
        {
            let x = self.rng.next_u32();
            proof {
                if src.modelled() {
                    assert(x == src.peek(i as nat));
                }
            }
            let h = cool_cell(self.heat[i], x, self.cooling);
            self.heat[i] = h;
            i = i + 1;
        }
        proof {
            if src.modelled() {
                assert(self.heat@ =~= cooled(before, d, self.cooling));
            }
        }
        diffuse(&mut self.heat);
        let t = self.rng.next_u32();
        if spark_test(t, self.sparking) {
            let p = self.rng.next_u32();
            let a = self.rng.next_u32();
            add_spark(&mut self.heat, p, a);
            proof {
                if src.modelled() {
                    assert(t == d[N as int]);
                    assert(p == d[N + 1int]);
                    assert(a == d[N + 2int]);
                    assert forall|k: nat| #[trigger] self.rng.peek(k) == src.peek(k + (N as nat + 3)) by {
                        assert(self.rng.peek(k) == src.peek(k + 2 + 1 + N as nat));
                    }
                }
            }
        } else {
            proof {
                if src.modelled() {
                    assert(t == d[N as int]);
                    assert forall|k: nat| #[trigger] self.rng.peek(k) == src.peek(k + (N as nat + 1)) by {
                        assert(self.rng.peek(k) == src.peek(k + 1 + N as nat));
                    }
                }
            }
        }
        let len = if N < buf.len() { N } else { buf.len() };
        let mut k: usize = 0;
        while k < len
            invariant
                self.inv(),
                len == min_nat(N as nat, old(buf)@.len()),
                k <= len,
                buf@.len() == old(buf)@.len(),
                forall|j: int| 0 <= j < k ==> buf@[j] == heat_colour(#[trigger] self.heat@[j]),
                forall|j: int| k <= j < buf@.len() ==> buf@[j] == old(buf)@[j],
            decreases len - k,
        {
            buf[k] = heat_to_colour(self.heat[k]);
            k = k + 1;
        }
        proof {
            if src.modelled() {
                Self::lemma_frames_shift(start, *self, dt_ticks);
                assert(window(src, 0, N as nat + 3) =~= d);
                let c = self.cooling;
                let sp = self.sparking;
                let m = frame_draws(N as nat, d[N as int], sp);
                assert(heat_after(before, src, 0, 1, c, sp) == heat_after(
                    fire_frame(before, d, c, sp),
                    src,
                    m,
                    0,
                    c,
                    sp,
                ));
                assert(self.heat@ == heat_after(before, src, 0, 1, c, sp));
                assert(seq![dt_ticks].len() == 1);
            }
        }
        Some(len)
    }

    fn pixel_count(&self) -> (r: usize) {
        N
    }

    /// One frame into a fresh buffer, moving on as one `next_line` call does.
    fn next(&mut self, dt_ticks: u32) -> (r: Option<Vec<RGB8>>)
        ensures
            old(self).source_view().modelled() ==> old(self).advances_to(*final(self)),
    {
        let mut buf = dark_frame(N);
        self.next_line(buf.as_mut_slice(), dt_ticks);
        Some(buf)
    }
}

} // verus!
