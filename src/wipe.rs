use vstd::prelude::*;
use crate::effect::{dark_frame, min_nat, EffectIterator};
use crate::pixel::{black, RGB8};

verus! {

/// How many pixels of content follow the dark lead-in: `n` of the fill
/// colour in colour mode, else the whole of `data`.
pub open spec fn wipe_used(colour_mode: bool, data: Seq<RGB8>, n: nat) -> nat {
    if colour_mode { n } else { data.len() }
}

/// The pixel at offset `j` of the sliding window: `n` dark pixels, then the
/// content, then dark again.
pub open spec fn wipe_pixel(
    colour_mode: bool,
    fill: Option<RGB8>,
    data: Seq<RGB8>,
    n: nat,
    j: int,
) -> RGB8 {
    if j < n {
        black()
    } else if j < n + wipe_used(colour_mode, data, n) {
        if colour_mode {
            match fill {
                Some(c) => c,
                None => black(),
            }
        } else {
            data[j - n]
        }
    } else {
        black()
    }
}

/// The window's start after one frame: one step along, from `end` back to
/// 0 going forward, from 0 back to `end` in reverse.
pub open spec fn wipe_next(position: nat, end: nat, reverse: bool) -> nat {
    if reverse {
        if position == 0 { end } else { (position - 1) as nat }
    } else {
        if position + 1 >= end { 0 } else { position + 1 }
    }
}

/// The window's start after `k` frames from `position`.
pub open spec fn wipe_after(position: nat, end: nat, reverse: bool, k: nat) -> nat
    decreases k,
{
    if k == 0 {
        position
    } else {
        wipe_after(wipe_next(position, end, reverse), end, reverse, (k - 1) as nat)
    }
}

/// A run of pixels, or a block of one colour, wiped across the strip.
pub struct Wipe<'a, const N: usize> {
    position: usize,
    data: &'a [RGB8],
    reverse: bool,
    end: usize,
    randomize: bool,
    colour_mode: bool,
    fill_colour: Option<RGB8>,
}

impl<'a, const N: usize> Wipe<'a, N> {
    /// Where the window starts, in pixels from the beginning of the lead-in.
    pub closed spec fn position_view(&self) -> nat {
        self.position as nat
    }

    /// The pixels wiped across, outside colour mode.
    pub closed spec fn data_view(&self) -> Seq<RGB8> {
        self.data@
    }

    /// Whether the wipe runs in reverse.
    pub closed spec fn reverse_view(&self) -> bool {
        self.reverse
    }

    /// Whether a block of the fill colour is wiped instead of the data.
    pub closed spec fn colour_mode_view(&self) -> bool {
        self.colour_mode
    }

    /// The fill colour.
    pub closed spec fn fill_view(&self) -> Option<RGB8> {
        self.fill_colour
    }

    /// Whether each pass asks for a new random fill colour.
    pub closed spec fn randomize_view(&self) -> bool {
        self.randomize
    }

    /// Whether one frame moves this wipe to `next`: the same content, the
    /// window slid by one as [`wipe_next`] states.
    pub open spec fn advances_to(&self, next: Self) -> bool {
        &&& next.data_view() == self.data_view()
        &&& next.fill_view() == self.fill_view()
        &&& next.colour_mode_view() == self.colour_mode_view()
        &&& next.reverse_view() == self.reverse_view()
        &&& next.randomize_view() == self.randomize_view()
        &&& next.position_view() == wipe_next(
            self.position_view(),
            N as nat + wipe_used(self.colour_mode_view(), self.data_view(), N as nat),
            self.reverse_view(),
        )
    }

    /// A wipe that moved on by one frame shows, over any later run of frames,
    /// what the wipe before it shows over that run and one more.
    pub proof fn lemma_frames_shift(a: Self, b: Self, dt: u32)
        requires
            a.advances_to(b),
        ensures
            forall|dts: Seq<u32>, i: int|
                dts.len() > 0 ==> #[trigger] b.frame_after(dts, i) == a.frame_after(
                    seq![dt] + dts,
                    i,
                ),
    {
        assert forall|dts: Seq<u32>, i: int| dts.len() > 0 implies #[trigger] b.frame_after(dts, i)
            == a.frame_after(seq![dt] + dts, i) by {
            assert((seq![dt] + dts).len() == dts.len() + 1);
        }
    }

    /// Wipes `data` across the strip; in reverse it starts from the far end.
    pub fn new(data: &'a [RGB8], reverse: bool) -> (w: Self)
        requires
            2 * N + data@.len() < usize::MAX,
        ensures
            w.inv(),
            w.data_view() == data@,
            w.reverse_view() == reverse,
            w.position_view() == (if reverse { N + data@.len() } else { 0 }),
            !w.colour_mode_view(),
            w.fill_view().is_none(),
            !w.randomize_view(),
    {
        let end = N + data.len();
        Wipe {
            position: if reverse { end } else { 0 },
            data,
            reverse,
            end,
            randomize: false,
            colour_mode: false,
            fill_colour: None,
        }
    }

    /// Wipes a block of `N` pixels of one colour across the strip. With
    /// `None`, each pass takes a new random colour, handed in through
    /// [`Wipe::set_fill_colour`]; until then the block is dark.
    pub fn colour_wipe(colour: Option<RGB8>, reverse: bool) -> (w: Self)
        requires
            2 * N < usize::MAX,
        ensures
            w.inv(),
            w.data_view().len() == 0,
            w.reverse_view() == reverse,
            w.position_view() == (if reverse { N as nat } else { 0 }),
            w.colour_mode_view(),
            w.fill_view() == colour,
            w.randomize_view() == colour.is_none(),
    {
        let mut me = Self::new(&[], reverse);
        match colour {
            Some(c) => me.fill_wipe(c),
            None => {
                me.colour_mode = true;
                me.randomize = true;
            },
        }
        me
    }

    /// Switches to colour mode with the fill colour `colour`; only for a
    /// wipe without data, whose window the block of `N` pixels contains.
    fn fill_wipe(&mut self, colour: RGB8)
        requires
            old(self).inv(),
            old(self).data@.len() == 0,
        ensures
            final(self).inv(),
            final(self).colour_mode,
            final(self).fill_colour == Some(colour),
            final(self).position == old(self).position,
            final(self).data@ == old(self).data@,
            final(self).reverse == old(self).reverse,
            final(self).randomize == old(self).randomize,
    {
        self.colour_mode = true;
        self.fill_colour = Some(colour);
    }

    /// Replaces the fill colour; the window and the content mode stay as they
    /// are. A colour wipe takes each new random colour this way.
    pub fn set_fill_colour(&mut self, colour: RGB8)
        requires
            old(self).inv(),
        ensures
            final(self).inv(),
            final(self).fill_view() == Some(colour),
            final(self).colour_mode_view() == old(self).colour_mode_view(),
            final(self).position_view() == old(self).position_view(),
            final(self).data_view() == old(self).data_view(),
            final(self).reverse_view() == old(self).reverse_view(),
            final(self).randomize_view() == old(self).randomize_view(),
    {
        self.fill_colour = Some(colour);
    }

    /// Whether the last frame ended a pass, so that a new pass begins.
    pub fn just_wrapped(&self) -> (r: bool)
        requires
            self.inv(),
        ensures
            r == (if self.reverse_view() {
                self.position_view() == N + wipe_used(
                    self.colour_mode_view(),
                    self.data_view(),
                    N as nat,
                )
            } else {
                self.position_view() == 0
            }),
    {
        if self.reverse {
            self.position == N + self.used()
        } else {
            self.position == 0
        }
    }

    /// Whether each pass asks for a new random fill colour.
    pub fn is_random(&self) -> (r: bool)
        ensures
            r == self.randomize_view(),
    {
        self.randomize
    }

    fn used(&self) -> (u: usize)
        requires
            self.inv(),
        ensures
            u == wipe_used(self.colour_mode, self.data@, N as nat),
    {
        if self.colour_mode { N } else { self.data.len() }
    }

    fn pixel_at(&self, pos: usize, i: usize) -> (p: RGB8)
        requires
            self.inv(),
            pos == self.position,
        ensures
            p == wipe_pixel(self.colour_mode, self.fill_colour, self.data@, N as nat, pos + i),
    {
        let used = self.used();
        let k: usize;
        if pos < N {
            if i < N - pos {
                return RGB8 { r: 0, g: 0, b: 0 };
            }
            k = i - (N - pos);
        } else {
            let off = pos - N;
            if off >= used || i >= used - off {
                return RGB8 { r: 0, g: 0, b: 0 };
            }
            k = off + i;
        }
        if k >= used {
            return RGB8 { r: 0, g: 0, b: 0 };
        }
        if self.colour_mode {
            match self.fill_colour {
                Some(c) => c,
                None => RGB8 { r: 0, g: 0, b: 0 },
            }
        } else {
            self.data[k]
        }
    }
}

impl<'a, const N: usize> EffectIterator for Wipe<'a, N> {
    closed spec fn inv(&self) -> bool {
        &&& 2 * N + self.data@.len() < usize::MAX
        &&& self.position <= N + wipe_used(self.colour_mode, self.data@, N as nat)
    }

    open spec fn spec_pixel_count(&self) -> nat {
        N as nat
    }

    open spec fn spec_name(&self) -> Seq<char> {
        "Wipe"@
    }

    open spec fn spec_finished(&self) -> bool {
        false
    }

    open spec fn modelled(&self) -> bool {
        true
    }

    /// Pixel `i` of the window where the last of `dts.len()` frames shows it:
    /// each frame shows the window, then slides it.
    open spec fn frame_after(&self, dts: Seq<u32>, i: int) -> RGB8 {
        wipe_pixel(
            self.colour_mode_view(),
            self.fill_view(),
            self.data_view(),
            N as nat,
            wipe_after(
                self.position_view(),
                N as nat + wipe_used(self.colour_mode_view(), self.data_view(), N as nat),
                self.reverse_view(),
                (dts.len() - 1) as nat,
            ) + i,
        )
    }

    fn name(&self) -> (r: &'static str) {
        "Wipe"
    }

    /// Shows the window, then slides it one pixel.
    fn next_line(&mut self, buf: &mut [RGB8], dt_ticks: u32) -> (r: Option<usize>)
        ensures
            old(self).advances_to(*final(self)),
    {
        let ghost start = *self;
        let used = self.used();
        self.end = N + used;
        let pos = self.position;
        let len = if N < buf.len() { N } else { buf.len() };
        let mut i: usize = 0;
        while i < len
            invariant
                self.inv(),
                self.position == old(self).position,
                self.data@ == old(self).data@,
                self.colour_mode == old(self).colour_mode,
                self.fill_colour == old(self).fill_colour,
                self.reverse == old(self).reverse,
                self.randomize == old(self).randomize,
                pos == self.position,
                self.end == N + used,
                self.inv(),
                used == wipe_used(self.colour_mode, self.data@, N as nat),
                len == min_nat(N as nat, old(buf)@.len()),
                i <= len,
                buf@.len() == old(buf)@.len(),
                forall|j: int|
                    0 <= j < i ==> #[trigger] buf@[j] == wipe_pixel(
                        self.colour_mode,
                        self.fill_colour,
                        self.data@,
                        N as nat,
                        pos + j,
                    ),
                forall|j: int| i <= j < buf@.len() ==> buf@[j] == old(buf)@[j],
            decreases len - i,
        {
            buf[i] = self.pixel_at(pos, i);
            i = i + 1;
        }
        if self.reverse {
            if self.position == 0 {
                self.position = self.end;
            } else {
                self.position = self.position - 1;
            }
        } else {
            self.position = self.position + 1;
            if self.position >= self.end {
                self.position = 0;
            }
        }
        proof {
            Self::lemma_frames_shift(start, *self, dt_ticks);
        }
        Some(len)
    }

    fn pixel_count(&self) -> (r: usize) {
        N
    }

    /// One frame into a fresh buffer, moving on as one `next_line` call does.
    fn next(&mut self, dt_ticks: u32) -> (r: Option<Vec<RGB8>>)
        ensures
            old(self).advances_to(*final(self)),
    {
        let ghost start = *self;
        let mut buf = dark_frame(N);
        self.next_line(buf.as_mut_slice(), dt_ticks);
        proof {
            Self::lemma_frames_shift(start, *self, dt_ticks);
        }
        Some(buf)
    }
}

} // verus!
