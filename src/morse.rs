use vstd::prelude::*;
use crate::effect::{dark_frame, min_nat, EffectIterator};
use crate::pixel::{black, RGB8};

verus! {

/// The pixel at offset `j` of the sliding window: `n` dark pixels, then the
/// message (a 1 lit in `colour`, anything else dark), then dark again.
pub open spec fn morse_pixel(data: Seq<u8>, colour: RGB8, n: nat, j: int) -> RGB8 {
    if j < n {
        black()
    } else if j < n + data.len() {
        if data[j - n] == 1 { colour } else { black() }
    } else {
        black()
    }
}

/// The window's start after one frame: one step along the strip, from the
/// end back to 0 going forward, from 0 back to `end` in reverse.
pub open spec fn morse_next(position: nat, end: nat, reverse: bool) -> nat {
    if reverse {
        if position == 0 { end } else { (position - 1) as nat }
    } else {
        if position + 1 > end { 0 } else { position + 1 }
    }
}

/// The window's start after `k` frames from `position`.
pub open spec fn morse_after(position: nat, end: nat, reverse: bool, k: nat) -> nat
    decreases k,
{
    if k == 0 {
        position
    } else {
        morse_after(morse_next(position, end, reverse), end, reverse, (k - 1) as nat)
    }
}

/// A message, already encoded as on/off bits, sliding across the strip.
pub struct Morse<'a, const N: usize> {
    data: &'a [u8],
    position: usize,
    reverse: bool,
    colour: RGB8,
}

impl<'a, const N: usize> Morse<'a, N> {
    /// The encoded message.
    pub closed spec fn data_view(&self) -> Seq<u8> {
        self.data@
    }

    /// Where the window starts, in pixels from the beginning of the lead-in.
    pub closed spec fn position_view(&self) -> nat {
        self.position as nat
    }

    /// Whether the message slides in reverse.
    pub closed spec fn reverse_view(&self) -> bool {
        self.reverse
    }

    /// The colour of a lit bit.
    pub closed spec fn colour_view(&self) -> RGB8 {
        self.colour
    }

    /// Whether one frame moves this message to `next`: the same message and
    /// colour, the window slid by one as [`morse_next`] states.
    pub open spec fn advances_to(&self, next: Self) -> bool {
        &&& next.data_view() == self.data_view()
        &&& next.colour_view() == self.colour_view()
        &&& next.reverse_view() == self.reverse_view()
        &&& next.position_view() == morse_next(
            self.position_view(),
            N as nat + self.data_view().len(),
            self.reverse_view(),
        )
    }

    /// A message that moved on by one frame shows, over any later run of
    /// frames, what the message before it shows over that run and one more.
    pub proof fn lemma_frames_shift(a: Self, b: Self, dt: u32)
        requires
            a.advances_to(b),
        ensures
            forall|dts: Seq<u32>, i: int|
                dts.len() > 0 ==> #[trigger] b.frame_after(dts, i) == a.frame_after(
                    seq![dt] + dts,
                    i,
                ),
    {
        assert forall|dts: Seq<u32>, i: int| dts.len() > 0 implies #[trigger] b.frame_after(dts, i)
            == a.frame_after(seq![dt] + dts, i) by {
            assert((seq![dt] + dts).len() == dts.len() + 1);
        }
    }

    /// The message slides over `data` (one bit per pixel, 1 for lit) in
    /// `colour`, red by default; in reverse it starts from the far end.
    pub fn new_bits(data: &'a [u8], colour: Option<RGB8>, reverse: bool) -> (m: Self)
        requires
            N + data@.len() < usize::MAX,
        ensures
            m.inv(),
            m.data_view() == data@,
            m.reverse_view() == reverse,
            m.position_view() == (if reverse { N + data@.len() } else { 0 }),
            m.colour_view() == match colour {
                Some(c) => c,
                None => RGB8 { r: 255, g: 0, b: 0 },
            },
    {
        Morse {
            data,
            position: if reverse { N + data.len() } else { 0 },
            reverse,
            colour: match colour {
                Some(c) => c,
                None => RGB8 { r: 255, g: 0, b: 0 },
            },
        }
    }

    /// The pixel at offset `j` of the window.
    fn pixel_at(&self, j_from_pos: usize) -> (p: RGB8)
        requires
            self.inv(),
        ensures
            p == morse_pixel(self.data@, self.colour, N as nat, self.position + j_from_pos),
    {
        let l = self.data.len();
        let pos = self.position;
        if pos < N {
            if j_from_pos < N - pos {
                return RGB8 { r: 0, g: 0, b: 0 };
            }
            let k = j_from_pos - (N - pos);
            if k < l {
                if self.data[k] == 1 { self.colour } else { RGB8 { r: 0, g: 0, b: 0 } }
            } else {
                RGB8 { r: 0, g: 0, b: 0 }
            }
        } else {
            let off = pos - N;
            if j_from_pos < l - off {
                let k = off + j_from_pos;
                if self.data[k] == 1 { self.colour } else { RGB8 { r: 0, g: 0, b: 0 } }
            } else {
                RGB8 { r: 0, g: 0, b: 0 }
            }
        }
    }
}

impl<'a, const N: usize> EffectIterator for Morse<'a, N> {
    closed spec fn inv(&self) -> bool {
        &&& N + self.data@.len() < usize::MAX
        &&& self.position <= N + self.data@.len()
    }

    open spec fn spec_pixel_count(&self) -> nat {
        N as nat
    }

    open spec fn spec_name(&self) -> Seq<char> {
        "Morse"@
    }

    open spec fn spec_finished(&self) -> bool {
        false
    }

    open spec fn modelled(&self) -> bool {
        true
    }

    /// Pixel `i` of the window where the last of `dts.len()` frames shows it:
    /// each frame shows the window, then slides it.
    open spec fn frame_after(&self, dts: Seq<u32>, i: int) -> RGB8 {
        morse_pixel(
            self.data_view(),
            self.colour_view(),
            N as nat,
            morse_after(
                self.position_view(),
                N as nat + self.data_view().len(),
                self.reverse_view(),
                (dts.len() - 1) as nat,
            ) + i,
        )
    }

    fn name(&self) -> (r: &'static str) {
        "Morse"
    }

    /// Shows the window, then slides it one pixel.
    fn next_line(&mut self, buf: &mut [RGB8], dt_ticks: u32) -> (r: Option<usize>)
        ensures
            old(self).advances_to(*final(self)),
    {
        let ghost start = *self;
        let end = N + self.data.len();
        let len = if N < buf.len() { N } else { buf.len() };
        let mut i: usize = 0;
        while i < len
            invariant
                self.inv(),
                self.position == old(self).position,
                self.data@ == old(self).data@,
                self.colour == old(self).colour,
                self.reverse == old(self).reverse,
                len == min_nat(N as nat, old(buf)@.len()),
                i <= len,
                buf@.len() == old(buf)@.len(),
                forall|j: int|
                    0 <= j < i ==> #[trigger] buf@[j] == morse_pixel(
                        self.data@,
                        self.colour,
                        N as nat,
                        self.position + j,
                    ),
                forall|j: int| i <= j < buf@.len() ==> buf@[j] == old(buf)@[j],
            decreases len - i,
        {
            buf[i] = self.pixel_at(i);
            i = i + 1;
        }
        if self.reverse {
            if self.position == 0 {
                self.position = end;
            } else {
                self.position = self.position - 1;
            }
        } else {
            self.position = self.position + 1;
            if self.position > end {
                self.position = 0;
            }
        }
        proof {
            Self::lemma_frames_shift(start, *self, dt_ticks);
        }
        Some(len)
    }

    fn pixel_count(&self) -> (r: usize) {
        N
    }

    /// One frame into a fresh buffer, moving on as one `next_line` call does.
    fn next(&mut self, dt_ticks: u32) -> (r: Option<Vec<RGB8>>)
        ensures
            old(self).advances_to(*final(self)),
    {
        let ghost start = *self;
        let mut buf = dark_frame(N);
        self.next_line(buf.as_mut_slice(), dt_ticks);
        proof {
            Self::lemma_frames_shift(start, *self, dt_ticks);
        }
        Some(buf)
    }
}

} // verus!
