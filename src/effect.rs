use vstd::prelude::*;
use crate::pixel::{black, RGB8};

verus! {

/// The smaller of two naturals.
pub open spec fn min_nat(a: nat, b: nat) -> nat {
    if a <= b { a } else { b }
}

/// A source of uniformly distributed 32-bit words, owned by one effect.
///
/// A modelled source is described by the stream of words it will hand out:
/// `peek(k)` is the word that the `k`-th draw from now returns. Each draw
/// returns the head of the stream and moves on by one, so two sources with
/// the same stream hand out the same words in the same order.
///
/// A source written without proofs cannot define the model; it keeps
/// `modelled` false, the contract then promises nothing of it, and nothing
/// proved over the model describes an effect that draws from it. The sources
/// of this crate are modelled and verified against the model.
pub trait BitSource {
    /// Whether this source is held to the stream model.
    open spec fn modelled(&self) -> bool {
        false
    }

    /// The word that the `k`-th draw from now returns (for a modelled
    /// source; the default stands for no source).
    open spec fn peek(&self, k: nat) -> u32 {
        0
    }

    fn next_u32(&mut self) -> (r: u32)
        ensures
            old(self).modelled() ==> {
                &&& final(self).modelled()
                &&& r == old(self).peek(0)
                &&& forall|k: nat| #[trigger] final(self).peek(k) == old(self).peek(k + 1)
            },
    ;
}

/// The first `n` words of a source's stream.
pub open spec fn stream<S: BitSource>(s: S, n: nat) -> Seq<u32> {
    Seq::new(n, |k: int| s.peek(k as nat))
}

/// A source that hands out a fixed script of words, then zeros.
pub struct Scripted {
    words: Vec<u32>,
    at: usize,
}

impl Scripted {
    /// A source that hands out `words` in order, then zeros for ever.
    pub fn new(words: Vec<u32>) -> (s: Scripted)
        ensures
            s.modelled(),
            forall|k: nat| #[trigger] s.peek(k) == (if k < words@.len() { words@[k as int] } else { 0 }),
    {
        Scripted { words, at: 0 }
    }
}

impl BitSource for Scripted {
    open spec fn modelled(&self) -> bool {
        true
    }

    closed spec fn peek(&self, k: nat) -> u32 {
        if self.at + k < self.words@.len() {
            self.words@[self.at + k]
        } else {
            0
        }
    }

    fn next_u32(&mut self) -> (r: u32) {
        if self.at < self.words.len() {
            let w = self.words[self.at];
            self.at = self.at + 1;
            w
        } else {
            0
        }
    }
}

/// A buffer of `count` dark pixels.
pub fn dark_frame(count: usize) -> (buf: Vec<RGB8>)
    ensures
        buf@ == Seq::new(count as nat, |i: int| black()),
{
    let mut buf: Vec<RGB8> = Vec::new();
    let mut i: usize = 0;
    while i < count
        invariant
            i <= count,
            buf@ == Seq::new(i as nat, |j: int| black()),
        decreases count - i,
    {
        buf.push(RGB8 { r: 0, g: 0, b: 0 });
        i = i + 1;
        assert(buf@ =~= Seq::new(i as nat, |j: int| black()));
    }
    buf
}

/// The interface every effect implements.
///
/// A modelled effect is described by the spec functions below: its
/// consistency condition, its size, its name, whether it has finished, and
/// the frames it renders from now on. Each effect of this crate is modelled
/// and verified against them. An effect written without proofs cannot
/// define them; it keeps `modelled` false, and then the contracts below
/// promise nothing of it.
pub trait EffectIterator {
    /// Whether this effect is held to the model below.
    open spec fn modelled(&self) -> bool {
        false
    }

    /// The effect's own consistency condition, kept by every call.
    open spec fn inv(&self) -> bool {
        true
    }

    /// The number of pixels the effect drives.
    open spec fn spec_pixel_count(&self) -> nat {
        0
    }

    /// The effect's identifier.
    open spec fn spec_name(&self) -> Seq<char> {
        Seq::empty()
    }

    /// Whether the effect has ended for good (no further frames).
    open spec fn spec_finished(&self) -> bool {
        false
    }

    /// Pixel `i` of the frame that the last of a run of calls renders, the
    /// calls advancing by the ticks `dts` in turn (`dts` not empty).
    open spec fn frame_after(&self, dts: Seq<u32>, i: int) -> RGB8 {
        black()
    }

    fn name(&self) -> (r: &'static str)
        ensures
            self.modelled() ==> r@ == self.spec_name(),
    ;

    /// Advances the effect by `dt_ticks` and renders the next frame into `buf`.
    ///
    /// Writes the first `min(pixel_count, buf.len())` pixels and returns that
    /// count; the rest of `buf` is left as it was. The effect moves on so
    /// that every later run of calls renders what the same run, after this
    /// call, would have rendered. A finished effect returns `None` and
    /// writes nothing.
    fn next_line(&mut self, buf: &mut [RGB8], dt_ticks: u32) -> (r: Option<usize>)
        requires
            old(self).inv(),
        ensures
            old(self).modelled() ==> {
                &&& final(self).modelled()
                &&& final(self).inv()
                &&& final(self).spec_pixel_count() == old(self).spec_pixel_count()
                &&& final(buf)@.len() == old(buf)@.len()
                &&& old(self).spec_finished() ==> r.is_none() && final(buf)@ == old(buf)@
                &&& !old(self).spec_finished() ==> {
                    &&& r == Some(min_nat(old(self).spec_pixel_count(), old(buf)@.len()) as usize)
                    &&& forall|i: int|
                        0 <= i < min_nat(old(self).spec_pixel_count(), old(buf)@.len())
                            ==> #[trigger] final(buf)@[i] == old(self).frame_after(seq![dt_ticks], i)
                    &&& forall|dts: Seq<u32>, i: int|
                        dts.len() > 0 ==> #[trigger] final(self).frame_after(dts, i)
                            == old(self).frame_after(seq![dt_ticks] + dts, i)
                }
                &&& forall|i: int|
                    #![trigger final(buf)@[i]]
                    min_nat(old(self).spec_pixel_count(), old(buf)@.len()) <= i < old(buf)@.len()
                        ==> final(buf)@[i] == old(buf)@[i]
            },
    ;

    fn pixel_count(&self) -> (r: usize)
        ensures
            self.modelled() ==> r as nat == self.spec_pixel_count(),
    ;

    /// Renders the next frame into a fresh buffer of `pixel_count` pixels,
    /// moving the effect on as one [`EffectIterator::next_line`] call does;
    /// `None` once the effect has finished.
    fn next(&mut self, dt_ticks: u32) -> (r: Option<Vec<RGB8>>)
        requires
            old(self).inv(),
        ensures
            old(self).modelled() ==> {
                &&& final(self).modelled()
                &&& final(self).inv()
                &&& final(self).spec_pixel_count() == old(self).spec_pixel_count()
                &&& old(self).spec_finished() ==> r.is_none()
                &&& !old(self).spec_finished() ==> {
                    &&& r.is_some()
                    &&& r.unwrap()@.len() == old(self).spec_pixel_count()
                    &&& forall|i: int|
                        0 <= i < old(self).spec_pixel_count() ==> #[trigger] r.unwrap()@[i]
                            == old(self).frame_after(seq![dt_ticks], i)
                    &&& forall|dts: Seq<u32>, i: int|
                        dts.len() > 0 ==> #[trigger] final(self).frame_after(dts, i)
                            == old(self).frame_after(seq![dt_ticks] + dts, i)
                }
            },
    {
        let mut buf = dark_frame(self.pixel_count());
        match self.next_line(buf.as_mut_slice(), dt_ticks) {
            Some(_) => Some(buf),
            None => None,
        }
    }
}

} // verus!
