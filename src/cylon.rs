use vstd::prelude::*;

verus! {

/// Which way the scanner's eye moves.
#[derive(Clone, Copy, Debug, PartialEq, Eq, Structural)]
pub enum Direction {
    Forward,
    Backward,
}

impl Direction {
    /// Turns the direction round.
    pub fn next(&mut self)
        ensures
            *final(self) == (match *old(self) {
                Direction::Forward => Direction::Backward,
                Direction::Backward => Direction::Forward,
            }),
    {
        match self {
            Direction::Forward => *self = Direction::Backward,
            _ => *self = Direction::Forward,
        }
    }
}

/// The eye's width: the requested size (4 by default) held within `1..=n`.
pub open spec fn eye_size(size: Option<usize>, n: nat) -> nat {
    let s: nat = match size {
        Some(s) => s as nat,
        None => 4,
    };
    let s = if s <= n { s } else { n };
    if s >= 1 { s } else { 1 }
}

/// The eye of a scanner sweeping back and forth over `N` pixels: the last
/// pixel `start` it covers and its width `size`.
pub struct Sweep<const N: usize> {
    start: usize,
    size: usize,
    direction: Direction,
}

/// The sweep after one frame: the eye moves one pixel, and turns round
/// instead where its leading pixel reached an end of the strip.
pub open spec fn swept(start: nat, size: nat, dir: Direction, n: nat) -> (nat, Direction) {
    match dir {
        Direction::Forward => if start + 1 >= n {
            (start, Direction::Backward)
        } else {
            (start + 1, Direction::Forward)
        },
        Direction::Backward => if start + 1 <= size {
            (start, Direction::Forward)
        } else {
            ((start - 1) as nat, Direction::Backward)
        },
    }
}

impl<const N: usize> Sweep<N> {
    /// The last pixel that the eye covers.
    pub closed spec fn start_view(&self) -> nat {
        self.start as nat
    }

    /// The eye's width.
    pub closed spec fn size_view(&self) -> nat {
        self.size as nat
    }

    /// Which way the eye moves.
    pub closed spec fn direction_view(&self) -> Direction {
        self.direction
    }

    /// The eye is within the strip (or on its one pixel, for an empty strip).
    pub closed spec fn wf(&self) -> bool {
        &&& 1 <= self.size
        &&& self.size <= self.start + 1
        &&& self.start + 1 <= (if N >= 1 { N as nat } else { 1 })
    }

    /// An eye of `size` pixels (see [`eye_size`]) at the start of the strip,
    /// moving forward.
    pub fn new(size: Option<usize>) -> (s: Self)
        ensures
            s.wf(),
            s.size_view() == eye_size(size, N as nat),
            s.start_view() == s.size_view() - 1,
            s.direction_view() == Direction::Forward,
    {
        let mut sz: usize = match size {
            Some(s) => s,
            None => 4,
        };
        if sz > N {
            sz = N;
        }
        if sz < 1 {
            sz = 1;
        }
        Sweep { start: sz - 1, size: sz, direction: Direction::Forward }
    }

    /// Moves the eye one frame along, as [`swept`] states.
    pub fn advance(&mut self)
        requires
            old(self).wf(),
        ensures
            final(self).wf(),
            final(self).size_view() == old(self).size_view(),
            (final(self).start_view(), final(self).direction_view()) == swept(
                old(self).start_view(),
                old(self).size_view(),
                old(self).direction_view(),
                N as nat,
            ),
    {
        match self.direction {
            Direction::Forward => {
                if self.start + 1 >= N {
                    self.direction.next();
                } else {
                    self.start = self.start + 1;
                }
            },
            Direction::Backward => {
                if self.start + 1 <= self.size {
                    self.direction.next();
                } else {
                    self.start = self.start - 1;
                }
            },
        }
    }

    /// Whether pixel `i` lies under the eye.
    pub fn in_eye(&self, i: usize) -> (r: bool)
        requires
            self.wf(),
        ensures
            r == (self.start_view() + 1 - self.size_view() <= i <= self.start_view()),
    {
        self.start + 1 - self.size <= i && i <= self.start
    }

    /// How far pixel `i` trails behind the eye, if it does: behind its back
    /// end going forward, at or beyond its front going backward.
    pub fn trail_distance(&self, i: usize) -> (r: Option<usize>)
        requires
            self.wf(),
        ensures
            r == (match self.direction_view() {
                Direction::Forward => if self.start_view() + 1 > self.size_view() && i
                    <= self.start_view() + 1 - self.size_view() {
                    Some((self.start_view() + 1 - self.size_view() - i) as usize)
                } else {
                    None
                },
                Direction::Backward => if i >= self.start_view() {
                    Some((i - self.start_view()) as usize)
                } else {
                    None
                },
            }),
    {
        match self.direction {
            Direction::Forward => {
                if self.start + 1 > self.size {
                    let tail_end = self.start + 1 - self.size;
                    if i <= tail_end {
                        return Some(tail_end - i);
                    }
                }
                None
            },
            Direction::Backward => {
                if i >= self.start {
                    Some(i - self.start)
                } else {
                    None
                }
            },
        }
    }
}

} // verus!
