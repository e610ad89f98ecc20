use vstd::prelude::*;
use crate::effect::{min_nat, BitSource};

verus! {

/// Clamps an integer into the range of `i32`.
pub open spec fn clamp_i32(x: int) -> i32 {
    if x < i32::MIN { i32::MIN } else if x > i32::MAX { i32::MAX } else { x as i32 }
}

/// One of the two colliding particles: where it is, which way it moves, how
/// fast and how many pixels long it is. Its colour is kept beside it by the
/// caller, under the same index.
#[derive(Clone, Copy, Debug, PartialEq, Eq, Structural)]
pub struct Particle {
    pub position: i32,
    pub reverse: bool,
    pub speed: usize,
    pub size: usize,
}

/// The size a draw gives a particle: 1, 2 or 3.
pub open spec fn size_of_draw(d: u32) -> usize {
    (1 + d % 3) as usize
}

/// Where a particle is after one frame: `speed` pixels down the strip when
/// `reverse` is set, up it otherwise, held within `i32`.
pub open spec fn stepped(p: Particle) -> Particle {
    Particle {
        position: if p.reverse {
            clamp_i32(p.position - p.speed)
        } else {
            clamp_i32(p.position + p.speed)
        },
        ..p
    }
}

/// The collision test: the two positions are at most one pixel apart.
pub open spec fn within_one(a: i32, b: i32) -> bool {
    -1 <= a - b <= 1
}

/// The collision test does not depend on which particle is named first.
pub proof fn lemma_within_one_symmetric(a: i32, b: i32)
    ensures
        within_one(a, b) == within_one(b, a),
{
}

/// A particle with its direction turned round.
pub open spec fn turned(p: Particle) -> Particle {
    Particle { reverse: !p.reverse, ..p }
}

/// Whether particle `p`, on a strip of `n` pixels, lights pixel `j`: its head
/// must be on the strip, and `j` lies in the `size` pixels from the head
/// backwards (away from its direction of travel), on the strip.
pub open spec fn covers(p: Particle, n: nat, j: int) -> bool {
    &&& 0 <= p.position < n
    &&& 0 <= j < n
    &&& if p.reverse {
        p.position <= j < p.position + p.size || j == p.position
    } else {
        p.position - p.size < j <= p.position || j == p.position
    }
}

/// Which particle lights pixel `j` of the frame: the second wins where both do.
pub open spec fn owner(a: Particle, b: Particle, n: nat, j: int) -> Option<usize> {
    if covers(b, n, j) {
        Some(1usize)
    } else if covers(a, n, j) {
        Some(0usize)
    } else {
        None
    }
}

impl Particle {
    /// The particle that [`Particle::new`] makes.
    pub open spec fn new_spec(position: i32, reverse: bool, size_draw: u32) -> Particle {
        Particle { position, reverse, speed: 1, size: size_of_draw(size_draw) }
    }

    /// A particle of unit speed at `position`, sized by the draw `size_draw`.
    pub fn new(position: i32, reverse: bool, size_draw: u32) -> (p: Particle)
        ensures
            p == Particle::new_spec(position, reverse, size_draw),
    {
        Particle { position, reverse, speed: 1, size: (1 + size_draw % 3) as usize }
    }

    /// Moves the particle one frame along its direction.
    pub fn step(&mut self)
        ensures
            *final(self) == stepped(*old(self)),
    {
        let s: i64 = if self.speed > 0xffff_ffff {
            0x1_0000_0000
        } else {
            self.speed as i64
        };
        let next: i64 = if self.reverse {
            self.position as i64 - s
        } else {
            self.position as i64 + s
        };
        self.position = if next < i32::MIN as i64 {
            i32::MIN
        } else if next > i32::MAX as i64 {
            i32::MAX
        } else {
            next as i32
        };
    }

    /// When the two particles are at most one pixel apart, both turned round;
    /// otherwise `None`.
    pub fn collide(&self, other: &Particle) -> (r: Option<(Particle, Particle)>)
        ensures
            within_one(self.position, other.position) ==> r == Some((turned(*self), turned(*other))),
            !within_one(self.position, other.position) ==> r.is_none(),
    {
        let d: i64 = self.position as i64 - other.position as i64;
        if d > 1 || d < -1 {
            return None;
        }
        let mut lhs = *self;
        let mut rhs = *other;
        lhs.reverse = !lhs.reverse;
        rhs.reverse = !rhs.reverse;
        Some((lhs, rhs))
    }

    /// Whether this particle lights pixel `j` on a strip of `n` pixels.
    pub fn lights(&self, n: usize, j: usize) -> (r: bool)
        ensures
            r == covers(*self, n as nat, j as int),
    {
        if self.position < 0 || self.position as usize >= n || j >= n {
            return false;
        }
        let p = self.position as usize;
        if j == p {
            return true;
        }
        if self.reverse {
            p <= j && j - p < self.size
        } else {
            j <= p && p - j < self.size
        }
    }
}


/// Whether the draw `d` comes up heads: its low bit is set, an even chance.
pub open spec fn heads(d: u32) -> bool {
    d % 2 == 1
}

/// Tosses one coin per entry of `coins`, in index order, one draw each: the
/// explosion lights pixels and fades them by these coins.
pub fn toss_coins<S: BitSource>(src: &mut S, coins: &mut [bool])
    ensures
        final(coins)@.len() == old(coins)@.len(),
        old(src).modelled() ==> {
            &&& final(src).modelled()
            &&& forall|i: int|
                0 <= i < old(coins)@.len() ==> #[trigger] final(coins)@[i] == heads(
                    old(src).peek(i as nat),
                )
            &&& forall|k: nat|
                #[trigger] final(src).peek(k) == old(src).peek(k + old(coins)@.len())
        },
{
    let ghost start = *src;
    let n = coins.len();
    let mut i: usize = 0;
    while i < n
        invariant
            i <= n,
            n == old(coins)@.len(),
            coins@.len() == n,
            start == *old(src),
            start.modelled() ==> {
                &&& src.modelled()
                &&& forall|j: int| 0 <= j < i ==> #[trigger] coins@[j] == heads(start.peek(j as nat))
                &&& forall|k: nat| #[trigger] src.peek(k) == start.peek(k + i as nat)
            },
        decreases n - i,
    {
        let d = src.next_u32();
        coins[i] = d % 2 == 1;
        proof {
            if start.modelled() {
                assert(d == start.peek(i as nat));
                assert forall|k: nat| #[trigger] src.peek(k) == start.peek(k + (i + 1) as nat) by {
                    assert(k + 1 + i as nat == k + (i + 1) as nat);
                }
            }
        }
        i = i + 1;
    }
}

/// The motion and phases of a two-particle collision on a strip of `N`
/// pixels. The particles start at the two ends and move toward each other;
/// when they meet they turn round, and with shattering enabled the motion
/// stops and an explosion begins, which lasts until [`Collision::reset`].
/// Without shattering the pair is replaced once both have left the strip.
pub struct Collision<const N: usize> {
    first: Particle,
    second: Particle,
    shatter: bool,
    shattered: bool,
}

/// Whether both particles have left the strip of `n` pixels, each past its
/// own far end.
pub open spec fn gone(a: Particle, b: Particle, n: nat) -> bool {
    a.position < 0 && b.position >= n
}

impl<const N: usize> Collision<N> {
    /// The first particle, which starts at pixel 0.
    pub closed spec fn first_view(&self) -> Particle {
        self.first
    }

    /// The second particle, which starts at the far end.
    pub closed spec fn second_view(&self) -> Particle {
        self.second
    }

    /// Whether a collision starts an explosion.
    pub closed spec fn shatter_view(&self) -> bool {
        self.shatter
    }

    /// Whether an explosion is under way.
    pub closed spec fn shattered_view(&self) -> bool {
        self.shattered
    }

    /// A fresh pair at the two ends of the strip: the first at pixel 0
    /// moving up, the second at pixel `N - 1` moving down, sized by the two
    /// draws. Shattering defaults to on.
    pub fn new(shatter: Option<bool>, size_draw0: u32, size_draw1: u32) -> (c: Self)
        requires
            N <= i32::MAX,
        ensures
            c.first_view() == Particle::new_spec(0, false, size_draw0),
            c.second_view() == Particle::new_spec((N - 1) as i32, true, size_draw1),
            c.shatter_view() == match shatter {
                Some(b) => b,
                None => true,
            },
            !c.shattered_view(),
    {
        let last: i32 = (N as i64 - 1) as i32;
        Collision {
            first: Particle::new(0, false, size_draw0),
            second: Particle::new(last, true, size_draw1),
            shatter: match shatter {
                Some(b) => b,
                None => true,
            },
            shattered: false,
        }
    }

    /// A fresh pair after an explosion or an exit: the first at pixel 0, the
    /// second at pixel `N - 1`.
    pub fn reset(&mut self, size_draw0: u32, size_draw1: u32)
        requires
            N <= i32::MAX,
        ensures
            final(self).first_view() == Particle::new_spec(0, false, size_draw0),
            final(self).second_view() == Particle::new_spec((N - 1) as i32, true, size_draw1),
            final(self).shatter_view() == old(self).shatter_view(),
            !final(self).shattered_view(),
    {
        let last: i32 = (N as i64 - 1) as i32;
        self.first = Particle::new(0, false, size_draw0);
        self.second = Particle::new(last, true, size_draw1);
        self.shattered = false;
    }

    /// Turns both particles round when they are within one pixel of each
    /// other, and says whether they were.
    pub fn check_for_collision(&mut self) -> (hit: bool)
        ensures
            hit == within_one(old(self).first_view().position, old(self).second_view().position),
            hit ==> final(self).first_view() == turned(old(self).first_view()),
            hit ==> final(self).second_view() == turned(old(self).second_view()),
            !hit ==> final(self).first_view() == old(self).first_view(),
            !hit ==> final(self).second_view() == old(self).second_view(),
            final(self).shatter_view() == old(self).shatter_view(),
            final(self).shattered_view() == old(self).shattered_view(),
    {
        match self.first.collide(&self.second) {
            Some((lhs, rhs)) => {
                self.first = lhs;
                self.second = rhs;
                true
            },
            None => false,
        }
    }

    /// Starts the explosion, when shattering is enabled; says whether it did.
    pub fn shatter(&mut self) -> (started: bool)
        ensures
            started == old(self).shatter_view(),
            final(self).shattered_view() == (old(self).shattered_view() || started),
            final(self).first_view() == old(self).first_view(),
            final(self).second_view() == old(self).second_view(),
            final(self).shatter_view() == old(self).shatter_view(),
    {
        if !self.shatter {
            return false;
        }
        self.shattered = true;
        true
    }

    /// One frame of motion: unless an explosion is under way, both particles
    /// step toward their direction, then meet-and-turn is tested, and a
    /// meeting starts the explosion when shattering is enabled. Says whether
    /// the particles met.
    pub fn advance(&mut self) -> (hit: bool)
        ensures
            old(self).shattered_view() ==> !hit && final(self).first_view() == old(
                self,
            ).first_view() && final(self).second_view() == old(self).second_view()
                && final(self).shattered_view(),
            !old(self).shattered_view() ==> {
                let a = stepped(old(self).first_view());
                let b = stepped(old(self).second_view());
                &&& hit == within_one(a.position, b.position)
                &&& final(self).first_view() == (if hit { turned(a) } else { a })
                &&& final(self).second_view() == (if hit { turned(b) } else { b })
                &&& final(self).shattered_view() == (hit && old(self).shatter_view())
            },
            final(self).shatter_view() == old(self).shatter_view(),
    {
        if self.shattered {
            return false;
        }
        self.first.step();
        self.second.step();
        let hit = self.check_for_collision();
        if hit {
            self.shatter();
        }
        hit
    }

    /// Whether both particles have left the strip, each past its far end.
    pub fn exited(&self) -> (r: bool)
        ensures
            r == gone(self.first_view(), self.second_view(), N as nat),
    {
        self.first.position < 0 && self.second.position >= 0 && self.second.position as usize >= N
    }

    /// Whether pixel `i` lights when the explosion starts, given its coin:
    /// the centre always does (in white), every other pixel on heads.
    pub fn shatter_lights(i: usize, coin: bool) -> (r: bool)
        ensures
            r == (i == N / 2 || coin),
    {
        i == N / 2 || coin
    }

    /// Whether an explosion is under way.
    pub fn is_shattered(&self) -> (r: bool)
        ensures
            r == self.shattered_view(),
    {
        self.shattered
    }

    /// The particle at `index` (0 or 1).
    pub fn particle(&self, index: usize) -> (p: Particle)
        requires
            index < 2,
        ensures
            p == (if index == 0 { self.first_view() } else { self.second_view() }),
    {
        if index == 0 { self.first } else { self.second }
    }

    /// Writes into `plan` which particle lights each pixel of the frame (at
    /// most `N` of them): `Some(0)` or `Some(1)`, the second where both do,
    /// `None` for dark. Entries past `N` are left as they were.
    pub fn move_particles(&self, plan: &mut [Option<usize>])
        ensures
            final(plan)@.len() == old(plan)@.len(),
            forall|j: int|
                0 <= j < old(plan)@.len() ==> #[trigger] final(plan)@[j] == if j < N {
                    owner(self.first_view(), self.second_view(), N as nat, j)
                } else {
                    old(plan)@[j]
                },
    {
        let len = if N < plan.len() { N } else { plan.len() };
        let mut j: usize = 0;
        while j < len
            invariant
                len <= N,
                len <= plan@.len(),
                j <= len,
                len == min_nat(N as nat, old(plan)@.len()),
                plan@.len() == old(plan)@.len(),
                forall|k: int|
                    0 <= k < j ==> #[trigger] plan@[k] == owner(
                        self.first_view(),
                        self.second_view(),
                        N as nat,
                        k,
                    ),
                forall|k: int| j <= k < plan@.len() ==> plan@[k] == old(plan)@[k],
            decreases len - j,
        {
            let o = if self.second.lights(N, j) {
                Some(1usize)
            } else if self.first.lights(N, j) {
                Some(0usize)
            } else {
                None
            };
            plan[j] = o;
            j = j + 1;
        }
    }
}

} // verus!
