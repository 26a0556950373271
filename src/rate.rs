use vstd::prelude::*;

verus! {

/// The answer of the rate limiter to one admission request.
#[derive(Clone, Copy, Debug, PartialEq, Eq, Structural)]
pub enum Admission {
    /// A permit was granted at the requested time.
    Granted,
    /// No permit is free; ask again at this time.
    RetryAt(u64),
}

/// Whether `h` never decreases.
pub open spec fn sorted(h: Seq<u64>) -> bool {
    forall|i: int, j: int| 0 <= i <= j < h.len() ==> h[i] <= h[j]
}

/// Whether any `m + 1` consecutive admissions in `h` span at least `w`.
pub open spec fn spaced(h: Seq<u64>, m: nat, w: nat) -> bool {
    forall|i: int| 0 <= i && i + m < h.len() ==> h[i] + w <= #[trigger] h[i + m]
}

/// A sliding-window rate limiter: at most `max_permits` admissions within any
/// `window` time units. Times are readings of a monotonic clock.
pub struct RateLimiter {
    max_permits: usize,
    window: u64,
    /// Times of the latest admissions, oldest first, at most `max_permits` of them.
    recent: Vec<u64>,
    /// Times of every admission so far.
    history: Ghost<Seq<u64>>,
}

impl RateLimiter {
    /// The limiter's bookkeeping is consistent and no window holds more than
    /// `max_permits` admissions.
    pub closed spec fn wf(&self) -> bool {
        &&& self.max_permits >= 1
        &&& self.recent@.len() <= self.max_permits
        &&& self.recent@.len() <= self.history@.len()
        &&& self.recent@ == self.history@.skip(self.history@.len() - self.recent@.len())
        &&& (self.recent@.len() < self.max_permits ==> self.recent@.len() == self.history@.len())
        &&& sorted(self.history@)
        &&& spaced(self.history@, self.max_permits as nat, self.window as nat)
    }

    /// The times of every admission granted so far, in order.
    pub closed spec fn admitted(&self) -> Seq<u64> {
        self.history@
    }

    /// The most admissions allowed within one window.
    pub closed spec fn permits(&self) -> nat {
        self.max_permits as nat
    }

    /// The window length.
    pub closed spec fn window_len(&self) -> nat {
        self.window as nat
    }

    /// A limiter that admits at most `max_permits` operations within any
    /// `window`; `None` when `max_permits` is zero, since nothing could ever be admitted.
    pub fn new(max_permits: usize, window: u64) -> (r: Option<Self>)
        ensures
            max_permits == 0 <==> r is None,
            r matches Some(l) ==> l.wf() && l.admitted() == Seq::<u64>::empty() && l.permits()
                == max_permits && l.window_len() == window,
    {
        if max_permits == 0 {
            return None;
        }
        let l = RateLimiter { max_permits, window, recent: Vec::new(), history: Ghost(Seq::empty()) };
        assert(l.recent@ =~= l.history@.skip(0));
        Some(l)
    }

    /// Asks for a permit at time `now`. A permit is granted when fewer than
    /// `max_permits` admissions happened within the window that ends at `now`;
    /// otherwise the answer is the time at which the oldest of them leaves it
    /// (or, for a clock reading older than the last admission, that admission's time).
    pub fn acquire(&mut self, now: u64) -> (r: Admission)
        requires
            old(self).wf(),
        ensures
            final(self).wf(),
            final(self).permits() == old(self).permits(),
            final(self).window_len() == old(self).window_len(),
            ({
                let h = old(self).admitted();
                let m = old(self).permits();
                let w = old(self).window_len();
                let free = (h.len() == 0 || h.last() <= now) && (h.len() < m || h[h.len() - m] + w
                    <= now);
                &&& free ==> r == Admission::Granted && final(self).admitted() == h.push(now)
                &&& !free ==> final(self).admitted() == h && r == Admission::RetryAt(
                    if h.len() > 0 && now < h.last() {
                        h.last()
                    } else if h[h.len() - m] + w <= u64::MAX {
                        (h[h.len() - m] + w) as u64
                    } else {
                        u64::MAX
                    },
                )
            }),
    {
        let n = self.recent.len();
        if n > 0 && now < self.recent[n - 1] {
            proof {
                assert(self.recent@[n - 1] == self.history@.last());
            }
            let t = self.recent[n - 1];
            return Admission::RetryAt(t);
        }
        if n < self.max_permits {
            self.recent.push(now);
            proof {
                let h = self.history@;
                self.history@ = h.push(now);
                assert(self.recent@ =~= self.history@.skip(self.history@.len() - self.recent@.len()));
                if n > 0 {
                    assert(h.last() == h[h.len() - 1]);
                }
                assert(sorted(self.history@));
            }
            return Admission::Granted;
        }
        let oldest = self.recent[0];
        proof {
            assert(oldest == self.history@[self.history@.len() - self.max_permits]);
        }
        if now - oldest >= self.window {
            self.recent.remove(0);
            self.recent.push(now);
            proof {
                let h = self.history@;
                let m = self.max_permits as int;
                self.history@ = h.push(now);
                let g = self.history@;
                assert(self.recent@ =~= g.skip(g.len() - self.recent@.len()));
                assert(h.last() == h[h.len() - 1]);
                assert(sorted(g));
                assert forall|i: int| 0 <= i && i + m < g.len() implies g[i] + self.window <= #[trigger] g[i + m] by {
                    if i + m == g.len() - 1 {
                        assert(h[i] <= h[h.len() - m]);
                    } else {
                        assert(g[i] == h[i] && g[i + m] == h[i + m]);
                    }
                }
            }
            Admission::Granted
        } else {
            if self.window <= u64::MAX - oldest {
                Admission::RetryAt(oldest + self.window)
            } else {
                Admission::RetryAt(u64::MAX)
            }
        }
    }
}

/// Never do more than `permits` admissions fall within one window: from any
/// admission, fewer than `window` time units later, at most `permits - 1` more follow.
pub proof fn lemma_window_holds_at_most_permits(l: RateLimiter, i: int, j: int)
    requires
        l.wf(),
        0 <= i < j < l.admitted().len(),
        l.admitted()[j] < l.admitted()[i] + l.window_len(),
    ensures
        j - i < l.permits(),
{
    let h = l.history@;
    let m = l.max_permits as int;
    if j - i >= m {
        assert(h[i] + l.window <= h[i + m]);
        assert(h[i + m] <= h[j]);
    }
}

/// Admitting twice the permits takes at least one full window: the admission
/// that follows the first `permits` comes a window or more after the first.
pub proof fn lemma_burst_spans_window(l: RateLimiter)
    requires
        l.wf(),
        l.admitted().len() > l.permits(),
    ensures
        l.admitted()[0] + l.window_len() <= l.admitted()[l.permits() as int],
{
    assert(l.history@[0] + l.window <= l.history@[0 + l.max_permits]);
}

} // verus!
