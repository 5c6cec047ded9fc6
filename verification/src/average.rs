//! Fixed-capacity running average used to smooth frame and per-stage
//! timings. Samples are integer time measurements (for instance
//! microseconds); the caller divides `sum` by `len` for the mean, so the
//! mean itself is exact as the fraction `sum / len`.

use vstd::prelude::*;

verus! {

/// A circular buffer of the most recent `capacity` samples. The buffer
/// starts zero-filled, and every push overwrites the oldest sample, so the
/// window always holds exactly `capacity` values.
#[derive(Debug)]
pub struct RunningAverage {
    pub buf: Vec<u32>,
    pub index: usize,
}

/// Sum of a sequence of samples.
pub open spec fn seq_sum(s: Seq<u32>) -> int
    decreases s.len(),
{
    if s.len() == 0 {
        0
    } else {
        s[0] + seq_sum(s.skip(1))
    }
}

/// The state reached from window `h` after pushing every value of `vs` in
/// order; each push drops the oldest sample and appends the new one.
pub open spec fn push_all(h: Seq<u32>, vs: Seq<u32>) -> Seq<u32>
    decreases vs.len(),
{
    if vs.len() == 0 {
        h
    } else {
        push_all(h.skip(1).push(vs[0]), vs.skip(1))
    }
}

impl RunningAverage {
    /// The buffer never outgrows this, so a sum of a full window always
    /// fits in a `u64`.
    pub open spec fn max_capacity() -> int {
        0xFFFF_FFFF
    }

    pub open spec fn well_formed(self) -> bool {
        &&& 1 <= self.buf@.len() <= Self::max_capacity()
        &&& self.index < self.buf@.len()
    }

    /// The sample window in chronological order, oldest first.
    pub open spec fn window(self) -> Seq<u32> {
        self.buf@.skip(self.index as int) + self.buf@.take(self.index as int)
    }

    pub open spec fn capacity(self) -> int {
        self.buf@.len() as int
    }

    /// A zero-filled window of `capacity` samples.
    pub fn new(capacity: usize) -> (r: Self)
        requires
            1 <= capacity <= Self::max_capacity(),
        ensures
            r.well_formed(),
            r.capacity() == capacity,
            r.window() =~= Seq::new(capacity as nat, |i: int| 0u32),
    {
        let buf: Vec<u32> = vec![0u32; capacity];
        let r = RunningAverage { buf, index: 0 };
        proof {
            assert(r.buf@.skip(0) =~= r.buf@);
            assert(r.window() =~= r.buf@);
        }
        r
    }

    /// Records a sample: the oldest value leaves the window and `v` enters
    /// at the newest end.
    pub fn push(&mut self, v: u32)
        requires
            old(self).well_formed(),
        ensures
            final(self).well_formed(),
            final(self).capacity() == old(self).capacity(),
            final(self).window() == old(self).window().skip(1).push(v),
    {
        let ghost pre = *self;
        let len = self.buf.len();
        self.buf.set(self.index, v);
        if self.index + 1 == len {
            self.index = 0;
        } else {
            self.index = self.index + 1;
        }
        proof {
            let i = pre.index as int;
            let k = pre.buf@.len() as int;
            let b = pre.buf@;
            let nb = self.buf@;
            assert(nb == b.update(i, v));
            if i + 1 == k {
                assert(self.window() =~= nb);
                assert(pre.window().skip(1).push(v) =~= nb);
            } else {
                assert(self.window() =~= nb.skip(i + 1) + nb.take(i + 1));
                assert(pre.window().skip(1).push(v) =~= nb.skip(i + 1) + nb.take(i + 1));
            }
        }
    }

    /// The number of samples in the window, which is always the capacity.
    pub fn len(&self) -> (r: usize)
        requires
            self.well_formed(),
        ensures
            r == self.window().len(),
            r == self.capacity(),
    {
        proof {
            assert(self.window().len() == self.buf@.len());
        }
        self.buf.len()
    }

    /// The exact sum of the window; the mean of the window is this divided
    /// by `len`.
    pub fn sum(&self) -> (r: u64)
        requires
            self.well_formed(),
        ensures
            r == seq_sum(self.window()),
    {
        let n = self.buf.len();
        let mut total: u64 = 0;
        let mut i: usize = 0;
        while i < n
            invariant
                i <= n,
                n == self.buf@.len(),
                n <= Self::max_capacity(),
                total == seq_sum(self.buf@.take(i as int)),
                total <= i * 0xFFFF_FFFF,
            decreases n - i,
        {
            proof {
                lemma_sum_take_step(self.buf@, i as int);
            }
            total = total + self.buf[i] as u64;
            i = i + 1;
        }
        proof {
            assert(self.buf@.take(n as int) =~= self.buf@);
            lemma_sum_rotation(self.buf@, self.index as int);
        }
        total
    }
}

/// Summing one more element extends the sum of a prefix.
proof fn lemma_sum_take_step(s: Seq<u32>, i: int)
    requires
        0 <= i < s.len(),
    ensures
        seq_sum(s.take(i + 1)) == seq_sum(s.take(i)) + s[i],
{
    lemma_sum_concat(s.take(i), seq![s[i]]);
    assert(s.take(i + 1) =~= s.take(i) + seq![s[i]]);
    assert(seq_sum(seq![s[i]]) == s[i] + seq_sum(seq![s[i]].skip(1)));
    assert(seq![s[i]].skip(1) =~= Seq::<u32>::empty());
}

/// The sum of a concatenation is the sum of the parts.
proof fn lemma_sum_concat(a: Seq<u32>, b: Seq<u32>)
    ensures
        seq_sum(a + b) == seq_sum(a) + seq_sum(b),
    decreases a.len(),
{
    if a.len() == 0 {
        assert(a + b =~= b);
    } else {
        lemma_sum_concat(a.skip(1), b);
        assert((a + b).skip(1) =~= a.skip(1) + b);
        assert(seq_sum(a + b) == (a + b)[0] + seq_sum((a + b).skip(1)));
    }
}

/// Rotating a sequence does not change its sum, so the sum over the stored
/// buffer equals the sum over the chronological window.
proof fn lemma_sum_rotation(s: Seq<u32>, i: int)
    requires
        0 <= i <= s.len(),
    ensures
        seq_sum(s.skip(i) + s.take(i)) == seq_sum(s),
{
    lemma_sum_concat(s.skip(i), s.take(i));
    lemma_sum_concat(s.take(i), s.skip(i));
    assert(s.take(i) + s.skip(i) =~= s);
}

/// One recorded sample is one step of `push_all`: what `push` leaves
/// behind is the window with its oldest value dropped and the sample
/// appended.
pub proof fn lemma_push_one(h: Seq<u32>, v: u32)
    ensures
        push_all(h, seq![v]) == h.skip(1).push(v),
{
    let s = seq![v];
    assert(s.skip(1) =~= Seq::<u32>::empty());
    assert(s[0] == v);
    assert(push_all(h, s) == push_all(h.skip(1).push(v), s.skip(1)));
    assert(push_all(h.skip(1).push(v), Seq::<u32>::empty()) == h.skip(1).push(v));
}

/// Filling a window with at most a window's worth of values keeps the old
/// tail and appends the new values: from window `h`, pushing `vs` with
/// `vs.len() <= h.len()` leaves `h.skip(vs.len()) + vs`.
pub proof fn lemma_push_all_partial(h: Seq<u32>, vs: Seq<u32>)
    requires
        vs.len() <= h.len(),
    ensures
        push_all(h, vs) == h.skip(vs.len() as int) + vs,
    decreases vs.len(),
{
    if vs.len() == 0 {
        assert(h.skip(0) + vs =~= h);
    } else {
        let h1 = h.skip(1).push(vs[0]);
        lemma_push_all_partial(h1, vs.skip(1));
        assert(h1.skip(vs.len() - 1) =~= h.skip(vs.len() as int).push(vs[0]));
        assert(h1.skip(vs.len() - 1) + vs.skip(1) =~= h.skip(vs.len() as int) + vs);
    }
}

/// A window of capacity `K` retains only the most recent `K` samples: after
/// pushing a run of values at least as long as the window, the window holds
/// exactly the last `K` of them, so the mean is taken over those alone.
pub proof fn lemma_push_all_retains_last(h: Seq<u32>, vs: Seq<u32>)
    requires
        h.len() >= 1,
        vs.len() >= h.len(),
    ensures
        push_all(h, vs) == vs.skip(vs.len() - h.len()),
    decreases vs.len(),
{
    if vs.len() == h.len() {
        lemma_push_all_partial(h, vs);
        assert(h.skip(vs.len() as int) + vs =~= vs);
    } else {
        let h1 = h.skip(1).push(vs[0]);
        lemma_push_all_retains_last(h1, vs.skip(1));
        assert(vs.skip(1).skip(vs.len() - 1 - h.len()) =~= vs.skip(vs.len() - h.len()));
    }
}

} // verus!
