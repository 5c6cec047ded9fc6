//! Small sequence utilities: interlacing two vertex streams into one and
//! splitting one stream back into its two halves.

use vstd::prelude::*;

verus! {

/// The interlacing of `a` and `b`: elements are taken alternately from `a`
/// and `b` until one side runs out, and the remainder of the longer side is
/// appended in its original order.
pub open spec fn interlace_spec<T>(a: Seq<T>, b: Seq<T>) -> Seq<T>
    decreases a.len(),
{
    if a.len() == 0 {
        b
    } else if b.len() == 0 {
        a
    } else {
        seq![a[0], b[0]] + interlace_spec(a.skip(1), b.skip(1))
    }
}

/// The elements of `s` at even positions, in order.
pub open spec fn evens_spec<T>(s: Seq<T>) -> Seq<T> {
    Seq::new((s.len() + 1) / 2, |i: int| s[2 * i])
}

/// The elements of `s` at odd positions, in order.
pub open spec fn odds_spec<T>(s: Seq<T>) -> Seq<T> {
    Seq::new(s.len() / 2, |i: int| s[2 * i + 1])
}

/// Merges two streams by alternating their elements; the tail of the longer
/// stream is appended unchanged.
pub fn interlace<T: Copy>(first: &[T], second: &[T]) -> (out: Vec<T>)
    ensures
        out@ == interlace_spec(first@, second@),
{
    let mut out: Vec<T> = Vec::new();
    let a_len = first.len();
    let b_len = second.len();
    let common = if a_len < b_len {
        a_len
    } else {
        b_len
    };
    proof {
        assert(first@.skip(0) =~= first@);
        assert(second@.skip(0) =~= second@);
        assert(out@ + interlace_spec(first@, second@) =~= interlace_spec(first@, second@));
    }
    let mut i: usize = 0;
    while i < common
        invariant
            i <= common,
            common <= a_len && common <= b_len,
            a_len == first@.len() && b_len == second@.len(),
            interlace_spec(first@, second@) == out@ + interlace_spec(
                first@.skip(i as int),
                second@.skip(i as int),
            ),
        decreases common - i,
    {
        let ghost out0 = out@;
        proof {
            let sa = first@.skip(i as int);
            let sb = second@.skip(i as int);
            assert(sa.skip(1) =~= first@.skip(i + 1));
            assert(sb.skip(1) =~= second@.skip(i + 1));
            assert(sa[0] == first@[i as int] && sb[0] == second@[i as int]);
            assert(interlace_spec(sa, sb) == seq![first@[i as int], second@[i as int]]
                + interlace_spec(first@.skip(i + 1), second@.skip(i + 1)));
        }
        out.push(first[i]);
        out.push(second[i]);
        proof {
            assert(out@ + interlace_spec(first@.skip(i + 1), second@.skip(i + 1)) =~= out0
                + interlace_spec(first@.skip(i as int), second@.skip(i as int)));
        }
        i = i + 1;
    }
    proof {
        lemma_interlace_one_empty(first@.skip(common as int), second@.skip(common as int));
        if a_len < b_len {
            assert(first@.skip(common as int).len() == 0);
            assert(out@ + first@.skip(common as int) + second@.skip(common as int) =~= out@
                + interlace_spec(first@.skip(common as int), second@.skip(common as int)));
        } else {
            assert(second@.skip(common as int).len() == 0);
            assert(out@ + first@.skip(common as int) + second@.skip(common as int) =~= out@
                + interlace_spec(first@.skip(common as int), second@.skip(common as int)));
        }
    }
    let mut j: usize = common;
    while j < a_len
        invariant
            common <= j <= a_len,
            a_len == first@.len() && b_len == second@.len(),
            interlace_spec(first@, second@) == out@ + first@.skip(j as int) + second@.skip(
                common as int,
            ),
        decreases a_len - j,
    {
        let ghost out0 = out@;
        out.push(first[j]);
        proof {
            assert(out@ + first@.skip(j + 1) =~= out0 + first@.skip(j as int));
            assert(out@ + first@.skip(j + 1) + second@.skip(common as int) =~= out0 + first@.skip(
                j as int,
            ) + second@.skip(common as int));
        }
        j = j + 1;
    }
    proof {
        assert(first@.skip(a_len as int).len() == 0);
        assert(out@ + second@.skip(common as int) =~= out@ + first@.skip(a_len as int)
            + second@.skip(common as int));
    }
    let mut k: usize = common;
    while k < b_len
        invariant
            common <= k <= b_len,
            a_len == first@.len() && b_len == second@.len(),
            interlace_spec(first@, second@) == out@ + second@.skip(k as int),
        decreases b_len - k,
    {
        let ghost out0 = out@;
        out.push(second[k]);
        proof {
            assert(out@ + second@.skip(k + 1) =~= out0 + second@.skip(k as int));
        }
        k = k + 1;
    }
    proof {
        assert(out@ + second@.skip(b_len as int) =~= out@);
    }
    out
}

/// Interlacing is the identity on the non-empty side once the other side is
/// exhausted.
proof fn lemma_interlace_one_empty<T>(a: Seq<T>, b: Seq<T>)
    requires
        a.len() == 0 || b.len() == 0,
    ensures
        a.len() == 0 ==> interlace_spec(a, b) == b,
        b.len() == 0 ==> interlace_spec(a, b) == a,
{
}

/// Splits a stream into the elements at even positions and the elements at
/// odd positions, each in their original order.
pub fn deinterlace<T: Copy>(slice: &[T]) -> (out: (Vec<T>, Vec<T>))
    ensures
        out.0@ == evens_spec(slice@),
        out.1@ == odds_spec(slice@),
{
    let mut evens: Vec<T> = Vec::new();
    let mut odds: Vec<T> = Vec::new();
    let n = slice.len();
    let mut i: usize = 0;
    while i < n
        invariant
            i <= n,
            n == slice@.len(),
            evens@ =~= Seq::new(((i + 1) / 2) as nat, |k: int| slice@[2 * k]),
            odds@ =~= Seq::new((i / 2) as nat, |k: int| slice@[2 * k + 1]),
        decreases n - i,
    {
        if i % 2 == 0 {
            evens.push(slice[i]);
        } else {
            odds.push(slice[i]);
        }
        i = i + 1;
        proof {
            assert(evens@ =~= Seq::new(((i + 1) / 2) as nat, |k: int| slice@[2 * k]));
            assert(odds@ =~= Seq::new((i / 2) as nat, |k: int| slice@[2 * k + 1]));
        }
    }
    proof {
        assert(evens@ =~= evens_spec(slice@));
        assert(odds@ =~= odds_spec(slice@));
    }
    (evens, odds)
}

/// Splitting an interlaced stream recovers the two originals: whenever the
/// first stream is as long as the second or one element longer (so that the
/// alternation has no trailing run of the second), deinterlacing the
/// interlacing of `a` and `b` gives back exactly `a` and `b`.
pub proof fn lemma_interlace_round_trip<T>(a: Seq<T>, b: Seq<T>)
    requires
        b.len() <= a.len() <= b.len() + 1,
    ensures
        evens_spec(interlace_spec(a, b)) == a,
        odds_spec(interlace_spec(a, b)) == b,
    decreases a.len(),
{
    if a.len() == 0 {
        assert(evens_spec(interlace_spec(a, b)) =~= a);
        assert(odds_spec(interlace_spec(a, b)) =~= b);
    } else if b.len() == 0 {
        assert(interlace_spec(a, b) == a);
        assert(evens_spec(a) =~= a);
        assert(odds_spec(a) =~= b);
    } else {
        let at = a.skip(1);
        let bt = b.skip(1);
        lemma_interlace_round_trip(at, bt);
        let wt = interlace_spec(at, bt);
        let w = interlace_spec(a, b);
        assert(w == seq![a[0], b[0]] + wt);
        assert(w.len() == 2 + wt.len());
        assert(evens_spec(w) =~= a) by {
            assert(wt.len() == at.len() + bt.len());
            assert forall|i: int| 0 <= i < evens_spec(w).len() implies evens_spec(w)[i]
                == a[i] by {
                if i == 0 {
                    assert(w[0] == a[0]);
                } else {
                    assert(w[2 * i] == wt[2 * (i - 1)]);
                    assert(evens_spec(wt)[i - 1] == wt[2 * (i - 1)]);
                    assert(at[i - 1] == a[i]);
                }
            }
        }
        assert(odds_spec(w) =~= b) by {
            assert(wt.len() == at.len() + bt.len());
            assert forall|i: int| 0 <= i < odds_spec(w).len() implies odds_spec(w)[i] == b[i] by {
                if i == 0 {
                    assert(w[1] == b[0]);
                } else {
                    assert(w[2 * i + 1] == wt[2 * (i - 1) + 1]);
                    assert(odds_spec(wt)[i - 1] == wt[2 * (i - 1) + 1]);
                    assert(bt[i - 1] == b[i]);
                }
            }
        }
    }
}

} // verus!
