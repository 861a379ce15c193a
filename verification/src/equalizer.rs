//! The two-pass histogram equalizer over escape-value keys.
//!
//! The escape field reaches this module as one integer key per pixel. Key
//! `0` is the interior sentinel; an escaped pixel carries a key `>= 1`,
//! and the rendering layer's encoding must order keys exactly as it orders
//! smooth escape values. Only that order matters here: the equalizer sorts
//! a copy of the field, counts the interior prefix, finds each pixel's
//! rank by binary search, and returns the pixel's percentile among the
//! escaping pixels as an exact fraction `numerator / denominator` in
//! `[0, 1)`. The monotone grey ramp applied to that percentile is the
//! rendering layer's business.

use vstd::prelude::*;

use crate::error::FractalError;

verus! {

/// Ascending order, the order the rank lookup searches in.
pub open spec fn sorted(s: Seq<u64>) -> bool {
    forall|i: int, j: int| 0 <= i <= j < s.len() ==> s[i] <= s[j]
}

/// How many entries of `s` are strictly below `k`. Rank arithmetic is
/// counting: a key's rank in the sorted copy is the number of entries
/// below it, and the interior count is the number of entries below `1`.
pub open spec fn count_below(s: Seq<u64>, k: u64) -> nat
    decreases s.len(),
{
    if s.len() == 0 {
        0
    } else {
        count_below(s.drop_last(), k) + (if s.last() < k {
            1nat
        } else {
            0nat
        })
    }
}

/// Number of interior pixels: entries equal to the sentinel key `0`.
pub open spec fn interior_count(s: Seq<u64>) -> nat {
    count_below(s, 1)
}

/// The rank the equalizer assigns from a raw count `c` of smaller entries:
/// clamped to the last slot of the field, then measured from the end of
/// the interior prefix; ranks inside that prefix collapse to zero.
pub open spec fn clamped_rank(c: int, interior: int, n: int) -> int {
    let ix = if c <= n - 1 {
        c
    } else {
        n - 1
    };
    if ix < interior {
        0
    } else {
        ix - interior
    }
}

/// The percentile numerator `equalize` owes the pixel holding `key` in the
/// field `f`; order-independent, so sorting the field cannot change it.
pub open spec fn rank_in_field(f: Seq<u64>, key: u64) -> int {
    clamped_rank(count_below(f, key) as int, interior_count(f) as int, f.len() as int)
}

/// Appending one entry raises a count by one exactly when the entry is
/// below the threshold.
proof fn lemma_count_below_push(s: Seq<u64>, v: u64, k: u64)
    ensures
        count_below(s.push(v), k) == count_below(s, k) + (if v < k {
            1nat
        } else {
            0nat
        }),
{
    assert(s.push(v).drop_last() =~= s);
}

/// Counts add up across concatenation.
proof fn lemma_count_below_concat(a: Seq<u64>, b: Seq<u64>, k: u64)
    ensures
        count_below(a + b, k) == count_below(a, k) + count_below(b, k),
    decreases b.len(),
{
    if b.len() == 0 {
        assert(a + b =~= a);
    } else {
        lemma_count_below_concat(a, b.drop_last(), k);
        assert((a + b).drop_last() =~= a + b.drop_last());
        assert((a + b).last() == b.last());
    }
}

/// Inserting one entry anywhere raises a count by one exactly when the
/// entry is below the threshold.
proof fn lemma_count_below_insert(s: Seq<u64>, p: int, v: u64, k: u64)
    requires
        0 <= p <= s.len(),
    ensures
        count_below(s.insert(p, v), k) == count_below(s, k) + (if v < k {
            1nat
        } else {
            0nat
        }),
{
    let front = s.subrange(0, p);
    let back = s.subrange(p, s.len() as int);
    assert(s =~= front + back);
    lemma_count_below_concat(front, back, k);
    lemma_count_below_concat(front.push(v), back, k);
    lemma_count_below_push(front, v, k);
}

/// A count never exceeds the length counted over.
proof fn lemma_count_below_le_len(s: Seq<u64>, k: u64)
    ensures
        count_below(s, k) <= s.len(),
    decreases s.len(),
{
    if s.len() > 0 {
        lemma_count_below_le_len(s.drop_last(), k);
    }
}

/// When every entry is below the threshold, the count is the full length.
proof fn lemma_count_below_all(s: Seq<u64>, k: u64)
    requires
        forall|i: int| 0 <= i < s.len() ==> s[i] < k,
    ensures
        count_below(s, k) == s.len(),
    decreases s.len(),
{
    if s.len() > 0 {
        assert(forall|i: int| 0 <= i < s.drop_last().len() ==> s.drop_last()[i] == s[i]);
        lemma_count_below_all(s.drop_last(), k);
    }
}

/// When no entry is below the threshold, the count is zero.
proof fn lemma_count_below_none(s: Seq<u64>, k: u64)
    requires
        forall|i: int| 0 <= i < s.len() ==> s[i] >= k,
    ensures
        count_below(s, k) == 0,
    decreases s.len(),
{
    if s.len() > 0 {
        assert(forall|i: int| 0 <= i < s.drop_last().len() ==> s.drop_last()[i] == s[i]);
        lemma_count_below_none(s.drop_last(), k);
    }
}

/// In a sequence split at `r` into entries below `k` and entries at or
/// above it, exactly `r` entries are below `k`.
proof fn lemma_count_below_split(s: Seq<u64>, k: u64, r: int)
    requires
        0 <= r <= s.len(),
        forall|i: int| 0 <= i < r ==> s[i] < k,
        forall|i: int| r <= i < s.len() ==> s[i] >= k,
    ensures
        count_below(s, k) == r,
{
    let front = s.subrange(0, r);
    let back = s.subrange(r, s.len() as int);
    assert(s =~= front + back);
    lemma_count_below_concat(front, back, k);
    lemma_count_below_all(front, k);
    lemma_count_below_none(back, k);
}

/// An entry below the threshold makes the count positive.
proof fn lemma_count_below_pos(s: Seq<u64>, k: u64, w: int)
    requires
        0 <= w < s.len(),
        s[w] < k,
    ensures
        1 <= count_below(s, k),
    decreases s.len(),
{
    if w == s.len() - 1 {
    } else {
        assert(s.drop_last()[w] == s[w]);
        lemma_count_below_pos(s.drop_last(), k, w);
    }
}

/// Ascending copy of the field with the same key counts: the sorted
/// rank structure the equalizer's stage B searches in.
pub fn sort_field(field: &Vec<u64>) -> (s: Vec<u64>)
    ensures
        s@.len() == field@.len(),
        sorted(s@),
        forall|k: u64| #[trigger] count_below(s@, k) == count_below(field@, k),
{
    let n = field.len();
    let mut out: Vec<u64> = Vec::new();
    let mut idx: usize = 0;
    while idx < n
        invariant
            n == field@.len(),
            idx <= n,
            out@.len() == idx,
            sorted(out@),
            forall|k: u64| #[trigger] count_below(out@, k) == count_below(
                field@.subrange(0, idx as int),
                k,
            ),
        decreases n - idx,
    {
        let v = field[idx];
        let pos = lower_bound(&out, v);
        let ghost prev = out@;
        out.insert(pos, v);
        proof {
            prev.insert_ensures(pos as int, v);
            assert forall|k: u64| #[trigger] count_below(out@, k) == count_below(
                field@.subrange(0, idx as int + 1),
                k,
            ) by {
                lemma_count_below_insert(prev, pos as int, v, k);
                assert(field@.subrange(0, idx as int + 1).drop_last() =~= field@.subrange(
                    0,
                    idx as int,
                ));
                assert(field@.subrange(0, idx as int + 1).last() == v);
            }
            assert forall|i: int, j: int| 0 <= i <= j < out@.len() implies out@[i] <= out@[j] by {
                if j < pos {
                    assert(out@[i] == prev[i] && out@[j] == prev[j]);
                } else if i > pos {
                    assert(out@[i] == prev[i - 1] && out@[j] == prev[j - 1]);
                } else if i < pos && j == pos {
                    assert(out@[i] == prev[i] && out@[j] == v);
                } else if i == pos && j > pos {
                    assert(out@[i] == v && out@[j] == prev[j - 1]);
                } else if i < pos && j > pos {
                    assert(out@[i] == prev[i] && out@[j] == prev[j - 1]);
                }
            }
        }
        idx += 1;
    }
    proof {
        assert(field@.subrange(0, n as int) =~= field@);
    }
    out
}

/// First slot of a sorted field whose key is not below `key`; equally, the
/// number of keys below `key`. This is the rank structure's binary search.
pub fn lower_bound(s: &Vec<u64>, key: u64) -> (r: usize)
    requires
        sorted(s@),
    ensures
        r <= s@.len(),
        forall|i: int| 0 <= i < r ==> s@[i] < key,
        forall|i: int| r <= i < s@.len() ==> s@[i] >= key,
        r == count_below(s@, key),
{
    let mut lo: usize = 0;
    let mut hi: usize = s.len();
    while lo < hi
        invariant
            lo <= hi <= s@.len(),
            sorted(s@),
            forall|i: int| 0 <= i < lo ==> s@[i] < key,
            forall|i: int| hi <= i < s@.len() ==> s@[i] >= key,
        decreases hi - lo,
    {
        let mid = lo + (hi - lo) / 2;
        if s[mid] < key {
            lo = mid + 1;
        } else {
            hi = mid;
        }
    }
    proof {
        lemma_count_below_split(s@, key, lo as int);
    }
    lo
}

/// Rank of `key` within the escaping pixels of a sorted field: binary
/// search for the key, clamp the slot to the last one, zero anything
/// landing in the interior prefix, then measure from the prefix's end.
pub fn rank_lookup(sorted_field: &Vec<u64>, interior: usize, key: u64) -> (r: usize)
    requires
        sorted(sorted_field@),
        1 <= sorted_field@.len(),
        interior as int == interior_count(sorted_field@),
    ensures
        r as int == clamped_rank(
            count_below(sorted_field@, key) as int,
            interior as int,
            sorted_field@.len() as int,
        ),
{
    let n = sorted_field.len();
    proof {
        lemma_count_below_le_len(sorted_field@, 1);
    }
    let found = lower_bound(sorted_field, key);
    let ix = if found <= n - 1 {
        found
    } else {
        n - 1
    };
    if ix < interior {
        0
    } else {
        ix - interior
    }
}

/// The equalized field in exact form: pixel `j`'s percentile among the
/// escaping pixels is `numerators[j] / denominator`, a fraction in
/// `[0, 1)`. Interior pixels and the lowest escape rank sit at zero; the
/// rendering layer maps each fraction through its monotone grey ramp.
#[derive(Clone, Debug)]
pub struct IntensityField {
    pub numerators: Vec<usize>,
    pub denominator: usize,
}

/// Law: equalization is deterministic. The rank contract leaves no slack:
/// any two numerator fields that both assign every pixel its rank in the
/// same escape field are identical.
pub proof fn lemma_equalize_deterministic(f: Seq<u64>, a: Seq<usize>, b: Seq<usize>)
    requires
        a.len() == f.len(),
        b.len() == f.len(),
        forall|j: int| 0 <= j < f.len() ==> #[trigger] a[j] as int == rank_in_field(f, f[j]),
        forall|j: int| 0 <= j < f.len() ==> #[trigger] b[j] as int == rank_in_field(f, f[j]),
    ensures
        a == b,
{
    assert(a =~= b);
}

/// Histogram equalization over a field of escape keys: sort a copy, count
/// the interior prefix, and give each pixel its clamped rank among the
/// escaping pixels. A field of nothing but interior pixels has no
/// normalizer and is rejected; nothing else is.
pub fn equalize(field: &Vec<u64>) -> (r: Result<IntensityField, FractalError>)
    ensures
        match r {
            Ok(out) => {
                &&& interior_count(field@) < field@.len()
                &&& out.denominator == field@.len() - interior_count(field@)
                &&& 1 <= out.denominator
                &&& out.numerators@.len() == field@.len()
                &&& forall|j: int|
                    0 <= j < field@.len() ==> #[trigger] out.numerators@[j] as int == rank_in_field(
                        field@,
                        field@[j],
                    )
                &&& forall|j: int|
                    0 <= j < field@.len() ==> #[trigger] out.numerators@[j] < out.denominator
                &&& forall|j: int|
                    0 <= j < field@.len() && field@[j] == 0 ==> #[trigger] out.numerators@[j] == 0
            },
            Err(e) => {
                &&& interior_count(field@) == field@.len()
                &&& e == FractalError::DegenerateHistogram
            },
        },
{
    let n = field.len();
    let sorted_copy = sort_field(field);
    proof {
        lemma_count_below_le_len(sorted_copy@, 1);
    }
    let mut interior: usize = 0;
    while interior < n && sorted_copy[interior] == 0
        invariant
            n == field@.len(),
            sorted_copy@.len() == n,
            sorted(sorted_copy@),
            interior <= n,
            forall|i: int| 0 <= i < interior ==> sorted_copy@[i] == 0,
        decreases n - interior,
    {
        interior += 1;
    }
    proof {
        assert forall|i: int| interior <= i < n implies sorted_copy@[i] >= 1 by {
            if interior < n {
                assert(sorted_copy@[interior as int] <= sorted_copy@[i]);
            }
        }
        lemma_count_below_split(sorted_copy@, 1, interior as int);
        assert(interior_count(field@) == interior);
    }
    if interior == n {
        return Err(FractalError::DegenerateHistogram);
    }
    let denominator = n - interior;
    let mut numerators: Vec<usize> = Vec::new();
    let mut j: usize = 0;
    while j < n
        invariant
            n == field@.len(),
            sorted_copy@.len() == n,
            sorted(sorted_copy@),
            interior < n,
            interior as int == interior_count(sorted_copy@),
            forall|k: u64| #[trigger] count_below(sorted_copy@, k) == count_below(field@, k),
            j <= n,
            numerators@.len() == j,
            forall|t: int|
                0 <= t < j ==> #[trigger] numerators@[t] as int == rank_in_field(
                    field@,
                    field@[t],
                ),
        decreases n - j,
    {
        let key = field[j];
        let r = rank_lookup(&sorted_copy, interior, key);
        numerators.push(r);
        j += 1;
    }
    proof {
        assert forall|t: int|
            0 <= t < n implies (#[trigger] numerators@[t] as int) < n - interior_count(field@) by {
            lemma_count_below_le_len(field@, field@[t]);
        }
        assert forall|t: int|
            0 <= t < n && field@[t] == 0 implies #[trigger] numerators@[t] == 0 by {
            lemma_count_below_none(field@, 0);
            lemma_count_below_pos(field@, 1, t);
        }
    }
    Ok(IntensityField { numerators, denominator })
}

} // verus!
