use vstd::prelude::*;

verus! {

/// The sum of the first `n` deltas.
pub open spec fn prefix_sum(d: Seq<i64>, n: int) -> int
    decreases n,
{
    if n <= 0 {
        0
    } else {
        prefix_sum(d, n - 1) + d[n - 1]
    }
}

/// A value fits in a signed 64-bit integer.
pub open spec fn fits_i64(x: int) -> bool {
    i64::MIN <= x <= i64::MAX
}

/// Every running sum of the deltas fits in a signed 64-bit integer.
pub open spec fn sums_fit(d: Seq<i64>) -> bool {
    forall|n: int| 0 <= n <= d.len() ==> fits_i64(#[trigger] prefix_sum(d, n))
}

/// The running sums of a column of deltas, the accumulator starting at 0.
pub open spec fn running_sums(d: Seq<i64>) -> Seq<int> {
    Seq::new(d.len(), |i: int| prefix_sum(d, i + 1))
}

/// The value before position `i` of a column, 0 before the first.
pub open spec fn prev_of(v: Seq<i64>, i: int) -> int {
    if i == 0 {
        0
    } else {
        v[i - 1] as int
    }
}

/// The successive differences of a column, the first taken from 0.
pub open spec fn differences(v: Seq<i64>) -> Seq<int> {
    Seq::new(v.len(), |i: int| v[i] - prev_of(v, i))
}

/// Every successive difference fits in a signed 64-bit integer.
pub open spec fn differences_fit(v: Seq<i64>) -> bool {
    forall|i: int| 0 <= i < v.len() ==> fits_i64(#[trigger] differences(v)[i])
}

/// Reconstructs a column from its deltas by a running sum seeded with 0;
/// `None` when a running sum leaves the 64-bit range.
pub fn decode_deltas(d: &Vec<i64>) -> (r: Option<Vec<i64>>)
    ensures
        r is Some <==> sums_fit(d@),
        r is Some ==> r->Some_0@.len() == d@.len() && forall|i: int|
            0 <= i < d@.len() ==> r->Some_0@[i] as int == running_sums(d@)[i],
{
    let mut out: Vec<i64> = Vec::new();
    let mut acc: i64 = 0;
    let mut i: usize = 0;
    while i < d.len()
        invariant
            0 <= i <= d@.len(),
            acc as int == prefix_sum(d@, i as int),
            out@.len() == i,
            forall|j: int| 0 <= j < i ==> out@[j] as int == prefix_sum(d@, j + 1),
            forall|n: int| 0 <= n <= i ==> fits_i64(#[trigger] prefix_sum(d@, n)),
        decreases d@.len() - i,
    {
        let x = d[i];
        let next = acc.checked_add(x);
        match next {
            Some(s) => {
                acc = s;
                out.push(s);
                i = i + 1;
            },
            None => {
                assert(!fits_i64(prefix_sum(d@, i + 1)));
                return None;
            },
        }
    }
    Some(out)
}

/// Turns a column into its successive differences, the first taken from 0;
/// `None` when a difference leaves the 64-bit range.
pub fn encode_deltas(v: &Vec<i64>) -> (r: Option<Vec<i64>>)
    ensures
        r is Some <==> differences_fit(v@),
        r is Some ==> r->Some_0@.len() == v@.len() && forall|i: int|
            0 <= i < v@.len() ==> r->Some_0@[i] as int == differences(v@)[i],
{
    let mut out: Vec<i64> = Vec::new();
    let mut prev: i64 = 0;
    let mut i: usize = 0;
    while i < v.len()
        invariant
            0 <= i <= v@.len(),
            prev as int == prev_of(v@, i as int),
            out@.len() == i,
            forall|j: int| 0 <= j < i ==> out@[j] as int == differences(v@)[j],
            forall|j: int| 0 <= j < i ==> fits_i64(#[trigger] differences(v@)[j]),
        decreases v@.len() - i,
    {
        let x = v[i];
        match x.checked_sub(prev) {
            Some(dx) => {
                out.push(dx);
                prev = x;
                i = i + 1;
            },
            None => {
                assert(!fits_i64(differences(v@)[i as int]));
                return None;
            },
        }
    }
    Some(out)
}

/// Summing the differences of a column gives the column back.
pub proof fn lemma_sum_of_differences(v: Seq<i64>, d: Seq<i64>, n: int)
    requires
        d.len() == v.len(),
        forall|i: int| 0 <= i < v.len() ==> d[i] as int == differences(v)[i],
        0 <= n <= v.len(),
    ensures
        prefix_sum(d, n) == prev_of(v, n),
    decreases n,
{
    if n > 0 {
        lemma_sum_of_differences(v, d, n - 1);
    }
}

/// Delta coding round trip: decoding the deltas that encoding produced gives
/// the column back, in its order.
pub proof fn lemma_delta_round_trip(v: Seq<i64>, d: Seq<i64>)
    requires
        d.len() == v.len(),
        forall|i: int| 0 <= i < v.len() ==> d[i] as int == differences(v)[i],
    ensures
        sums_fit(d),
        forall|i: int| 0 <= i < v.len() ==> running_sums(d)[i] == v[i] as int,
{
    assert forall|n: int| 0 <= n <= d.len() implies fits_i64(#[trigger] prefix_sum(d, n)) by {
        lemma_sum_of_differences(v, d, n);
    }
    assert forall|i: int| 0 <= i < v.len() implies running_sums(d)[i] == v[i] as int by {
        lemma_sum_of_differences(v, d, i + 1);
    }
}

} // verus!
