//! The Worley evaluator: ranked feature-point distances for a sample.
//!
//! A query floors the sample into its unit cell, hashes each cell of
//! the 3x3 neighbourhood through the permutation table, seeds a
//! fixed-width generator with each hash byte to place that cell's
//! feature point, and ranks the nine feature points by their exact
//! distance key from the sample under the chosen metric.

use rand::RngCore;
use rand::SeedableRng;
use vstd::prelude::*;

use crate::math::Fixed;
use crate::math::Point;
use crate::permutation_table::PermutationTable;
use crate::permutation_table::spec_hash;

verus! {

/// The distance metric a query is evaluated under.
#[derive(Clone, Copy, Debug, PartialEq, Eq, Structural)]
pub enum Metric {
    Euclidean,
    Manhattan,
}

/// One entry of a ranked evaluation: a feature point's exact distance
/// key from the sample, and its absolute world position.
#[derive(Clone, Copy, Debug, PartialEq, Eq, Structural)]
pub struct RankedFeature {
    /// The metric's exact distance key; smaller is closer (see
    /// [`spec_metric_key`]).
    pub key: u128,
    /// The feature point's world position.
    pub pos: Point,
}

/// What one seeding of the fixed-width generator draws: two 64-bit
/// words, functions of the seed alone, the same in every process and
/// on every machine.
pub uninterp spec fn splitmix_pair(seed: u64) -> (u64, u64);

/// Relies on `rand_xoshiro::SplitMix64`: `seed_from_u64` stores the
/// seed as the whole 64-bit generator state, and `next_u64` mixes the
/// state by fixed-width integer arithmetic, so both draws depend on
/// the seed alone.
#[verifier::external_body]
fn splitmix_draws(seed: u64) -> (r: (u64, u64))
    ensures
        r == splitmix_pair(seed),
{
    let mut rng = rand_xoshiro::SplitMix64::seed_from_u64(seed);
    let a = rng.next_u64();
    let b = rng.next_u64();
    (a, b)
}

/// The feature point offsets a hash byte places inside its unit cell:
/// the top 53 bits of each generator draw, x then y. Each is the
/// numerator of a uniform dyadic value in `[0, 1)` over `2^53`, the
/// exact value a 64-bit draw yields as a unit-interval double.
pub open spec fn spec_feature_offset(hash_byte: u8) -> (u64, u64) {
    (splitmix_pair(hash_byte as u64).0 >> 11, splitmix_pair(hash_byte as u64).1 >> 11)
}

/// Seed the fixed-width generator with a hash byte and draw the
/// feature point of the byte's unit cell, x offset then y offset,
/// both in `[0, 1)`.
///
/// Offsets are unconstrained within the cell, so a feature point may
/// fall arbitrarily close to a shared cell edge, which occasionally
/// yields visually small regions. That is an accepted property;
/// clamping offsets to an inner sub-range is left as a tuning knob.
pub fn feature_offset(hash_byte: u8) -> (r: Point)
    ensures
        r.x == (Fixed { whole: 0, frac: spec_feature_offset(hash_byte).0 }),
        r.y == (Fixed { whole: 0, frac: spec_feature_offset(hash_byte).1 }),
        r.wf(),
{
    let (a, b) = splitmix_draws(hash_byte as u64);
    let mx: u64 = a >> 11;
    let my: u64 = b >> 11;
    proof {
        assert(a >> 11 < 0x20_0000_0000_0000) by (bit_vector);
        assert(b >> 11 < 0x20_0000_0000_0000) by (bit_vector);
    }
    Point { x: Fixed { whole: 0, frac: mx }, y: Fixed { whole: 0, frac: my } }
}

/// The largest axis separation, in grid steps, a distance key is
/// defined for: `2^60` steps, or 128 unit cells, far beyond the one
/// cell the evaluator spans. Keys then fit a `u128` with room.
pub const DIFF_BOUND: i128 = 0x1000_0000_0000_0000;

/// The exact distance key between two coordinates: the Euclidean key
/// is the squared distance scaled by `2^106`, the Manhattan key the
/// distance scaled by `2^53`. Within one metric, smaller means
/// closer, since squaring is monotone on nonnegative reals.
pub open spec fn spec_metric_key(metric: Metric, p: Point, q: Point) -> int {
    let dx = p.x.num() - q.x.num();
    let dy = p.y.num() - q.y.num();
    match metric {
        Metric::Euclidean => dx * dx + dy * dy,
        Metric::Manhattan => vstd::math::abs(dx) + vstd::math::abs(dy) as int,
    }
}

/// The exact distance key between two nearby coordinates under a
/// metric.
pub fn metric_key(metric: Metric, p: Point, q: Point) -> (r: u128)
    requires
        -(DIFF_BOUND as int) <= p.x.num() - q.x.num() <= DIFF_BOUND as int,
        -(DIFF_BOUND as int) <= p.y.num() - q.y.num() <= DIFF_BOUND as int,
    ensures
        r as int == spec_metric_key(metric, p, q),
{
    let dx: i128 = p.x.diff_steps(q.x);
    let dy: i128 = p.y.diff_steps(q.y);
    match metric {
        Metric::Euclidean => {
            proof {
                assert(0 <= dx * dx <= 0x1000_0000_0000_0000i128 * 0x1000_0000_0000_0000i128)
                    by (nonlinear_arith)
                    requires
                        -0x1000_0000_0000_0000i128 <= dx <= 0x1000_0000_0000_0000i128,
                ;
                assert(0 <= dy * dy <= 0x1000_0000_0000_0000i128 * 0x1000_0000_0000_0000i128)
                    by (nonlinear_arith)
                    requires
                        -0x1000_0000_0000_0000i128 <= dy <= 0x1000_0000_0000_0000i128,
                ;
            }
            (dx * dx + dy * dy) as u128
        },
        Metric::Manhattan => {
            let ax: i128 = if dx < 0 {
                -dx
            } else {
                dx
            };
            let ay: i128 = if dy < 0 {
                -dy
            } else {
                dy
            };
            (ax + ay) as u128
        },
    }
}

/// The x offset of neighbour cell `k` of the 3x3 window: cycles
/// through -1, 0, 1 within each row.
pub open spec fn delta_x(k: int) -> int {
    k % 3 - 1
}

/// The y offset of neighbour cell `k` of the 3x3 window: -1 for the
/// first row of three, then 0, then 1.
pub open spec fn delta_y(k: int) -> int {
    k / 3 - 1
}

/// Candidate `k` of an evaluation: the feature point of neighbour
/// cell `k`, keyed by its exact distance from the sample.
pub open spec fn candidate_at(table: Seq<u8>, sample: Point, metric: Metric, k: int) -> RankedFeature {
    let cx = sample.x.whole + delta_x(k);
    let cy = sample.y.whole + delta_y(k);
    let h = spec_hash(table, seq![cx as i32, cy as i32]);
    let off = spec_feature_offset(h);
    let pos = (Point {
        x: Fixed { whole: cx as i32, frac: off.0 },
        y: Fixed { whole: cy as i32, frac: off.1 },
    });
    RankedFeature { key: spec_metric_key(metric, sample, pos) as u128, pos }
}

/// All nine candidates of an evaluation, in window order.
pub open spec fn candidates(table: Seq<u8>, sample: Point, metric: Metric) -> Seq<RankedFeature> {
    Seq::new(9, |k: int| candidate_at(table, sample, metric, k))
}

/// Insert `e` after every entry whose key is not larger: the stable
/// position for `e`.
pub open spec fn insert_ranked(e: RankedFeature, s: Seq<RankedFeature>) -> Seq<RankedFeature>
    decreases s.len(),
{
    if s.len() == 0 {
        seq![e]
    } else if e.key < s[0].key {
        seq![e] + s
    } else {
        seq![s[0]] + insert_ranked(e, s.drop_first())
    }
}

/// Stable insertion sort ascending by key: entries with equal keys
/// keep their original relative order.
pub open spec fn sort_ranked(s: Seq<RankedFeature>) -> Seq<RankedFeature>
    decreases s.len(),
{
    if s.len() == 0 {
        Seq::empty()
    } else {
        insert_ranked(s.last(), sort_ranked(s.drop_last()))
    }
}

/// Keys never decrease along the sequence.
pub open spec fn sorted_by_key(s: Seq<RankedFeature>) -> bool {
    forall|i: int, j: int| 0 <= i <= j < s.len() ==> s[i].key <= s[j].key
}

/// The full evaluation of a sample: the nine candidates of the 3x3
/// neighbourhood, stably sorted ascending by distance key.
pub open spec fn spec_evaluate_all(table: Seq<u8>, sample: Point, metric: Metric) -> Seq<
    RankedFeature,
> {
    sort_ranked(candidates(table, sample, metric))
}

proof fn lemma_insert_ranked_props(e: RankedFeature, s: Seq<RankedFeature>)
    requires
        sorted_by_key(s),
    ensures
        insert_ranked(e, s).len() == s.len() + 1,
        sorted_by_key(insert_ranked(e, s)),
        forall|i: int|
            0 <= i < insert_ranked(e, s).len() ==> (insert_ranked(e, s)[i] == e || s.contains(
                insert_ranked(e, s)[i],
            )),
    decreases s.len(),
{
    let r = insert_ranked(e, s);
    if s.len() == 0 {
    } else if e.key < s[0].key {
        assert forall|i: int| 0 <= i < r.len() implies (r[i] == e || s.contains(r[i])) by {
            if i > 0 {
                assert(r[i] == s[i - 1]);
            }
        }
    } else {
        let tail = s.drop_first();
        assert(sorted_by_key(tail)) by {
            assert(forall|i: int, j: int|
                0 <= i <= j < tail.len() ==> tail[i] == s[i + 1] && tail[j] == s[j + 1]);
        }
        lemma_insert_ranked_props(e, tail);
        let rt = insert_ranked(e, tail);
        assert forall|i: int| 0 <= i < r.len() implies (r[i] == e || s.contains(r[i])) by {
            if i == 0 {
                assert(r[0] == s[0]);
                assert(s.contains(s[0]));
            } else {
                assert(r[i] == rt[i - 1]);
                if rt[i - 1] != e {
                    assert(tail.contains(rt[i - 1]));
                    let w = choose|w: int| 0 <= w < tail.len() && tail[w] == rt[i - 1];
                    assert(s[w + 1] == tail[w]);
                    assert(s.contains(s[w + 1]));
                }
            }
        }
        assert forall|i: int, j: int| 0 <= i <= j < r.len() implies r[i].key <= r[j].key by {
            if i == 0 && j > 0 {
                assert(r[j] == rt[j - 1]);
                if rt[j - 1] == e {
                    assert(s[0].key <= e.key);
                } else {
                    assert(tail.contains(rt[j - 1]));
                    let w = choose|w: int| 0 <= w < tail.len() && tail[w] == rt[j - 1];
                    assert(s[w + 1] == tail[w]);
                    assert(s[0].key <= s[w + 1].key);
                }
            } else if i > 0 {
                assert(r[i] == rt[i - 1] && r[j] == rt[j - 1]);
            }
        }
    }
}

proof fn lemma_sort_ranked_props(s: Seq<RankedFeature>)
    ensures
        sort_ranked(s).len() == s.len(),
        sorted_by_key(sort_ranked(s)),
    decreases s.len(),
{
    if s.len() > 0 {
        lemma_sort_ranked_props(s.drop_last());
        lemma_insert_ranked_props(s.last(), sort_ranked(s.drop_last()));
    }
}

proof fn lemma_insert_ranked_at(s: Seq<RankedFeature>, e: RankedFeature, p: int)
    requires
        0 <= p <= s.len(),
        forall|i: int| 0 <= i < p ==> s[i].key <= e.key,
        p < s.len() ==> e.key < s[p].key,
    ensures
        insert_ranked(e, s) == s.take(p) + seq![e] + s.skip(p),
    decreases s.len(),
{
    if s.len() == 0 {
        assert(insert_ranked(e, s) =~= s.take(p) + seq![e] + s.skip(p));
    } else if e.key < s[0].key {
        assert(p == 0);
        assert(seq![e] + s =~= s.take(0) + seq![e] + s.skip(0));
    } else {
        assert(p >= 1);
        let tail = s.drop_first();
        lemma_insert_ranked_at(tail, e, p - 1);
        assert(seq![s[0]] + (tail.take(p - 1) + seq![e] + tail.skip(p - 1)) =~= s.take(p) + seq![e]
            + s.skip(p));
    }
}

/// Evaluate a sample against a shared table: place the feature point
/// of each cell of the 3x3 neighbourhood of the sample's cell, key
/// each by its exact distance from the sample under the metric, and
/// return all nine, stably sorted ascending by key.
///
/// Entry `n` of the result is the rank-`n` feature point: rank 0 is
/// the nearest. For ranks beyond the first few, the true n-th nearest
/// feature point of the infinite plane can occasionally lie outside
/// the fixed 3x3 window, so high ranks are correct with high
/// probability rather than guaranteed; this is a known approximation
/// of the windowed search, not a defect.
pub fn evaluate_all(sample: Point, table: &PermutationTable, metric: Metric) -> (r: Vec<
    RankedFeature,
>)
    requires
        sample.wf(),
        table.wf(),
    ensures
        r@ == spec_evaluate_all(table@, sample, metric),
        r@.len() == 9,
        sorted_by_key(r@),
{
    let mut cands: Vec<RankedFeature> = Vec::new();
    let mut k: usize = 0;
    while k < 9
        invariant
            k <= 9,
            cands@.len() == k,
            sample.wf(),
            table.wf(),
            forall|t: int| 0 <= t < k ==> cands@[t] == candidate_at(table@, sample, metric, t),
        decreases 9 - k,
    {
        let dj: i32 = (k % 3) as i32 - 1;
        let di: i32 = (k / 3) as i32 - 1;
        let cx: i32 = sample.x.whole + dj;
        let cy: i32 = sample.y.whole + di;
        let cell: [i32; 2] = [cx, cy];
        let h = table.hash(&cell);
        proof {
            assert(cell@ =~= seq![cx, cy]);
        }
        let off = feature_offset(h);
        let pos = Point {
            x: Fixed { whole: cx, frac: off.x.frac_steps() },
            y: Fixed { whole: cy, frac: off.y.frac_steps() },
        };
        let key = metric_key(metric, sample, pos);
        cands.push(RankedFeature { key, pos });
        proof {
            assert(delta_x(k as int) == dj && delta_y(k as int) == di);
            assert(cands@[k as int] == candidate_at(table@, sample, metric, k as int));
        }
        k = k + 1;
    }
    let ghost cseq = candidates(table@, sample, metric);
    proof {
        assert(cands@ =~= cseq);
    }
    let mut out: Vec<RankedFeature> = Vec::new();
    let mut n: usize = 0;
    while n < 9
        invariant
            n <= 9,
            cands@ == cseq,
            cseq.len() == 9,
            out@ == sort_ranked(cseq.take(n as int)),
            out@.len() == n,
            sorted_by_key(out@),
        decreases 9 - n,
    {
        let e = cands[n];
        let ghost prev = out@;
        let mut p: usize = 0;
        while p < out.len() && out[p].key <= e.key
            invariant
                p <= out.len(),
                out@ == prev,
                forall|i: int| 0 <= i < p ==> out@[i].key <= e.key,
            decreases out.len() - p,
        {
            p = p + 1;
        }
        out.insert(p, e);
        proof {
            lemma_insert_ranked_at(prev, e, p as int);
            assert(out@ =~= prev.take(p as int) + seq![e] + prev.skip(p as int));
            assert(cseq.take(n + 1).drop_last() =~= cseq.take(n as int));
            assert(cseq.take(n + 1).last() == cseq[n as int]);
            assert(out@ == sort_ranked(cseq.take(n + 1)));
            lemma_insert_ranked_props(e, prev);
        }
        n = n + 1;
    }
    proof {
        assert(cseq.take(9) =~= cseq);
    }
    out
}

/// Evaluate a sample and return the entry at the caller-requested
/// rank: the rank-`rank` nearest feature point's distance key and
/// world position. `rank` must lie in `0..9`, the size of the 3x3
/// window.
pub fn evaluate(sample: Point, table: &PermutationTable, metric: Metric, rank: usize) -> (r:
    RankedFeature)
    requires
        sample.wf(),
        table.wf(),
        rank < 9,
    ensures
        r == spec_evaluate_all(table@, sample, metric)[rank as int],
{
    let all = evaluate_all(sample, table, metric);
    all[rank]
}

/// Rank ordering: within one evaluation, the distance keys at ranks
/// `0..=8` are non-decreasing.
pub proof fn lemma_rank_ordering(
    table: Seq<u8>,
    sample: Point,
    metric: Metric,
    r1: int,
    r2: int,
)
    requires
        0 <= r1 <= r2 < 9,
    ensures
        spec_evaluate_all(table, sample, metric)[r1].key <= spec_evaluate_all(
            table,
            sample,
            metric,
        )[r2].key,
{
    lemma_sort_ranked_props(candidates(table, sample, metric));
}

/// Idempotence: an evaluation is a function of the table, sample,
/// metric and rank alone, so two results of the same query are
/// identical, bit for bit.
pub proof fn lemma_evaluate_idempotent(
    r1: RankedFeature,
    r2: RankedFeature,
    table: Seq<u8>,
    sample: Point,
    metric: Metric,
    rank: int,
)
    requires
        0 <= rank < 9,
        r1 == spec_evaluate_all(table, sample, metric)[rank],
        r2 == spec_evaluate_all(table, sample, metric)[rank],
    ensures
        r1 == r2,
{
}

} // verus!
