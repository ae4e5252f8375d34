//! A seeded pseudo-random bijection of the byte values, with a
//! Pearson-style rolling hash over integer coordinate vectors.

use rand::SeedableRng;
use vstd::prelude::*;

verus! {

/// A permutation of the byte values `0..=255`: every byte occurs
/// exactly once among the 256 entries.
pub open spec fn is_permutation(s: Seq<u8>) -> bool {
    &&& s.len() == 256
    &&& s.no_duplicates()
    &&& forall|v: u8| s.contains(v)
}

/// The low byte of a coordinate component; negative values wrap into
/// the table's unsigned index range, as two's complement does.
pub open spec fn low_byte(v: i32) -> u8 {
    (v & 0xff) as u8
}

/// The accumulator of the rolling hash after folding all of `input`
/// (nonempty): the first component's low byte, then for each further
/// component a table lookup of the accumulator xored with that
/// component's low byte.
pub open spec fn hash_acc(table: Seq<u8>, input: Seq<i32>) -> u8
    recommends
        table.len() == 256,
        input.len() > 0,
    decreases input.len(),
{
    if input.len() <= 1 {
        low_byte(input[0])
    } else {
        table[hash_acc(table, input.drop_last()) as int] ^ low_byte(input.last())
    }
}

/// The rolling hash of a nonempty coordinate vector: one final table
/// lookup of the fully folded accumulator.
pub open spec fn spec_hash(table: Seq<u8>, input: Seq<i32>) -> u8
    recommends
        table.len() == 256,
        input.len() > 0,
{
    table[hash_acc(table, input) as int]
}

/// The identity byte sequence `0, 1, ..., 255`.
pub open spec fn ident_seq() -> Seq<u8> {
    Seq::new(256, |i: int| i as u8)
}

/// The classical reference permutation from the Perlin-noise
/// literature, as a specification-level sequence.
pub open spec fn ken_seq() -> Seq<u8> {
    seq![
        151u8, 160u8, 137u8, 91u8, 90u8, 15u8, 131u8, 13u8, 201u8, 95u8, 96u8, 53u8, 194u8,
        233u8, 7u8, 225u8, 140u8, 36u8, 103u8, 30u8, 69u8, 142u8, 8u8, 99u8, 37u8, 240u8,
        21u8, 10u8, 23u8, 190u8, 6u8, 148u8, 247u8, 120u8, 234u8, 75u8, 0u8, 26u8, 197u8,
        62u8, 94u8, 252u8, 219u8, 203u8, 117u8, 35u8, 11u8, 32u8, 57u8, 177u8, 33u8, 88u8,
        237u8, 149u8, 56u8, 87u8, 174u8, 20u8, 125u8, 136u8, 171u8, 168u8, 68u8, 175u8, 74u8,
        165u8, 71u8, 134u8, 139u8, 48u8, 27u8, 166u8, 77u8, 146u8, 158u8, 231u8, 83u8, 111u8,
        229u8, 122u8, 60u8, 211u8, 133u8, 230u8, 220u8, 105u8, 92u8, 41u8, 55u8, 46u8, 245u8,
        40u8, 244u8, 102u8, 143u8, 54u8, 65u8, 25u8, 63u8, 161u8, 1u8, 216u8, 80u8, 73u8,
        209u8, 76u8, 132u8, 187u8, 208u8, 89u8, 18u8, 169u8, 200u8, 196u8, 135u8, 130u8, 116u8,
        188u8, 159u8, 86u8, 164u8, 100u8, 109u8, 198u8, 173u8, 186u8, 3u8, 64u8, 52u8, 217u8,
        226u8, 250u8, 124u8, 123u8, 5u8, 202u8, 38u8, 147u8, 118u8, 126u8, 255u8, 82u8, 85u8,
        212u8, 207u8, 206u8, 59u8, 227u8, 47u8, 16u8, 58u8, 17u8, 182u8, 189u8, 28u8, 42u8,
        223u8, 183u8, 170u8, 213u8, 119u8, 248u8, 152u8, 2u8, 44u8, 154u8, 163u8, 70u8, 221u8,
        153u8, 101u8, 155u8, 167u8, 43u8, 172u8, 9u8, 129u8, 22u8, 39u8, 253u8, 19u8, 98u8,
        108u8, 110u8, 79u8, 113u8, 224u8, 232u8, 178u8, 185u8, 112u8, 104u8, 218u8, 246u8, 97u8,
        228u8, 251u8, 34u8, 242u8, 193u8, 238u8, 210u8, 144u8, 12u8, 191u8, 179u8, 162u8, 241u8,
        81u8, 51u8, 145u8, 235u8, 249u8, 14u8, 239u8, 107u8, 49u8, 192u8, 214u8, 31u8, 181u8,
        199u8, 106u8, 157u8, 184u8, 84u8, 204u8, 176u8, 115u8, 121u8, 50u8, 45u8, 127u8, 4u8,
        150u8, 254u8, 138u8, 236u8, 205u8, 93u8, 222u8, 114u8, 67u8, 29u8, 24u8, 72u8, 243u8,
        141u8, 128u8, 195u8, 78u8, 66u8, 215u8, 61u8, 156u8, 180u8,
    ]
}

/// The inverse of [`ken_seq`]: `ken_inv()[ken_seq()[k]] == k` for
/// every index `k`. Stating the inverse lets a linear pass certify
/// that [`ken_seq`] is a bijection.
pub open spec fn ken_inv() -> Seq<u8> {
    seq![
        36u8, 100u8, 163u8, 126u8, 233u8, 134u8, 30u8, 14u8, 22u8, 175u8, 27u8, 46u8, 203u8,
        7u8, 213u8, 5u8, 149u8, 151u8, 110u8, 180u8, 57u8, 26u8, 177u8, 28u8, 244u8, 97u8,
        37u8, 70u8, 154u8, 243u8, 19u8, 219u8, 47u8, 50u8, 197u8, 45u8, 17u8, 24u8, 136u8,
        178u8, 91u8, 87u8, 155u8, 173u8, 164u8, 231u8, 89u8, 148u8, 69u8, 216u8, 230u8, 209u8,
        128u8, 11u8, 95u8, 88u8, 54u8, 48u8, 150u8, 146u8, 80u8, 253u8, 39u8, 98u8, 127u8,
        96u8, 251u8, 242u8, 62u8, 20u8, 167u8, 66u8, 245u8, 103u8, 64u8, 35u8, 105u8, 72u8,
        250u8, 184u8, 102u8, 208u8, 141u8, 76u8, 225u8, 142u8, 119u8, 55u8, 51u8, 109u8, 4u8,
        3u8, 86u8, 239u8, 40u8, 9u8, 10u8, 194u8, 181u8, 23u8, 121u8, 170u8, 93u8, 18u8,
        191u8, 85u8, 222u8, 215u8, 182u8, 122u8, 183u8, 77u8, 190u8, 185u8, 241u8, 228u8, 116u8,
        44u8, 138u8, 160u8, 33u8, 229u8, 79u8, 133u8, 132u8, 58u8, 139u8, 232u8, 248u8, 176u8,
        115u8, 6u8, 106u8, 82u8, 67u8, 114u8, 59u8, 2u8, 236u8, 68u8, 16u8, 247u8, 21u8,
        94u8, 202u8, 210u8, 73u8, 137u8, 31u8, 53u8, 234u8, 0u8, 162u8, 169u8, 165u8, 171u8,
        254u8, 223u8, 74u8, 118u8, 1u8, 99u8, 206u8, 166u8, 120u8, 65u8, 71u8, 172u8, 61u8,
        111u8, 158u8, 60u8, 174u8, 124u8, 56u8, 63u8, 227u8, 49u8, 188u8, 205u8, 255u8, 220u8,
        152u8, 157u8, 224u8, 189u8, 125u8, 107u8, 117u8, 153u8, 29u8, 204u8, 217u8, 199u8, 12u8,
        249u8, 113u8, 38u8, 123u8, 221u8, 112u8, 8u8, 135u8, 43u8, 226u8, 238u8, 145u8, 144u8,
        108u8, 104u8, 201u8, 81u8, 143u8, 159u8, 218u8, 252u8, 101u8, 129u8, 192u8, 42u8, 84u8,
        168u8, 240u8, 156u8, 186u8, 15u8, 130u8, 147u8, 195u8, 78u8, 83u8, 75u8, 187u8, 13u8,
        34u8, 211u8, 237u8, 52u8, 200u8, 214u8, 25u8, 207u8, 198u8, 246u8, 92u8, 90u8, 193u8,
        32u8, 161u8, 212u8, 131u8, 196u8, 41u8, 179u8, 235u8, 140u8,
    ]
}

/// `inv` inverts `s` on every index in `lo..hi`, and `s` inverts
/// `inv` on every value in `lo..hi`.
pub open spec fn perm_inverse_range(s: Seq<u8>, inv: Seq<u8>, lo: int, hi: int) -> bool
    recommends
        s.len() == 256,
        inv.len() == 256,
    decreases hi - lo,
{
    lo >= hi || (inv[s[lo] as int] == lo as u8 && s[inv[lo] as int] == lo as u8
        && perm_inverse_range(s, inv, lo + 1, hi))
}

proof fn lemma_perm_inverse_range_concat(s: Seq<u8>, inv: Seq<u8>, lo: int, mid: int, hi: int)
    requires
        lo <= mid <= hi,
        perm_inverse_range(s, inv, lo, mid),
        perm_inverse_range(s, inv, mid, hi),
    ensures
        perm_inverse_range(s, inv, lo, hi),
    decreases mid - lo,
{
    if lo < mid {
        lemma_perm_inverse_range_concat(s, inv, lo + 1, mid, hi);
    }
}

proof fn lemma_perm_inverse_range_elem(s: Seq<u8>, inv: Seq<u8>, lo: int, hi: int, k: int)
    requires
        perm_inverse_range(s, inv, lo, hi),
        lo <= k < hi,
    ensures
        inv[s[k] as int] == k as u8,
        s[inv[k] as int] == k as u8,
    decreases k - lo,
{
    if k > lo {
        lemma_perm_inverse_range_elem(s, inv, lo + 1, hi, k);
    }
}

/// A sequence with a two-sided inverse on all 256 indices is a
/// permutation of the byte values.
proof fn lemma_inverse_implies_permutation(s: Seq<u8>, inv: Seq<u8>)
    requires
        s.len() == 256,
        inv.len() == 256,
        perm_inverse_range(s, inv, 0, 256),
    ensures
        is_permutation(s),
{
    assert forall|i: int, j: int|
        0 <= i < s.len() && 0 <= j < s.len() && i != j implies s[i] != s[j] by {
        if s[i] == s[j] {
            lemma_perm_inverse_range_elem(s, inv, 0, 256, i);
            lemma_perm_inverse_range_elem(s, inv, 0, 256, j);
        }
    }
    assert forall|v: u8| s.contains(v) by {
        lemma_perm_inverse_range_elem(s, inv, 0, 256, v as int);
        assert(s[inv[v as int] as int] == v);
    }
}

/// The reference table and its stated inverse do invert each other,
/// certified in chunks of 32 indices.
#[verifier::rlimit(100)]
proof fn lemma_ken_inverse()
    ensures
        perm_inverse_range(ken_seq(), ken_inv(), 0, 256),
{
    let s = ken_seq();
    let inv = ken_inv();
    assert(perm_inverse_range(s, inv, 0, 32)) by {
        reveal_with_fuel(perm_inverse_range, 33);
    }
    assert(perm_inverse_range(s, inv, 32, 64)) by {
        reveal_with_fuel(perm_inverse_range, 33);
    }
    assert(perm_inverse_range(s, inv, 64, 96)) by {
        reveal_with_fuel(perm_inverse_range, 33);
    }
    assert(perm_inverse_range(s, inv, 96, 128)) by {
        reveal_with_fuel(perm_inverse_range, 33);
    }
    assert(perm_inverse_range(s, inv, 128, 160)) by {
        reveal_with_fuel(perm_inverse_range, 33);
    }
    assert(perm_inverse_range(s, inv, 160, 192)) by {
        reveal_with_fuel(perm_inverse_range, 33);
    }
    assert(perm_inverse_range(s, inv, 192, 224)) by {
        reveal_with_fuel(perm_inverse_range, 33);
    }
    assert(perm_inverse_range(s, inv, 224, 256)) by {
        reveal_with_fuel(perm_inverse_range, 33);
    }
    lemma_perm_inverse_range_concat(s, inv, 192, 224, 256);
    lemma_perm_inverse_range_concat(s, inv, 160, 192, 256);
    lemma_perm_inverse_range_concat(s, inv, 128, 160, 256);
    lemma_perm_inverse_range_concat(s, inv, 96, 128, 256);
    lemma_perm_inverse_range_concat(s, inv, 64, 96, 256);
    lemma_perm_inverse_range_concat(s, inv, 32, 64, 256);
    lemma_perm_inverse_range_concat(s, inv, 0, 32, 256);
}

/// A sequence holding the same bytes as the identity sequence, with
/// the same multiplicities, is a permutation of the byte values.
proof fn lemma_same_multiset_as_ident_is_permutation(s: Seq<u8>)
    requires
        s.to_multiset() == ident_seq().to_multiset(),
    ensures
        is_permutation(s),
{
    broadcast use vstd::seq_lib::group_to_multiset_ensures;

    let ident = ident_seq();
    assert forall|i: int, j: int|
        0 <= i < ident.len() && 0 <= j < ident.len() && i != j implies ident[i] != ident[j] by {
    }
    assert(ident.no_duplicates());
    ident.lemma_multiset_has_no_duplicates();
    assert forall|v: u8| #[trigger] s.to_multiset().count(v) == 1 by {
        assert(ident[v as int] == v);
        assert(ident.contains(v));
        assert(ident.to_multiset().count(v) > 0);
        assert(ident.to_multiset().contains(v));
    }
    assert(s.len() == s.to_multiset().len());
    assert(ident.len() == ident.to_multiset().len());
    s.lemma_multiset_has_no_duplicates_conv();
    assert forall|v: u8| s.contains(v) by {
        assert(s.to_multiset().count(v) == 1);
    }
}

/// What the seeded shuffle of a byte sequence returns: the same
/// sequence and seed give the same result, in every process and on
/// every machine.
pub uninterp spec fn shuffled_by(s: Seq<u8>, seed: u64) -> Seq<u8>;

/// Relies on `rand_pcg::Lcg64Xsh32::seed_from_u64` and
/// `rand::seq::SliceRandom::shuffle`: a Fisher-Yates shuffle driven by
/// a generator seeded from `seed` alone, so the result rearranges the
/// input (same elements, same multiplicities) and is determined by the
/// input and the seed.
#[verifier::external_body]
fn shuffle_seeded(v: &mut Vec<u8>, seed: u64)
    ensures
        final(v)@ == shuffled_by(old(v)@, seed),
        final(v)@.to_multiset() == old(v)@.to_multiset(),
{
    let mut rng = rand_pcg::Lcg64Xsh32::seed_from_u64(seed);
    rand::seq::SliceRandom::shuffle(v.as_mut_slice(), &mut rng);
}

/// A pseudo-random permutation of the byte values `0..=255`, shared
/// read-only by all hash calls once built.
pub struct PermutationTable {
    values: Vec<u8>,
}

impl View for PermutationTable {
    type V = Seq<u8>;

    closed spec fn view(&self) -> Seq<u8> {
        self.values@
    }
}

impl PermutationTable {
    /// The table invariant: the entries are a permutation of `0..=255`.
    pub open spec fn wf(&self) -> bool {
        is_permutation(self@)
    }

    /// Reduce an arbitrary-length integer coordinate vector to a single
    /// byte with a Pearson-style rolling fold: order-sensitive by
    /// design, so that cell `(1, 0)` and cell `(0, 1)` hash apart.
    ///
    /// The empty vector has no meaning here and is ruled out.
    pub fn hash(&self, input: &[i32]) -> (r: u8)
        requires
            self.wf(),
            input@.len() > 0,
        ensures
            r == spec_hash(self@, input@),
    {
        let n: usize = input.len();
        let first: i32 = input[0];
        proof {
            assert(0 <= (first & 0xff) < 256) by (bit_vector);
        }
        let mut acc: u8 = (first & 0xff) as u8;
        let mut k: usize = 1;
        proof {
            assert(input@.take(1) =~= seq![input@[0]]);
        }
        while k < n
            invariant
                1 <= k <= n,
                n == input@.len(),
                self.wf(),
                acc == hash_acc(self@, input@.take(k as int)),
            decreases n - k,
        {
            let c: i32 = input[k];
            proof {
                assert(0 <= (c & 0xff) < 256) by (bit_vector);
                assert(input@.take(k + 1).drop_last() =~= input@.take(k as int));
                assert(input@.take(k + 1).last() == input@[k as int]);
            }
            acc = self.values[acc as usize] ^ ((c & 0xff) as u8);
            k = k + 1;
        }
        proof {
            assert(input@.take(n as int) =~= input@);
        }
        self.values[acc as usize]
    }

    /// Build the table for `seed`: a seeded pseudo-random shuffle of
    /// the identity byte sequence. The same seed always yields the
    /// same table, the basis for all downstream determinism.
    pub fn new(seed: u64) -> (r: Self)
        ensures
            r@ == shuffled_by(ident_seq(), seed),
            r.wf(),
    {
        let mut v: Vec<u8> = Vec::new();
        let mut i: usize = 0;
        while i < 256
            invariant
                i <= 256,
                v@.len() == i,
                forall|k: int| 0 <= k < i ==> v@[k] == k as u8,
            decreases 256 - i,
        {
            v.push(i as u8);
            i = i + 1;
        }
        proof {
            assert(v@ =~= ident_seq());
        }
        shuffle_seeded(&mut v, seed);
        proof {
            lemma_same_multiset_as_ident_is_permutation(v@);
        }
        PermutationTable { values: v }
    }

    /// The reference table originally used by Ken Perlin: a fixed,
    /// hardcoded permutation with no randomness involved, kept for
    /// compatibility with the classical noise literature.
    pub fn ken_table() -> (r: Self)
        ensures
            r@ == ken_seq(),
            r.wf(),
    {
        let values: [u8; 256] = [
        151u8, 160u8, 137u8, 91u8, 90u8, 15u8, 131u8, 13u8, 201u8, 95u8, 96u8, 53u8, 194u8,
        233u8, 7u8, 225u8, 140u8, 36u8, 103u8, 30u8, 69u8, 142u8, 8u8, 99u8, 37u8, 240u8,
        21u8, 10u8, 23u8, 190u8, 6u8, 148u8, 247u8, 120u8, 234u8, 75u8, 0u8, 26u8, 197u8,
        62u8, 94u8, 252u8, 219u8, 203u8, 117u8, 35u8, 11u8, 32u8, 57u8, 177u8, 33u8, 88u8,
        237u8, 149u8, 56u8, 87u8, 174u8, 20u8, 125u8, 136u8, 171u8, 168u8, 68u8, 175u8, 74u8,
        165u8, 71u8, 134u8, 139u8, 48u8, 27u8, 166u8, 77u8, 146u8, 158u8, 231u8, 83u8, 111u8,
        229u8, 122u8, 60u8, 211u8, 133u8, 230u8, 220u8, 105u8, 92u8, 41u8, 55u8, 46u8, 245u8,
        40u8, 244u8, 102u8, 143u8, 54u8, 65u8, 25u8, 63u8, 161u8, 1u8, 216u8, 80u8, 73u8,
        209u8, 76u8, 132u8, 187u8, 208u8, 89u8, 18u8, 169u8, 200u8, 196u8, 135u8, 130u8, 116u8,
        188u8, 159u8, 86u8, 164u8, 100u8, 109u8, 198u8, 173u8, 186u8, 3u8, 64u8, 52u8, 217u8,
        226u8, 250u8, 124u8, 123u8, 5u8, 202u8, 38u8, 147u8, 118u8, 126u8, 255u8, 82u8, 85u8,
        212u8, 207u8, 206u8, 59u8, 227u8, 47u8, 16u8, 58u8, 17u8, 182u8, 189u8, 28u8, 42u8,
        223u8, 183u8, 170u8, 213u8, 119u8, 248u8, 152u8, 2u8, 44u8, 154u8, 163u8, 70u8, 221u8,
        153u8, 101u8, 155u8, 167u8, 43u8, 172u8, 9u8, 129u8, 22u8, 39u8, 253u8, 19u8, 98u8,
        108u8, 110u8, 79u8, 113u8, 224u8, 232u8, 178u8, 185u8, 112u8, 104u8, 218u8, 246u8, 97u8,
        228u8, 251u8, 34u8, 242u8, 193u8, 238u8, 210u8, 144u8, 12u8, 191u8, 179u8, 162u8, 241u8,
        81u8, 51u8, 145u8, 235u8, 249u8, 14u8, 239u8, 107u8, 49u8, 192u8, 214u8, 31u8, 181u8,
        199u8, 106u8, 157u8, 184u8, 84u8, 204u8, 176u8, 115u8, 121u8, 50u8, 45u8, 127u8, 4u8,
        150u8, 254u8, 138u8, 236u8, 205u8, 93u8, 222u8, 114u8, 67u8, 29u8, 24u8, 72u8, 243u8,
        141u8, 128u8, 195u8, 78u8, 66u8, 215u8, 61u8, 156u8, 180u8,
        ];
        proof {
            assert(values@ =~= ken_seq());
            lemma_ken_inverse();
            lemma_inverse_implies_permutation(ken_seq(), ken_inv());
        }
        PermutationTable { values: vstd::slice::slice_to_vec(values.as_slice()) }
    }
}

/// Determinism: two tables built from the same seed are equal, so they
/// hash every coordinate vector alike, across calls and processes.
pub proof fn lemma_build_deterministic(t1: Seq<u8>, t2: Seq<u8>, seed: u64, coords: Seq<i32>)
    requires
        t1 == shuffled_by(ident_seq(), seed),
        t2 == shuffled_by(ident_seq(), seed),
        coords.len() > 0,
    ensures
        t1 == t2,
        spec_hash(t1, coords) == spec_hash(t2, coords),
{
}

/// Order-sensitivity: the rolling hash is not commutative. On the
/// reference table, the vectors `[0, 1]` and `[1, 0]` hold the same
/// components yet hash apart.
pub proof fn lemma_hash_order_sensitive()
    ensures
        seq![0i32, 1i32] != seq![1i32, 0i32],
        seq![0i32, 1i32].to_multiset() == seq![1i32, 0i32].to_multiset(),
        spec_hash(ken_seq(), seq![0i32, 1i32]) != spec_hash(ken_seq(), seq![1i32, 0i32]),
{
    broadcast use vstd::seq_lib::group_to_multiset_ensures;
    broadcast use vstd::multiset::group_multiset_axioms;

    let c1 = seq![0i32, 1i32];
    let c2 = seq![1i32, 0i32];
    assert(c1[0] != c2[0]);
    let e = Seq::<i32>::empty();
    assert(c1 =~= e.push(0i32).push(1i32));
    assert(c2 =~= e.push(1i32).push(0i32));
    assert(e.push(0i32).to_multiset() =~= e.to_multiset().insert(0i32));
    assert(e.push(1i32).to_multiset() =~= e.to_multiset().insert(1i32));
    assert(c1.to_multiset() =~= e.to_multiset().insert(0i32).insert(1i32));
    assert(c2.to_multiset() =~= e.to_multiset().insert(1i32).insert(0i32));
    assert(c1.to_multiset() =~= c2.to_multiset());
    assert((0i32 & 0xff) == 0i32) by (bit_vector);
    assert((1i32 & 0xff) == 1i32) by (bit_vector);
    assert(hash_acc(ken_seq(), c1.drop_last()) == 0) by {
        assert(c1.drop_last() =~= seq![0i32]);
    }
    assert(hash_acc(ken_seq(), c2.drop_last()) == 1) by {
        assert(c2.drop_last() =~= seq![1i32]);
    }
    assert((151u8 ^ 1u8) == 150u8) by (bit_vector);
    assert((160u8 ^ 0u8) == 160u8) by (bit_vector);
    assert(ken_seq()[0] == 151);
    assert(ken_seq()[1] == 160);
    assert(spec_hash(ken_seq(), c1) == ken_seq()[150]);
    assert(spec_hash(ken_seq(), c2) == ken_seq()[160]);
    assert(ken_seq()[150] == 58);
    assert(ken_seq()[160] == 119);
}

} // verus!
