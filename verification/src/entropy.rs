use vstd::prelude::*;
use rand::rngs::StdRng;
use rand::Rng;
use rand::SeedableRng;
use rand::seq::SliceRandom;

verus! {

#[verifier::external_type_specification]
#[verifier::external_body]
pub struct ExStdRng(StdRng);

/// Specifies `Clone::clone` of `StdRng`, which is derived in rand: the copy holds the same
/// generator state, so it equals the original.
pub assume_specification[ <StdRng as Clone>::clone ](rng: &StdRng) -> (copy: StdRng)
    ensures
        copy == *rng,
;

/// The generator `StdRng::seed_from_u64` makes from a seed.
pub uninterp spec fn seeded_rng(seed: u64) -> StdRng;

/// Calls `StdRng::seed_from_u64` (rand's `SeedableRng`), which expands the seed into the
/// generator's key with a fixed PCG32 stream: the generator depends on the seed alone.
#[verifier::external_body]
fn std_rng_from_seed(seed: u64) -> (rng: StdRng)
    ensures
        rng == seeded_rng(seed),
{
    StdRng::seed_from_u64(seed)
}

/// What `StdRng::from_rng` does with a `StdRng` as the seed source: the new generator, and the
/// source generator after 32 bytes of its output were drawn as the new one's seed.
pub uninterp spec fn forked_rng(rng: StdRng) -> (StdRng, StdRng);

/// Calls `StdRng::from_rng` (rand's `SeedableRng`) with the given generator as the seed
/// source: it fills a seed from the source (advancing it) and seeds the new generator from it.
/// rand_core documents this as deterministic (implementations must be reproducible), and
/// ChaCha's `try_fill_bytes` always returns `Ok`, so the `unwrap` does not panic. Both the new
/// generator and the advanced source depend on the source's state alone.
#[verifier::external_body]
fn std_rng_fork(rng: &mut StdRng) -> (child: StdRng)
    ensures
        (child, *final(rng)) == forked_rng(*old(rng)),
{
    StdRng::from_rng(rng).unwrap()
}

/// What `Rng::gen_range(0..bound)` draws from a `StdRng` for a `u64` bound: the value drawn,
/// and the generator after the draw.
pub uninterp spec fn drawn_below(rng: StdRng, bound: u64) -> (u64, StdRng);

/// Calls `Rng::gen_range(0..bound)` on `u64`, which panics only on an empty range (hence
/// `bound > 0`). rand samples a `u64` range by widening multiplication with rejection over
/// `u64` words of the generator, so the value drawn lies in the range, and both it and the
/// generator afterwards depend on the generator's state and the bound alone, the same on
/// every machine.
#[verifier::external_body]
fn std_rng_index_below(rng: &mut StdRng, bound: u64) -> (index: u64)
    requires
        bound > 0,
    ensures
        (index, *final(rng)) == drawn_below(*old(rng), bound),
        index < bound,
{
    rng.gen_range(0..bound)
}

/// What `SliceRandom::shuffle` makes of a vector of indices with a `StdRng`: the shuffled
/// items, and the generator after the shuffle.
pub uninterp spec fn shuffled(rng: StdRng, items: Seq<usize>) -> (Seq<usize>, StdRng);

/// Calls `SliceRandom::shuffle` on the vector: a Fisher-Yates shuffle that swaps each
/// position, from the last down, with one drawn below it (drawn in `u32` for lengths that fit,
/// so the same on every machine). The result is a permutation of the items, with the same
/// elements and multiplicities, and it and the generator afterwards depend on the generator's
/// state and the items alone.
#[verifier::external_body]
fn std_rng_shuffle(rng: &mut StdRng, items: &mut Vec<usize>)
    ensures
        (final(items)@, *final(rng)) == shuffled(*old(rng), old(items)@),
        final(items)@.len() == old(items)@.len(),
        final(items)@.to_multiset() == old(items)@.to_multiset(),
{
    items.shuffle(rng)
}

/// State of chaos: the deterministic random generator of a match.
#[derive(Clone, Debug)]
pub struct EntropyGenerator(pub StdRng);

impl EntropyGenerator {
    /// A generator seeded with `seed`: generators made from one seed are the same.
    pub fn new(seed: u64) -> (generator: Self)
        ensures
            generator.0 == seeded_rng(seed),
    {
        EntropyGenerator(std_rng_from_seed(seed))
    }

    /// A new generator seeded from this one (advancing this one): both are determined by this
    /// generator's state before the fork.
    pub fn fork(&mut self) -> (generator: Self)
        ensures
            (generator.0, final(self).0) == forked_rng(old(self).0),
    {
        EntropyGenerator(std_rng_fork(&mut self.0))
    }

    /// A uniformly drawn index below `bound`, drawn as a `u64` so that a generator draws the
    /// same index on every machine.
    pub fn index_below(&mut self, bound: usize) -> (index: usize)
        requires
            bound > 0,
        ensures
            index as u64 == drawn_below(old(self).0, bound as u64).0,
            final(self).0 == drawn_below(old(self).0, bound as u64).1,
            index < bound,
    {
        let drawn = std_rng_index_below(&mut self.0, bound as u64);
        drawn as usize
    }

    /// The indices `0..count` in a random order: a permutation of `0..count`, the one the
    /// generator's shuffle makes of them.
    pub fn shuffled_indices(&mut self, count: usize) -> (order: Vec<usize>)
        ensures
            (order@, final(self).0) == shuffled(old(self).0, index_range(count as nat)),
            is_permutation_of_range(order@, count as nat),
    {
        let mut order: Vec<usize> = Vec::new();
        let mut i: usize = 0;
        while i < count
            invariant
                i <= count,
                order@ == index_range(i as nat),
            decreases count - i,
        {
            order.push(i);
            i = i + 1;
        }
        proof {
            lemma_range_is_permutation(count as nat);
        }
        let ghost before = order@;
        std_rng_shuffle(&mut self.0, &mut order);
        proof {
            lemma_same_multiset_permutation(before, order@, count as nat);
        }
        order
    }
}

impl Default for EntropyGenerator {
    /// The generator seeded with zero.
    fn default() -> (generator: Self)
        ensures
            generator.0 == seeded_rng(0),
    {
        Self::new(0)
    }
}

/// The indices `0..count` in increasing order.
pub open spec fn index_range(count: nat) -> Seq<usize> {
    Seq::new(count, |j: int| j as usize)
}

/// `order` lists each index below `count` exactly once.
pub open spec fn is_permutation_of_range(order: Seq<usize>, count: nat) -> bool {
    &&& order.len() == count
    &&& forall|i: int| 0 <= i < order.len() ==> #[trigger] order[i] < count
    &&& forall|i: int, j: int| 0 <= i < j < order.len() ==> order[i] != order[j]
}

proof fn lemma_range_is_permutation(count: nat)
    requires
        count <= usize::MAX,
    ensures
        is_permutation_of_range(index_range(count), count),
{
    let s = index_range(count);
    assert forall|i: int| 0 <= i < s.len() implies #[trigger] s[i] == i by {}
}

proof fn lemma_same_multiset_permutation(a: Seq<usize>, b: Seq<usize>, count: nat)
    requires
        is_permutation_of_range(a, count),
        b.len() == a.len(),
        b.to_multiset() == a.to_multiset(),
    ensures
        is_permutation_of_range(b, count),
{
    broadcast use vstd::seq_lib::group_to_multiset_ensures;
    assert forall|i: int| 0 <= i < b.len() implies #[trigger] b[i] < count by {
        assert(b.to_multiset().count(b[i]) > 0);
        assert(a.contains(b[i]));
    }
    assert forall|i: int, j: int| 0 <= i < j < b.len() implies b[i] != b[j] by {
        if b[i] == b[j] {
            lemma_distinct_count(a, b[i]);
            lemma_count_two(b, i, j);
        }
    }
}

proof fn lemma_distinct_count(a: Seq<usize>, x: usize)
    requires
        forall|i: int, j: int| 0 <= i < j < a.len() ==> a[i] != a[j],
    ensures
        a.to_multiset().count(x) <= 1,
    decreases a.len(),
{
    broadcast use vstd::seq_lib::group_to_multiset_ensures;
    if a.len() > 0 {
        let rest = a.drop_last();
        lemma_distinct_count(rest, x);
        assert(a =~= rest.push(a.last()));
        if a.last() == x {
            assert(!rest.contains(x));
        }
    }
}

proof fn lemma_count_two(b: Seq<usize>, i: int, j: int)
    requires
        0 <= i < j < b.len(),
        b[i] == b[j],
    ensures
        b.to_multiset().count(b[i]) >= 2,
    decreases b.len(),
{
    broadcast use vstd::seq_lib::group_to_multiset_ensures;
    let rest = b.drop_last();
    assert(b =~= rest.push(b.last()));
    if j == b.len() - 1 {
        assert(rest.contains(b[i]));
    } else {
        lemma_count_two(rest, i, j);
    }
}

} // verus!
