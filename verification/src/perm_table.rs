//! Permutation tables for the OpenSimplex noise, generated the way the
//! noise crate's `PermutationTable::new` generates them, so that GPU and CPU
//! noise agree.
use rand::seq::SliceRandom;
use rand::SeedableRng;
use rand_xorshift::XorShiftRng;
use vstd::prelude::*;

verus! {

/// Number of entries of a permutation table.
pub const TABLE_SIZE: usize = 256;

/// The order in which rand's `SliceRandom::shuffle`, driven by an
/// `XorShiftRng` built by `SeedableRng::from_seed(seed)`, leaves `items`.
pub uninterp spec fn xorshift_shuffle(seed: Seq<u8>, items: Seq<u8>) -> Seq<u8>;

/// Shuffles `table` with an XorShift generator seeded by `seed`
/// (`rand_xorshift::XorShiftRng::from_seed`, then rand 0.8's
/// `SliceRandom::shuffle`). Trusted: the result is the named shuffle of the
/// input, and it holds the same items, since the shuffle only swaps entries.
#[verifier::external_body]
fn shuffle_table(seed: [u8; 16], table: [u8; 256]) -> (r: [u8; 256])
    ensures
        r@ == xorshift_shuffle(seed@, table@),
        r@.to_multiset() == table@.to_multiset(),
{
    let mut shuffled = table;
    let mut rng: XorShiftRng = SeedableRng::from_seed(seed);
    shuffled.shuffle(&mut rng);
    shuffled
}

/// Byte `k` (0 to 3) of `seed` in little-endian order.
pub open spec fn seed_byte(seed: u32, k: int) -> u8 {
    if k == 0 {
        seed as u8
    } else if k == 1 {
        (seed >> 8u32) as u8
    } else if k == 2 {
        (seed >> 16u32) as u8
    } else {
        (seed >> 24u32) as u8
    }
}

/// The 16-byte generator seed for a world seed: a leading 1, three zero
/// bytes, then the seed's little-endian bytes three times over.
pub open spec fn generator_seed(seed: u32) -> Seq<u8> {
    let b0 = seed_byte(seed, 0);
    let b1 = seed_byte(seed, 1);
    let b2 = seed_byte(seed, 2);
    let b3 = seed_byte(seed, 3);
    seq![1u8, 0u8, 0u8, 0u8, b0, b1, b2, b3, b0, b1, b2, b3, b0, b1, b2, b3]
}

/// The table `0, 1, ..., 255` before shuffling.
pub open spec fn identity_table() -> Seq<u8> {
    Seq::new(256, |i: int| i as u8)
}

/// The permutation table of a world seed.
pub fn generate_permutation_table(seed: u32) -> (r: [u8; 256])
    ensures
        r@ == xorshift_shuffle(generator_seed(seed), identity_table()),
        r@.to_multiset() == identity_table().to_multiset(),
{
    let mut gen_seed: [u8; 16] = [0u8; 16];
    gen_seed[0] = 1;
    let mut i: usize = 1;
    while i < 4
        invariant
            1 <= i <= 4,
            gen_seed[0] == 1u8,
            gen_seed[1] == 0u8,
            gen_seed[2] == 0u8,
            gen_seed[3] == 0u8,
            forall|k: int| 4 <= k < 4 * i ==> #[trigger] gen_seed[k] == seed_byte(seed, k % 4),
            forall|k: int| 4 * i <= k < 16 ==> #[trigger] gen_seed[k] == 0u8,
        decreases 4 - i,
    {
        gen_seed[i * 4] = seed as u8;
        gen_seed[i * 4 + 1] = (seed >> 8) as u8;
        gen_seed[i * 4 + 2] = (seed >> 16) as u8;
        gen_seed[i * 4 + 3] = (seed >> 24) as u8;
        i = i + 1;
    }
    assert(gen_seed@ =~= generator_seed(seed));
    let mut table: [u8; 256] = [0u8; 256];
    let mut j: usize = 0;
    while j < 256
        invariant
            j <= 256,
            forall|k: int| 0 <= k < j ==> #[trigger] table[k] == k as u8,
        decreases 256 - j,
    {
        table[j] = j as u8;
        j = j + 1;
    }
    assert(table@ =~= identity_table());
    shuffle_table(gen_seed, table)
}

/// Widens each entry of a table to `u32`, for simpler GPU buffer access.
pub fn permutation_table_to_u32(table: &[u8; 256]) -> (r: [u32; 256])
    ensures
        forall|i: int| 0 <= i < 256 ==> #[trigger] r[i] == table[i] as u32,
{
    let mut result: [u32; 256] = [0u32; 256];
    let mut i: usize = 0;
    while i < 256
        invariant
            i <= 256,
            forall|k: int| 0 <= k < i ==> #[trigger] result[k] == table[k] as u32,
        decreases 256 - i,
    {
        result[i] = table[i] as u32;
        i = i + 1;
    }
    result
}

/// Every byte value occurs in the permutation table of every seed.
pub proof fn law_table_holds_every_byte(seed: u32, table: Seq<u8>, v: u8)
    requires
        table.to_multiset() == identity_table().to_multiset(),
    ensures
        table.len() == 256,
        table.contains(v),
{
    broadcast use vstd::seq_lib::group_to_multiset_ensures;

    let id = identity_table();
    assert(id[v as int] == v);
    assert(id.contains(v));
    assert(id.to_multiset().count(v) > 0);
    assert(table.to_multiset().len() == id.to_multiset().len());
}

} // verus!
