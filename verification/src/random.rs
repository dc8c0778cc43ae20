//! The random choices of a scramble, made by the `rand` crate.
use vstd::prelude::*;

use rand::rngs::{StdRng, ThreadRng};
use rand::seq::{IndexedRandom, IteratorRandom};
use rand::SeedableRng;

verus! {

/// `rand::rngs::StdRng`, a seedable generator; opaque here.
#[verifier::external_type_specification]
#[verifier::external_body]
pub struct ExStdRng(StdRng);

/// `rand::rngs::ThreadRng`, the generator of the current thread; opaque here.
#[verifier::external_type_specification]
#[verifier::external_body]
pub struct ExThreadRng(ThreadRng);

/// `rand::SeedableRng::seed_from_u64` for `StdRng`. Nothing is stated of the
/// generator it returns: the same seed gives the same generator, but the
/// generator's state cannot be seen here.
#[verifier::external_body]
pub(crate) fn seeded_rng(seed: u64) -> StdRng {
    StdRng::seed_from_u64(seed)
}

/// `rand::rng`, a handle to the thread's generator, seeded from the system's
/// entropy. Nothing is stated of it; rand panics when the system's entropy
/// source fails at the first use in a thread, which depends on the machine
/// and is not stated here.
#[verifier::external_body]
pub(crate) fn thread_rng() -> ThreadRng {
    rand::rng()
}

/// `rand::seq::IteratorRandom::choose` on the items of a slice, driven by a
/// `StdRng`. For a slice, rand draws an index below the length and returns that
/// item, so the result is `None` exactly for an empty slice and otherwise one of
/// the slice's items; which one depends on the generator's state.
#[verifier::external_body]
pub(crate) fn choose_seeded<T: Copy>(rng: &mut StdRng, items: &[T]) -> (chosen: Option<T>)
    ensures
        chosen.is_none() == (items@.len() == 0),
        chosen.is_some() ==> items@.contains(chosen.unwrap()),
{
    items.iter().choose(rng).copied()
}

/// `rand::seq::IteratorRandom::choose` on the items of a slice, driven by the
/// thread's generator; the same statement as for `choose_seeded`.
#[verifier::external_body]
pub(crate) fn choose_thread<T: Copy>(rng: &mut ThreadRng, items: &[T]) -> (chosen: Option<T>)
    ensures
        chosen.is_none() == (items@.len() == 0),
        chosen.is_some() ==> items@.contains(chosen.unwrap()),
{
    items.iter().choose(rng).copied()
}

/// The generator that drives a scramble.
pub(crate) enum ScrambleRng {
    Seeded(StdRng),
    Thread(ThreadRng),
}

/// Picks one of `items` at random.
pub(crate) fn pick<T: Copy>(rng: &mut ScrambleRng, items: &[T]) -> (chosen: Option<T>)
    ensures
        chosen.is_none() == (items@.len() == 0),
        chosen.is_some() ==> items@.contains(chosen.unwrap()),
{
    match rng {
        ScrambleRng::Seeded(r) => choose_seeded(r, items),
        ScrambleRng::Thread(r) => choose_thread(r, items),
    }
}

/// `picked` holds items of `items` taken at distinct positions.
pub open spec fn taken_without_repeats<T>(picked: Seq<T>, items: Seq<T>) -> bool {
    exists|positions: Seq<int>|
        #![trigger positions.len()]
        positions.len() == picked.len()
        && (forall|i: int| 0 <= i < positions.len() ==> 0 <= #[trigger] positions[i] < items.len())
        && (forall|i: int, j: int| 0 <= i < j < positions.len() ==> #[trigger] positions[i] != #[trigger] positions[j])
        && (forall|i: int| 0 <= i < positions.len() ==> #[trigger] picked[i] == items[positions[i]])
}

/// `rand::seq::IndexedRandom::sample` on a slice, collected: `amount` distinct
/// items (all of them when there are fewer), in random order. Stated: the
/// length of the result, and that its items are the slice's items at distinct
/// positions; which positions depends on the generator's state.
#[verifier::external_body]
pub(crate) fn sample_items<'a, T>(items: &'a [T], rng: &mut ThreadRng, amount: usize) -> (picked: Vec<&'a T>)
    ensures
        picked@.len() == if amount < items@.len() { amount as int } else { items@.len() as int },
        taken_without_repeats(picked@.map_values(|x: &T| *x), items@),
{
    items.sample(rng, amount).collect()
}

} // verus!
