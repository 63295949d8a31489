//! The totals of a synthesis task.

use vstd::prelude::*;

verus! {

/// The sample rate of the preview audio, in hertz.
pub fn default_sample_rate() -> (r: i32)
    ensures
        r == 44_100,
{
    44_100
}

/// The sum of the first `n` of `counts`.
pub open spec fn sum_upto(counts: Seq<usize>, n: int) -> int
    decreases n,
{
    if n <= 0 {
        0
    } else {
        sum_upto(counts, n - 1) + counts[n - 1]
    }
}

/// A sum grows with every count.
pub(crate) proof fn lemma_sum_upto_monotonic(counts: Seq<usize>, m: int, n: int)
    requires
        0 <= m <= n,
    ensures
        0 <= sum_upto(counts, m) <= sum_upto(counts, n),
    decreases n,
{
    if n > 0 {
        if m < n {
            lemma_sum_upto_monotonic(counts, m, n - 1);
        } else {
            lemma_sum_upto_monotonic(counts, m - 1, n - 1);
        }
    }
}

/// `first` and all of `counts` together, or `None` where that is more than
/// a `usize` holds.
pub fn total_count(first: usize, counts: &[usize]) -> (r: Option<usize>)
    ensures
        r is Some <==> first + sum_upto(counts@, counts.len() as int) <= usize::MAX,
        r is Some ==> r->0 == first + sum_upto(counts@, counts.len() as int),
{
    let mut total: usize = first;
    let mut i: usize = 0;
    while i < counts.len()
        invariant
            i <= counts.len(),
            total == first + sum_upto(counts@, i as int),
        decreases counts.len() - i,
    {
        if counts[i] > usize::MAX - total {
            proof {
                lemma_sum_upto_monotonic(counts@, i + 1, counts.len() as int);
            }
            return None;
        }
        total = total + counts[i];
        i += 1;
    }
    Some(total)
}

/// The number of properties of a task: those of the part and those of
/// every note.
pub fn property_count(part_properties: usize, note_properties: &[usize]) -> (r: Option<usize>)
    ensures
        r is Some <==> part_properties + sum_upto(note_properties@, note_properties.len() as int)
            <= usize::MAX,
        r is Some ==> r->0 == part_properties + sum_upto(
            note_properties@,
            note_properties.len() as int,
        ),
{
    total_count(part_properties, note_properties)
}

/// The number of phonemes that the caller states: those of every note.
pub fn phoneme_count(note_phonemes: &[usize]) -> (r: Option<usize>)
    ensures
        r is Some <==> sum_upto(note_phonemes@, note_phonemes.len() as int) <= usize::MAX,
        r is Some ==> r->0 == sum_upto(note_phonemes@, note_phonemes.len() as int),
{
    total_count(0, note_phonemes)
}

} // verus!
