//! Audio capture pipeline: device configuration, channel mixing and
//! resampling plans, and the chunking that feeds the voice detector.

pub mod capture;
pub mod config;
pub mod resampler;

use vstd::prelude::*;

verus! {

/// Samples in one 10 ms chunk at 16 kHz.
pub const CHUNK_SIZE: usize = 160;

/// Chunks the resampled-audio buffer can hold.
pub const MAX_BUFFERED_CHUNKS: usize = 2;

/// Sample rate the recognizer expects.
pub const TARGET_SAMPLE_RATE: u32 = 16000;

/// Concatenation of pieces, in order.
pub open spec fn concat<T>(pieces: Seq<Seq<T>>) -> Seq<T>
    decreases pieces.len(),
{
    if pieces.len() == 0 {
        Seq::empty()
    } else {
        concat(pieces.drop_last()) + pieces.last()
    }
}

/// Concatenating two runs of pieces is concatenating each run.
pub proof fn lemma_concat_append<T>(a: Seq<Seq<T>>, b: Seq<Seq<T>>)
    ensures
        concat(a + b) == concat(a) + concat(b),
    decreases b.len(),
{
    if b.len() == 0 {
        assert(a + b =~= a);
        assert(concat(a) + Seq::<T>::empty() =~= concat(a));
    } else {
        assert((a + b).drop_last() =~= a + b.drop_last());
        assert((a + b).last() == b.last());
        lemma_concat_append(a, b.drop_last());
        assert((concat(a) + concat(b.drop_last())) + b.last() =~= concat(a) + (concat(
            b.drop_last(),
        ) + b.last()));
    }
}

/// Pieces that all have `n` items concatenate to `n` items per piece.
pub proof fn lemma_concat_uniform_len<T>(pieces: Seq<Seq<T>>, n: nat)
    requires
        forall|i: int| 0 <= i < pieces.len() ==> (#[trigger] pieces[i]).len() == n,
    ensures
        concat(pieces).len() == n * pieces.len(),
    decreases pieces.len(),
{
    if pieces.len() > 0 {
        let rest = pieces.drop_last();
        assert forall|i: int| 0 <= i < rest.len() implies (#[trigger] rest[i]).len() == n by {
            assert(rest[i] == pieces[i]);
        }
        lemma_concat_uniform_len(rest, n);
        assert(pieces.last() == pieces[pieces.len() - 1]);
        assert(n * rest.len() + n == n * pieces.len()) by (nonlinear_arith)
            requires
                rest.len() + 1 == pieces.len(),
        ;
    }
}

} // verus!
