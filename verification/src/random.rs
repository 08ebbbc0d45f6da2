//! The one place where chance comes in: putting the tracks in a random order.

use rand::seq::SliceRandom;
use vstd::prelude::*;
use crate::song::{views, Song};

verus! {

/// The random number generator of the calling thread.
#[verifier::external_type_specification]
#[verifier::external_body]
pub struct ExThreadRng(rand::rngs::ThreadRng);

/// `rand::thread_rng` hands out the generator of the calling thread. Nothing
/// is claimed of it.
pub assume_specification[ rand::thread_rng ]() -> (rng: rand::rngs::ThreadRng)
;

/// `SliceRandom::shuffle` reorders a slice in place by swapping its items, so
/// the songs afterwards are the songs before, each as often as before. Which
/// order comes out is left open.
#[verifier::external_body]
pub(crate) fn shuffle_songs(songs: &mut Vec<Song>, rng: &mut rand::rngs::ThreadRng)
    ensures
        views(final(songs)@).to_multiset() == views(old(songs)@).to_multiset(),
{
    songs.shuffle(rng);
}

} // verus!
