//! The signal by which another thread ends a search early.

use std::sync::atomic::{AtomicBool, Ordering};
use vstd::prelude::*;

verus! {

/// Reads the signal once. A search without a signal reads it as not set.
/// What a signal reads as is up to whoever holds it.
pub(crate) fn is_set(signal: Option<&AtomicBool>) -> (set: bool)
    ensures
        signal is None ==> !set,
{
    match signal {
        Some(flag) => flag.load(Ordering::SeqCst),
        None => false,
    }
}

} // verus!
