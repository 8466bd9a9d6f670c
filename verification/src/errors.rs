use vstd::prelude::*;

verus! {

/// Failure taxonomy of the background workers.  A transport failure means the
/// remote directory could not be reached or answered badly; a decode failure
/// means fetched bytes were not a valid image.  An empty record list is not an
/// error: it is a valid empty page.  Both carry a human-readable cause; no
/// failure is ever retried automatically, and none is fatal.
#[derive(Debug)]
pub enum FetchError {
    Transport(String),
    Decode(String),
}

} // verus!
