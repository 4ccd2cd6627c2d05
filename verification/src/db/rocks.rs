//! The decisions of the adapter for RocksDB's transactional, multi-threaded
//! engine. The adapter makes the engine's calls; what it decides on the way is
//! decided here.
//!
//! A table is a column family. The scans of `crate::scan` are the engine's
//! iterators: the start key and direction are its iterator mode, the floor and
//! the ceiling its lower and upper iteration bounds.

use vstd::prelude::*;

verus! {

/// What the engine reports when it fails to make a column family.
pub struct CreateFailure<E> {
    /// The failure itself, as the engine gave it.
    pub error: E,
    /// Whether the engine files the failure under invalid arguments.
    pub invalid_argument: bool,
    /// The failure as text.
    pub message: String,
}

/// `needle` occurs in `hay`, as a run of characters.
pub open spec fn occurs_in(needle: Seq<char>, hay: Seq<char>) -> bool {
    exists|i: int|
        0 <= i && i + needle.len() <= hay.len() && #[trigger] hay.subrange(i, i + needle.len())
            == needle
}

/// The words by which the engine says that a column family is there already.
pub open spec fn already_exists() -> Seq<char> {
    "Column family already exists"@
}

/// The failure says that the column family is there already.
pub open spec fn says_already_exists<E>(failure: CreateFailure<E>) -> bool {
    failure.invalid_argument && occurs_in(already_exists(), failure.message@)
}

/// `str::contains` with a string for its pattern: whether `needle` occurs in
/// `hay`.
#[verifier::external_body]
fn text_contains(hay: &str, needle: &str) -> (found: bool)
    ensures
        found == occurs_in(needle@, hay@),
{
    hay.contains(needle)
}

/// Settles what making a column family came to: a family that is there already
/// is as good as one just made, and any other failure stands.
pub fn settle_creation<E>(made: Result<(), CreateFailure<E>>) -> (out: Result<(), E>)
    ensures
        out == (match made {
            Ok(_) => Ok::<(), E>(()),
            Err(failure) => if says_already_exists(failure) {
                Ok::<(), E>(())
            } else {
                Err::<(), E>(failure.error)
            },
        }),
{
    match made {
        Ok(_) => Ok(()),
        Err(failure) => {
            if failure.invalid_argument && text_contains(
                failure.message.as_str(),
                "Column family already exists",
            ) {
                Ok(())
            } else {
                Err(failure.error)
            }
        },
    }
}

} // verus!
