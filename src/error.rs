//! Failures of the store and the domain's error taxonomy.
use vstd::prelude::*;
use crate::text::{contains_text, occurs_in};

verus! {

/// A failure as the store client reports it.
#[derive(Debug, Clone, PartialEq, Eq)]
pub enum StoreFailure {
    /// A statement that must return a row returned none.
    RowNotFound,
    /// Any other failure, with the client's text for it.
    Other(String),
}

/// What went wrong with an operation on games.
#[derive(Debug, Clone, Copy, PartialEq, Eq, Structural)]
pub enum GameError {
    /// No game has this id.
    NotFound(u128),
    /// A game with this name already exists.
    Conflict,
    /// Any other failure of the store.
    StoreError,
}

/// The text by which the store reports a uniqueness violation.
pub open spec fn duplicate_marker() -> Seq<char> {
    "duplicate key value"@
}

/// The error of a failed insert: a uniqueness violation is a conflict.
pub open spec fn insert_error(f: StoreFailure) -> GameError {
    match f {
        StoreFailure::Other(text) => if occurs_in(text@, duplicate_marker()) {
            GameError::Conflict
        } else {
            GameError::StoreError
        },
        StoreFailure::RowNotFound => GameError::StoreError,
    }
}

/// The error of a failed lookup, removal or existence check of `id`.
pub open spec fn lookup_error(id: u128, f: StoreFailure) -> GameError {
    match f {
        StoreFailure::RowNotFound => GameError::NotFound(id),
        StoreFailure::Other(_) => GameError::StoreError,
    }
}

/// Classifies a failed insert.
pub fn insert_failure(f: &StoreFailure) -> (e: GameError)
    ensures
        e == insert_error(*f),
{
    match f {
        StoreFailure::Other(text) => {
            if contains_text(text.as_str(), "duplicate key value") {
                proof {
                    reveal_strlit("duplicate key value");
                }
                GameError::Conflict
            } else {
                proof {
                    reveal_strlit("duplicate key value");
                }
                GameError::StoreError
            }
        },
        StoreFailure::RowNotFound => GameError::StoreError,
    }
}

/// Classifies a failed lookup, removal or existence check of `id`.
pub fn lookup_failure(id: u128, f: &StoreFailure) -> (e: GameError)
    ensures
        e == lookup_error(id, *f),
{
    match f {
        StoreFailure::RowNotFound => GameError::NotFound(id),
        StoreFailure::Other(_) => GameError::StoreError,
    }
}

/// Classifies a failed write of an update: the row was found just before,
/// so every failure here is a store error.
pub fn write_failure(f: &StoreFailure) -> (e: GameError)
    ensures
        e == GameError::StoreError,
{
    GameError::StoreError
}

} // verus!
