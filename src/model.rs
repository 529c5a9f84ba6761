//! The Game entity as the store holds it.
use vstd::prelude::*;

verus! {

/// One row of the games table.
///
/// `id` is the 128-bit value of a UUID; `created_at` is the insertion time in
/// microseconds since the Unix epoch, UTC.
#[derive(Debug, Clone, PartialEq, Eq)]
pub struct GameModel {
    pub id: u128,
    pub name: String,
    pub creator: String,
    pub plays: i32,
    pub created_at: i64,
}

impl GameModel {
    /// A field-by-field copy of the row.
    pub fn copied(&self) -> (r: GameModel)
        ensures
            r == *self,
    {
        GameModel {
            id: self.id,
            name: self.name.clone(),
            creator: self.creator.clone(),
            plays: self.plays,
            created_at: self.created_at,
        }
    }
}

} // verus!
