//! The shapes of inbound payloads.
use vstd::prelude::*;
use crate::model::GameModel;

verus! {

/// The payload of a create: every field is required.
#[derive(Debug, Clone, PartialEq, Eq)]
pub struct GameSchema {
    pub name: String,
    pub creator: String,
    pub plays: i32,
}

/// The payload of an update: an absent field means "leave unchanged".
#[derive(Debug, Clone, Default, PartialEq, Eq)]
pub struct UpdateGameSchema {
    pub name: Option<String>,
    pub creator: Option<String>,
    pub plays: Option<i32>,
}

/// The payload value where present, else the current one.
pub open spec fn or_current<T>(given: Option<T>, current: T) -> T {
    match given {
        Some(v) => v,
        None => current,
    }
}

fn text_or_current(given: &Option<String>, current: &String) -> (r: String)
    ensures
        r == or_current(*given, *current),
{
    match given {
        Some(v) => v.clone(),
        None => current.clone(),
    }
}

impl UpdateGameSchema {
    /// Whether no field is given.
    pub open spec fn is_empty(&self) -> bool {
        self.name is None && self.creator is None && self.plays is None
    }

    /// The three mutable fields after applying this payload to `current`.
    pub open spec fn merge_spec(&self, current: GameModel) -> GameSchema {
        GameSchema {
            name: or_current(self.name, current.name),
            creator: or_current(self.creator, current.creator),
            plays: or_current(self.plays, current.plays),
        }
    }

    /// Takes each field from the payload where given, else from `current`.
    pub fn merged(&self, current: &GameModel) -> (r: GameSchema)
        ensures
            r == self.merge_spec(*current),
    {
        let plays = match self.plays {
            Some(p) => p,
            None => current.plays,
        };
        GameSchema {
            name: text_or_current(&self.name, &current.name),
            creator: text_or_current(&self.creator, &current.creator),
            plays,
        }
    }
}

} // verus!
