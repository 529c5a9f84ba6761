//! A store held in memory, with the behaviour of the games table: `id` is the
//! key, `name` is unique, rows are listed by name. It stands in for the
//! database where one is not wanted, and its contracts state the data access
//! operations exactly.
use vstd::prelude::*;
use crate::error::GameError;
use crate::ident::{is_random_id, new_game_id};
use crate::model::GameModel;
use crate::schema::GameSchema;
use crate::text::{
    lemma_name_lt_irreflexive, lemma_name_lt_total, lemma_name_lt_transitive, name_less, name_lt,
};

verus! {

/// Rows strictly ascending by name (so names are unique), and ids unique.
pub open spec fn store_wf(rows: Seq<GameModel>) -> bool {
    &&& forall|i: int, j: int|
        0 <= i < j < rows.len() ==> name_lt(#[trigger] rows[i].name@, #[trigger] rows[j].name@)
    &&& forall|i: int, j: int| 0 <= i < j < rows.len() ==> #[trigger] rows[i].id != #[trigger] rows[j].id
}

/// Whether the row at `i` has this id.
pub open spec fn id_at(rows: Seq<GameModel>, id: u128, i: int) -> bool {
    0 <= i < rows.len() && rows[i].id == id
}

/// Whether some row has this id.
pub open spec fn has_id(rows: Seq<GameModel>, id: u128) -> bool {
    exists|i: int| id_at(rows, id, i)
}

/// The position of the row with this id.
pub open spec fn index_of(rows: Seq<GameModel>, id: u128) -> int {
    choose|i: int| id_at(rows, id, i)
}

/// Whether some row other than the one at `skip` has this name.
pub open spec fn name_taken_except(rows: Seq<GameModel>, name: Seq<char>, skip: int) -> bool {
    exists|i: int| 0 <= i < rows.len() && i != skip && #[trigger] rows[i].name@ == name
}

/// Whether some row has this name.
pub open spec fn name_taken(rows: Seq<GameModel>, name: Seq<char>) -> bool {
    name_taken_except(rows, name, -1)
}

/// The row that an insert of these values writes.
pub open spec fn new_row(id: u128, game: GameSchema, created_at: i64) -> GameModel {
    GameModel {
        id,
        name: game.name,
        creator: game.creator,
        plays: game.plays,
        created_at,
    }
}

/// `after` is `before` with `row` put in at some position.
pub open spec fn placed(before: Seq<GameModel>, after: Seq<GameModel>, row: GameModel) -> bool {
    exists|p: int| 0 <= p <= before.len() && after == before.insert(p, row)
}

/// Insert: a taken name is a conflict, a taken id a store error; else the
/// row is added.
pub open spec fn insert_post(
    before: Seq<GameModel>,
    after: Seq<GameModel>,
    row: GameModel,
    r: Result<GameModel, GameError>,
) -> bool {
    &&& store_wf(after)
    &&& if name_taken(before, row.name@) {
        r == Err::<GameModel, GameError>(GameError::Conflict) && after == before
    } else if has_id(before, row.id) {
        r == Err::<GameModel, GameError>(GameError::StoreError) && after == before
    } else {
        r == Ok::<GameModel, GameError>(row) && placed(before, after, row)
    }
}

/// Get by id: the row with that id, or `NotFound`.
pub open spec fn get_post(rows: Seq<GameModel>, id: u128, r: Result<GameModel, GameError>) -> bool {
    if has_id(rows, id) {
        r == Ok::<GameModel, GameError>(rows[index_of(rows, id)])
    } else {
        r == Err::<GameModel, GameError>(GameError::NotFound(id))
    }
}

/// Delete by id: the row is removed and returned, or `NotFound`.
pub open spec fn delete_post(
    before: Seq<GameModel>,
    after: Seq<GameModel>,
    id: u128,
    r: Result<GameModel, GameError>,
) -> bool {
    &&& store_wf(after)
    &&& if has_id(before, id) {
        &&& r == Ok::<GameModel, GameError>(before[index_of(before, id)])
        &&& after == before.remove(index_of(before, id))
    } else {
        r == Err::<GameModel, GameError>(GameError::NotFound(id)) && after == before
    }
}

/// The row with id and creation time of `current` and the given fields.
pub open spec fn overwritten(current: GameModel, fields: GameSchema) -> GameModel {
    GameModel {
        id: current.id,
        name: fields.name,
        creator: fields.creator,
        plays: fields.plays,
        created_at: current.created_at,
    }
}

/// Update by id: all three fields are overwritten; a missing id is
/// `NotFound`; a name held by another row is a store error.
pub open spec fn update_post(
    before: Seq<GameModel>,
    after: Seq<GameModel>,
    id: u128,
    fields: GameSchema,
    r: Result<GameModel, GameError>,
) -> bool {
    let i = index_of(before, id);
    &&& store_wf(after)
    &&& if !has_id(before, id) {
        r == Err::<GameModel, GameError>(GameError::NotFound(id)) && after == before
    } else if name_taken_except(before, fields.name@, i) {
        r == Err::<GameModel, GameError>(GameError::StoreError) && after == before
    } else {
        &&& r == Ok::<GameModel, GameError>(overwritten(before[i], fields))
        &&& placed(before.remove(i), after, overwritten(before[i], fields))
    }
}

/// The ids in a store are unique, so the row found for an id is the one.
pub proof fn lemma_index_of(rows: Seq<GameModel>, id: u128, i: int)
    requires
        store_wf(rows),
        id_at(rows, id, i),
    ensures
        has_id(rows, id),
        index_of(rows, id) == i,
{
    assert(id_at(rows, id, i));
    let k = index_of(rows, id);
    if k != i {
        if k < i {
            assert(rows[k].id != rows[i].id);
        } else {
            assert(rows[i].id != rows[k].id);
        }
    }
}

/// The games, in memory.
pub struct MemoryStore {
    games: Vec<GameModel>,
}

impl MemoryStore {
    /// The rows, in the order of their names.
    pub closed spec fn rows(&self) -> Seq<GameModel> {
        self.games@
    }

    pub open spec fn wf(&self) -> bool {
        store_wf(self.rows())
    }

    /// An empty store.
    pub fn new() -> (r: MemoryStore)
        ensures
            r.wf(),
            r.rows() == Seq::<GameModel>::empty(),
    {
        MemoryStore { games: Vec::new() }
    }

    /// Whether some row has this name.
    fn find_name(&self, name: &String) -> (r: bool)
        ensures
            r == name_taken(self.rows(), name@),
    {
        let mut i: usize = 0;
        while i < self.games.len()
            invariant
                i <= self.games@.len(),
                forall|k: int| 0 <= k < i ==> #[trigger] self.games@[k].name@ != name@,
            decreases self.games@.len() - i,
        {
            if self.games[i].name == *name {
                assert(self.games@[i as int].name@ == name@);
                return true;
            }
            i = i + 1;
        }
        false
    }

    /// The position of the row with this id, if any.
    fn find_id(&self, id: u128) -> (r: Option<usize>)
        requires
            self.wf(),
        ensures
            match r {
                Some(i) => has_id(self.rows(), id) && i == index_of(self.rows(), id),
                None => !has_id(self.rows(), id),
            },
    {
        let mut i: usize = 0;
        while i < self.games.len()
            invariant
                self.wf(),
                i <= self.games@.len(),
                forall|k: int| 0 <= k < i ==> #[trigger] self.games@[k].id != id,
            decreases self.games@.len() - i,
        {
            if self.games[i].id == id {
                proof {
                    lemma_index_of(self.rows(), id, i as int);
                }
                return Some(i);
            }
            i = i + 1;
        }
        None
    }

    /// Puts `row` in at the position its name gives.
    fn place(&mut self, row: GameModel)
        requires
            old(self).wf(),
            !name_taken(old(self).rows(), row.name@),
            !has_id(old(self).rows(), row.id),
        ensures
            final(self).wf(),
            placed(old(self).rows(), final(self).rows(), row),
    {
        let mut p: usize = 0;
        while p < self.games.len() && name_less(self.games[p].name.as_str(), row.name.as_str())
            invariant
                p <= self.games@.len(),
                forall|k: int| 0 <= k < p ==> name_lt(#[trigger] self.games@[k].name@, row.name@),
            decreases self.games@.len() - p,
        {
            p = p + 1;
        }
        let ghost before = self.games@;
        proof {
            if p < before.len() {
                lemma_name_lt_total(before[p as int].name@, row.name@);
                assert(before[p as int].name@ != row.name@);
                assert forall|k: int| p <= k < before.len() implies name_lt(row.name@, #[trigger] before[k].name@) by {
                    if k > p {
                        lemma_name_lt_transitive(row.name@, before[p as int].name@, before[k].name@);
                    }
                }
            }
            assert forall|k: int| 0 <= k < before.len() implies #[trigger] before[k].id != row.id by {
                if before[k].id == row.id {
                    assert(id_at(before, row.id, k));
                }
            }
        }
        self.games.insert(p, row);
        assert(self.games@ == before.insert(p as int, row));
    }

    /// Inserts a new row: fails with `Conflict` where the name is taken and
    /// with `StoreError` where the id is.
    pub fn insert(&mut self, id: u128, game: GameSchema, created_at: i64) -> (r: Result<GameModel, GameError>)
        requires
            old(self).wf(),
        ensures
            final(self).wf(),
            insert_post(old(self).rows(), final(self).rows(), new_row(id, game, created_at), r),
    {
        if self.find_name(&game.name) {
            return Err(GameError::Conflict);
        }
        if self.find_id(id).is_some() {
            return Err(GameError::StoreError);
        }
        let row = GameModel { id, name: game.name, creator: game.creator, plays: game.plays, created_at };
        let out = row.copied();
        self.place(row);
        Ok(out)
    }

    /// Creates a game under a fresh random id.
    pub fn create(&mut self, game: GameSchema, created_at: i64) -> (r: Result<GameModel, GameError>)
        requires
            old(self).wf(),
        ensures
            final(self).wf(),
            exists|id: u128|
                is_random_id(id) && insert_post(
                    old(self).rows(),
                    final(self).rows(),
                    new_row(id, game, created_at),
                    r,
                ),
    {
        let id = new_game_id();
        self.insert(id, game, created_at)
    }

    /// Every row, ascending by name.
    pub fn list_all(&self) -> (r: Vec<GameModel>)
        ensures
            r@ == self.rows(),
    {
        let mut out: Vec<GameModel> = Vec::new();
        let mut i: usize = 0;
        while i < self.games.len()
            invariant
                i <= self.games@.len(),
                out@ == self.games@.subrange(0, i as int),
            decreases self.games@.len() - i,
        {
            out.push(self.games[i].copied());
            i = i + 1;
            assert(out@ =~= self.games@.subrange(0, i as int));
        }
        assert(out@ =~= self.games@);
        out
    }

    /// The row with this id, or `NotFound`.
    pub fn get_by_id(&self, id: u128) -> (r: Result<GameModel, GameError>)
        requires
            self.wf(),
        ensures
            get_post(self.rows(), id, r),
    {
        match self.find_id(id) {
            Some(i) => Ok(self.games[i].copied()),
            None => Err(GameError::NotFound(id)),
        }
    }

    /// Removes and returns the row with this id, or `NotFound`.
    pub fn delete_by_id(&mut self, id: u128) -> (r: Result<GameModel, GameError>)
        requires
            old(self).wf(),
        ensures
            final(self).wf(),
            delete_post(old(self).rows(), final(self).rows(), id, r),
    {
        match self.find_id(id) {
            Some(i) => {
                let ghost before = self.games@;
                let row = self.games.remove(i);
                proof {
                    assert forall|a: int, b: int| 0 <= a < b < self.games@.len() implies
                        name_lt(#[trigger] self.games@[a].name@, #[trigger] self.games@[b].name@)
                        && self.games@[a].id != self.games@[b].id by {
                        let a0 = if a < i { a } else { a + 1 };
                        let b0 = if b < i { b } else { b + 1 };
                        assert(self.games@[a] == before[a0]);
                        assert(self.games@[b] == before[b0]);
                    }
                }
                Ok(row)
            },
            None => Err(GameError::NotFound(id)),
        }
    }

    /// Overwrites the three mutable fields of the row with this id.
    pub fn update_by_id(&mut self, id: u128, fields: GameSchema) -> (r: Result<GameModel, GameError>)
        requires
            old(self).wf(),
        ensures
            final(self).wf(),
            update_post(old(self).rows(), final(self).rows(), id, fields, r),
    {
        let found = self.find_id(id);
        if found.is_none() {
            return Err(GameError::NotFound(id));
        }
        let i = found.unwrap();
        let ghost before = self.games@;
        assert(has_id(before, id) && i == index_of(before, id));
        let mut k: usize = 0;
        while k < self.games.len()
            invariant
                self.games@ == before,
                self.wf(),
                has_id(before, id),
                i == index_of(before, id),
                i < before.len(),
                k <= before.len(),
                forall|m: int| 0 <= m < k && m != i ==> #[trigger] before[m].name@ != fields.name@,
            decreases before.len() - k,
        {
            if k != i && self.games[k].name == fields.name {
                assert(before[k as int].name@ == fields.name@);
                assert(name_taken_except(before, fields.name@, i as int));
                return Err(GameError::StoreError);
            }
            k = k + 1;
        }
        let current = self.games.remove(i);
        proof {
            assert forall|a: int, b: int| 0 <= a < b < self.games@.len() implies
                name_lt(#[trigger] self.games@[a].name@, #[trigger] self.games@[b].name@)
                && self.games@[a].id != self.games@[b].id by {
                let a0 = if a < i { a } else { a + 1 };
                let b0 = if b < i { b } else { b + 1 };
                assert(self.games@[a] == before[a0]);
                assert(self.games@[b] == before[b0]);
            }
            assert forall|m: int| 0 <= m < self.games@.len() implies #[trigger] self.games@[m].name@ != fields.name@ by {
                let m0 = if m < i { m } else { m + 1 };
                assert(self.games@[m] == before[m0]);
            }
            assert forall|m: int| 0 <= m < self.games@.len() implies #[trigger] self.games@[m].id != id by {
                let m0 = if m < i { m } else { m + 1 };
                assert(self.games@[m] == before[m0]);
                assert(before[i as int].id != before[m0].id);
            }
            if has_id(self.games@, id) {
                let m = choose|m: int| id_at(self.games@, id, m);
                assert(self.games@[m].id != id);
            }
        }
        let row = GameModel {
            id: current.id,
            name: fields.name,
            creator: fields.creator,
            plays: fields.plays,
            created_at: current.created_at,
        };
        let out = row.copied();
        self.place(row);
        Ok(out)
    }
}

} // verus!
