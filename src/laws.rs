//! Laws of the data access operations and the handlers, proved over the
//! postconditions that the operations themselves guarantee.
use vstd::prelude::*;
use crate::error::GameError;
use crate::handler::{error_code, is_error_reply, Reply};
use crate::memory::{
    delete_post, get_post, has_id, id_at, index_of, insert_post, lemma_index_of, name_taken,
    name_taken_except, overwritten, placed, store_wf, update_post,
};
use crate::model::GameModel;
use crate::schema::UpdateGameSchema;
use crate::text::{lemma_name_lt_irreflexive, name_lt};

verus! {

/// Every row of the store ascends strictly by name.
pub open spec fn sorted_by_name(rows: Seq<GameModel>) -> bool {
    forall|i: int, j: int|
        0 <= i < j < rows.len() ==> name_lt(#[trigger] rows[i].name@, #[trigger] rows[j].name@)
}

/// A row that was put in is found by its id.
pub proof fn lemma_placed_found(before: Seq<GameModel>, after: Seq<GameModel>, row: GameModel)
    requires
        placed(before, after, row),
        store_wf(after),
    ensures
        has_id(after, row.id),
        after[index_of(after, row.id)] == row,
        after.len() == before.len() + 1,
{
    let p = choose|p: int| 0 <= p <= before.len() && after == before.insert(p, row);
    assert(after[p] == row);
    lemma_index_of(after, row.id, p);
}

/// In a store, no row other than the one at `i` has the name of row `i`.
proof fn lemma_name_unique(rows: Seq<GameModel>, i: int)
    requires
        store_wf(rows),
        0 <= i < rows.len(),
    ensures
        !name_taken_except(rows, rows[i].name@, i),
{
    if name_taken_except(rows, rows[i].name@, i) {
        let j = choose|j: int| 0 <= j < rows.len() && j != i && #[trigger] rows[j].name@ == rows[i].name@;
        lemma_name_lt_irreflexive(rows[i].name@);
        if j < i {
            assert(name_lt(rows[j].name@, rows[i].name@));
        } else {
            assert(name_lt(rows[i].name@, rows[j].name@));
        }
    }
}

/// Creating a game under a name that no row holds never conflicts: it
/// succeeds with the row whenever its id is new, and its id is then one that
/// no earlier row had.
pub proof fn law_create_fresh_name(
    before: Seq<GameModel>,
    after: Seq<GameModel>,
    row: GameModel,
    r: Result<GameModel, GameError>,
)
    requires
        store_wf(before),
        !name_taken(before, row.name@),
        insert_post(before, after, row, r),
    ensures
        r != Err::<GameModel, GameError>(GameError::Conflict),
        !has_id(before, row.id) ==> r == Ok::<GameModel, GameError>(row),
        r is Ok ==> !has_id(before, row.id) && has_id(after, row.id) && after.len() == before.len() + 1,
{
    if r is Ok {
        lemma_placed_found(before, after, row);
    }
}

/// Of two creates with the same name, the second is a conflict.
pub proof fn law_duplicate_name_conflicts(
    s0: Seq<GameModel>,
    s1: Seq<GameModel>,
    s2: Seq<GameModel>,
    first: GameModel,
    second: GameModel,
    r1: Result<GameModel, GameError>,
    r2: Result<GameModel, GameError>,
)
    requires
        insert_post(s0, s1, first, r1),
        insert_post(s1, s2, second, r2),
        r1 is Ok,
        second.name@ == first.name@,
    ensures
        r2 == Err::<GameModel, GameError>(GameError::Conflict),
        s2 == s1,
{
    let p = choose|p: int| 0 <= p <= s0.len() && s1 == s0.insert(p, first);
    assert(s1[p].name@ == second.name@);
    assert(name_taken(s1, second.name@));
}

/// Inserting `rows` one after another, from `states[0]`, gives each next state.
pub open spec fn inserts_in_turn(
    states: Seq<Seq<GameModel>>,
    rows: Seq<GameModel>,
    results: Seq<Result<GameModel, GameError>>,
) -> bool {
    &&& states.len() == rows.len() + 1
    &&& results.len() == rows.len()
    &&& forall|k: int|
        0 <= k < rows.len() ==> insert_post(states[k], #[trigger] states[k + 1], rows[k], results[k])
}

/// Names and ids pairwise distinct.
pub open spec fn distinct_rows(rows: Seq<GameModel>) -> bool {
    forall|i: int, j: int|
        0 <= i < j < rows.len() ==> #[trigger] rows[i].name@ != #[trigger] rows[j].name@
            && rows[i].id != rows[j].id
}

/// Whether `g` is one of the first `m` rows.
spec fn among(rows: Seq<GameModel>, m: int, g: GameModel) -> bool {
    exists|x: int| 0 <= x < m && rows[x] == g
}

proof fn lemma_inserts_prefix(
    states: Seq<Seq<GameModel>>,
    rows: Seq<GameModel>,
    results: Seq<Result<GameModel, GameError>>,
    m: int,
)
    requires
        inserts_in_turn(states, rows, results),
        states[0] == Seq::<GameModel>::empty(),
        distinct_rows(rows),
        0 <= m <= rows.len(),
    ensures
        states[m].len() == m,
        store_wf(states[m]),
        forall|x: int| 0 <= x < m ==> #[trigger] states[m].contains(rows[x]),
        forall|y: int| 0 <= y < states[m].len() ==> #[trigger] among(rows, m, states[m][y]),
        forall|k: int| 0 <= k < m ==> #[trigger] results[k] == Ok::<GameModel, GameError>(rows[k]),
    decreases m,
{
    if m > 0 {
        let k = m - 1;
        lemma_inserts_prefix(states, rows, results, k);
        let before = states[k];
        let after = states[m];
        assert(insert_post(before, states[k + 1], rows[k], results[k]));
        if name_taken(before, rows[k].name@) {
            let y = choose|y: int| 0 <= y < before.len() && y != -1 && #[trigger] before[y].name@ == rows[k].name@;
            assert(among(rows, k, before[y]));
            let x = choose|x: int| 0 <= x < k && rows[x] == before[y];
            assert(rows[x].name@ != rows[k].name@);
        }
        if has_id(before, rows[k].id) {
            let y = choose|y: int| id_at(before, rows[k].id, y);
            assert(among(rows, k, before[y]));
            let x = choose|x: int| 0 <= x < k && rows[x] == before[y];
            assert(rows[x].name@ != rows[k].name@);
            assert(rows[x].id != rows[k].id);
        }
        let p = choose|p: int| 0 <= p <= before.len() && after == before.insert(p, rows[k]);
        assert forall|x: int| 0 <= x < m implies #[trigger] after.contains(rows[x]) by {
            if x < k {
                assert(before.contains(rows[x]));
                let y = choose|y: int| 0 <= y < before.len() && before[y] == rows[x];
                if y < p {
                    assert(after[y] == rows[x]);
                } else {
                    assert(after[y + 1] == rows[x]);
                }
            } else {
                assert(after[p] == rows[x]);
            }
        }
        assert forall|y: int| 0 <= y < after.len() implies #[trigger] among(rows, m, after[y]) by {
            if y < p {
                assert(after[y] == before[y]);
                assert(among(rows, k, before[y]));
            } else if y == p {
                assert(rows[k] == after[y]);
            } else {
                assert(after[y] == before[y - 1]);
                assert(among(rows, k, before[y - 1]));
            }
        }
    }
}

/// Creating games with distinct names and ids into an empty store succeeds
/// each time, and the store then holds exactly those games, ascending by name.
pub proof fn law_distinct_creates_listed(
    states: Seq<Seq<GameModel>>,
    rows: Seq<GameModel>,
    results: Seq<Result<GameModel, GameError>>,
)
    requires
        inserts_in_turn(states, rows, results),
        states[0] == Seq::<GameModel>::empty(),
        distinct_rows(rows),
    ensures
        states.last().len() == rows.len(),
        sorted_by_name(states.last()),
        forall|x: int| 0 <= x < rows.len() ==> #[trigger] states.last().contains(rows[x]),
        forall|k: int| 0 <= k < rows.len() ==> #[trigger] results[k] == Ok::<GameModel, GameError>(rows[k]),
{
    lemma_inserts_prefix(states, rows, results, rows.len() as int);
}

/// A get of an id that no row has is `NotFound`, and its reply is a 404.
pub proof fn law_get_missing_not_found(
    rows: Seq<GameModel>,
    id: u128,
    r: Result<GameModel, GameError>,
    reply: Reply,
)
    requires
        !has_id(rows, id),
        get_post(rows, id, r),
        match r {
            Err(e) => is_error_reply(reply, e),
            Ok(_) => true,
        },
    ensures
        r == Err::<GameModel, GameError>(GameError::NotFound(id)),
        reply.code == 404,
{
}

/// A delete returns the row; a second delete of the same id is `NotFound`.
pub proof fn law_delete_twice(
    s0: Seq<GameModel>,
    s1: Seq<GameModel>,
    s2: Seq<GameModel>,
    id: u128,
    r1: Result<GameModel, GameError>,
    r2: Result<GameModel, GameError>,
)
    requires
        store_wf(s0),
        has_id(s0, id),
        delete_post(s0, s1, id, r1),
        delete_post(s1, s2, id, r2),
    ensures
        r1 == Ok::<GameModel, GameError>(s0[index_of(s0, id)]),
        r2 == Err::<GameModel, GameError>(GameError::NotFound(id)),
        s2 == s1,
        s1.len() == s0.len() - 1,
{
    let i = index_of(s0, id);
    assert(id_at(s0, id, i));
    if has_id(s1, id) {
        let j = choose|j: int| id_at(s1, id, j);
        let j0 = if j < i { j } else { j + 1 };
        assert(s1[j] == s0[j0]);
        if j0 < i {
            assert(s0[j0].id != s0[i].id);
        } else {
            assert(s0[i].id != s0[j0].id);
        }
    }
}

/// An update with no field given writes the row back as it was.
pub proof fn law_empty_update_unchanged(
    before: Seq<GameModel>,
    after: Seq<GameModel>,
    id: u128,
    payload: UpdateGameSchema,
    r: Result<GameModel, GameError>,
)
    requires
        store_wf(before),
        has_id(before, id),
        payload.is_empty(),
        update_post(before, after, id, payload.merge_spec(before[index_of(before, id)]), r),
    ensures
        r == Ok::<GameModel, GameError>(before[index_of(before, id)]),
        has_id(after, id),
        after[index_of(after, id)] == before[index_of(before, id)],
        after.len() == before.len(),
{
    let i = index_of(before, id);
    assert(id_at(before, id, i));
    lemma_name_unique(before, i);
    let cur = before[i];
    assert(overwritten(cur, payload.merge_spec(cur)) == cur);
    lemma_placed_found(before.remove(i), after, cur);
}

/// An update that gives only `plays` changes `plays` and keeps the name and
/// the creator.
pub proof fn law_plays_update(
    before: Seq<GameModel>,
    after: Seq<GameModel>,
    id: u128,
    payload: UpdateGameSchema,
    plays: i32,
    r: Result<GameModel, GameError>,
)
    requires
        store_wf(before),
        has_id(before, id),
        payload.name is None,
        payload.creator is None,
        payload.plays == Some(plays),
        update_post(before, after, id, payload.merge_spec(before[index_of(before, id)]), r),
    ensures
        r matches Ok(g) && g.plays == plays && g.name == before[index_of(before, id)].name
            && g.creator == before[index_of(before, id)].creator && g.id == id,
        has_id(after, id),
        after[index_of(after, id)].plays == plays,
        after[index_of(after, id)].name == before[index_of(before, id)].name,
        after[index_of(after, id)].creator == before[index_of(before, id)].creator,
{
    let i = index_of(before, id);
    assert(id_at(before, id, i));
    lemma_name_unique(before, i);
    lemma_placed_found(before.remove(i), after, overwritten(before[i], payload.merge_spec(before[i])));
}

/// Two updates planned from the same read of a row race: the second write
/// overwrites the whole row, so a field that only the first update gave is
/// lost.
pub proof fn law_update_race_last_writer_wins(
    s0: Seq<GameModel>,
    s1: Seq<GameModel>,
    s2: Seq<GameModel>,
    id: u128,
    first: UpdateGameSchema,
    second: UpdateGameSchema,
    r1: Result<GameModel, GameError>,
    r2: Result<GameModel, GameError>,
)
    requires
        store_wf(s0),
        has_id(s0, id),
        update_post(s0, s1, id, first.merge_spec(s0[index_of(s0, id)]), r1),
        update_post(s1, s2, id, second.merge_spec(s0[index_of(s0, id)]), r2),
    ensures
        r2 matches Ok(g) ==> g == overwritten(s0[index_of(s0, id)], second.merge_spec(s0[index_of(s0, id)])),
        second.plays is None ==> (r2 matches Ok(g) ==> g.plays == s0[index_of(s0, id)].plays),
        second.name is None ==> (r2 matches Ok(g) ==> g.name == s0[index_of(s0, id)].name),
        second.creator is None ==> (r2 matches Ok(g) ==> g.creator == s0[index_of(s0, id)].creator),
{
    let i = index_of(s0, id);
    assert(id_at(s0, id, i));
    let cur = s0[i];
    if r1 is Ok {
        lemma_placed_found(s0.remove(i), s1, overwritten(cur, first.merge_spec(cur)));
    }
}

/// The reply to a failure carries the code of its error.
pub proof fn law_error_reply_code(reply: Reply, e: GameError)
    requires
        is_error_reply(reply, e),
    ensures
        e is NotFound ==> reply.code == 404,
        e is Conflict ==> reply.code == 409,
        e is StoreError ==> reply.code == 500,
        reply.code == error_code(e),
{
}

} // verus!
