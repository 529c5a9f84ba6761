use game_service::error::GameError;
use game_service::handler::{
    create_game_handler, delete_game_handler, get_game_handler, plan_update, update_game_handler,
    Payload,
};
use game_service::memory::MemoryStore;
use game_service::schema::{GameSchema, UpdateGameSchema};

fn schema(name: &str, creator: &str, plays: i32) -> GameSchema {
    GameSchema { name: name.to_string(), creator: creator.to_string(), plays }
}

#[test]
fn create_with_fresh_name_succeeds() {
    let mut store = MemoryStore::new();
    let a = store.create(schema("Chess", "Ana", 0), 10).unwrap();
    let b = store.create(schema("Go", "Bo", 1), 11).unwrap();
    assert_ne!(a.id, b.id);
    assert_eq!((a.id >> 76) & 0xf, 4);
    assert_eq!(a.name, "Chess");
    assert_eq!(a.created_at, 10);
}

#[test]
fn same_name_twice_conflicts() {
    let mut store = MemoryStore::new();
    assert!(store.insert(1, schema("Chess", "Ana", 0), 10).is_ok());
    assert_eq!(store.insert(2, schema("Chess", "Bo", 3), 11), Err(GameError::Conflict));
    assert_eq!(create_game_handler(store.insert(3, schema("Chess", "Cy", 0), 12)).code, 409);
    assert_eq!(store.list_all().len(), 1);
}

#[test]
fn taken_id_is_a_store_error() {
    let mut store = MemoryStore::new();
    assert!(store.insert(1, schema("Chess", "Ana", 0), 10).is_ok());
    assert_eq!(store.insert(1, schema("Go", "Bo", 0), 11), Err(GameError::StoreError));
}

#[test]
fn list_returns_all_sorted_by_name() {
    let mut store = MemoryStore::new();
    assert!(store.list_all().is_empty());
    for (i, name) in ["Go", "Chess", "Shogi", "Backgammon"].iter().enumerate() {
        assert!(store.insert(i as u128 + 1, schema(name, "Ana", 0), 10).is_ok());
    }
    let names: Vec<String> = store.list_all().into_iter().map(|g| g.name).collect();
    assert_eq!(names, vec!["Backgammon", "Chess", "Go", "Shogi"]);
}

#[test]
fn get_of_missing_id_is_not_found() {
    let mut store = MemoryStore::new();
    assert_eq!(store.get_by_id(5), Err(GameError::NotFound(5)));
    assert!(store.insert(1, schema("Chess", "Ana", 0), 10).is_ok());
    assert_eq!(store.get_by_id(5), Err(GameError::NotFound(5)));
    assert_eq!(get_game_handler(store.get_by_id(5)).code, 404);
    assert_eq!(store.get_by_id(1).unwrap().name, "Chess");
}

#[test]
fn delete_twice_second_is_not_found() {
    let mut store = MemoryStore::new();
    let g = store.insert(1, schema("Chess", "Ana", 0), 10).unwrap();
    assert_eq!(store.delete_by_id(1), Ok(g));
    assert_eq!(store.delete_by_id(1), Err(GameError::NotFound(1)));
    assert!(store.list_all().is_empty());
}

#[test]
fn empty_update_keeps_row() {
    let mut store = MemoryStore::new();
    let g = store.insert(1, schema("Chess", "Ana", 4), 10).unwrap();
    let fields = plan_update(&UpdateGameSchema::default(), store.get_by_id(1)).unwrap();
    assert_eq!(store.update_by_id(1, fields), Ok(g.clone()));
    assert_eq!(store.get_by_id(1), Ok(g));
}

#[test]
fn plays_only_update_keeps_name_and_creator() {
    let mut store = MemoryStore::new();
    assert!(store.insert(1, schema("Chess", "Ana", 4), 10).is_ok());
    let payload = UpdateGameSchema { name: None, creator: None, plays: Some(9) };
    let fields = plan_update(&payload, store.get_by_id(1)).unwrap();
    let g = store.update_by_id(1, fields).unwrap();
    assert_eq!((g.name.as_str(), g.creator.as_str(), g.plays), ("Chess", "Ana", 9));
    assert_eq!(g.created_at, 10);
}

#[test]
fn rename_to_a_taken_name_is_a_store_error() {
    let mut store = MemoryStore::new();
    assert!(store.insert(1, schema("Chess", "Ana", 0), 10).is_ok());
    assert!(store.insert(2, schema("Go", "Bo", 0), 11).is_ok());
    assert_eq!(store.update_by_id(2, schema("Chess", "Bo", 0)), Err(GameError::StoreError));
    assert_eq!(store.update_by_id(3, schema("Xiangqi", "Bo", 0)), Err(GameError::NotFound(3)));
    let renamed = store.update_by_id(2, schema("Abalone", "Bo", 0)).unwrap();
    assert_eq!(renamed.id, 2);
    let names: Vec<String> = store.list_all().into_iter().map(|g| g.name).collect();
    assert_eq!(names, vec!["Abalone", "Chess"]);
}

#[test]
fn chess_scenario() {
    let mut store = MemoryStore::new();
    let created = create_game_handler(store.create(schema("Chess", "Ana", 0), 10));
    assert_eq!(created.code, 200);
    let id = match created.payload {
        Payload::Game(g) => {
            assert_eq!(g.plays, 0);
            g.id
        }
        other => panic!("unexpected payload {:?}", other),
    };
    let payload = UpdateGameSchema { name: None, creator: None, plays: Some(5) };
    let planned = plan_update(&payload, store.get_by_id(id));
    let written = match planned {
        Ok(fields) => store.update_by_id(id, fields),
        Err(e) => Err(e),
    };
    let updated = update_game_handler(written);
    assert_eq!(updated.code, 200);
    match &updated.payload {
        Payload::Player(g) => {
            assert_eq!(g.plays, 5);
            assert_eq!(g.name, "Chess");
        }
        other => panic!("unexpected payload {:?}", other),
    }
    let deleted = delete_game_handler(store.delete_by_id(id));
    assert_eq!(deleted.code, 200);
    match &deleted.payload {
        Payload::DeletedGame(g) => assert_eq!(g.plays, 5),
        other => panic!("unexpected payload {:?}", other),
    }
    assert_eq!(get_game_handler(store.get_by_id(id)).code, 404);
}

#[test]
fn concurrent_updates_last_writer_wins() {
    // Both updates read the row before either writes: the second write puts
    // back the plays it read, and the first update's plays is lost.
    let mut store = MemoryStore::new();
    assert!(store.insert(1, schema("Chess", "Ana", 0), 10).is_ok());
    let snapshot = store.get_by_id(1);
    let set_plays = UpdateGameSchema { name: None, creator: None, plays: Some(5) };
    let set_creator = UpdateGameSchema { name: None, creator: Some("Bo".to_string()), plays: None };
    let first = plan_update(&set_plays, snapshot.clone()).unwrap();
    let second = plan_update(&set_creator, snapshot).unwrap();
    assert!(store.update_by_id(1, first).is_ok());
    let last = store.update_by_id(1, second).unwrap();
    assert_eq!(last.creator, "Bo");
    assert_eq!(last.plays, 0);
    assert_eq!(store.get_by_id(1).unwrap().plays, 0);
}
