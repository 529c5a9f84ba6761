use game_service::error::{insert_failure, lookup_failure, write_failure, GameError, StoreFailure};
use game_service::handler::{
    create_game_handler, delete_game_handler, error_reply, game_list_handler, get_game_handler,
    plan_update, update_game_handler, Payload,
};
use game_service::model::GameModel;
use game_service::schema::{GameSchema, UpdateGameSchema};

fn chess() -> GameModel {
    GameModel {
        id: 7,
        name: "Chess".to_string(),
        creator: "Ana".to_string(),
        plays: 0,
        created_at: 1_700_000_000_000_000,
    }
}

#[test]
fn duplicate_key_text_is_a_conflict() {
    let f = StoreFailure::Other(
        "error returned from database: duplicate key value violates unique constraint \"games_name_key\"".to_string(),
    );
    assert_eq!(insert_failure(&f), GameError::Conflict);
    assert_eq!(insert_failure(&StoreFailure::Other("connection refused".to_string())), GameError::StoreError);
    assert_eq!(insert_failure(&StoreFailure::RowNotFound), GameError::StoreError);
}

#[test]
fn missing_row_is_not_found() {
    assert_eq!(lookup_failure(9, &StoreFailure::RowNotFound), GameError::NotFound(9));
    assert_eq!(lookup_failure(9, &StoreFailure::Other("timeout".to_string())), GameError::StoreError);
    assert_eq!(write_failure(&StoreFailure::RowNotFound), GameError::StoreError);
}

#[test]
fn error_replies_carry_codes_and_generic_text() {
    let c = error_reply(GameError::Conflict);
    assert_eq!((c.code, c.status.as_str()), (409, "error"));
    assert_eq!(c.message.as_deref(), Some("Game already exists"));
    assert_eq!(c.payload, Payload::Nothing);
    let s = error_reply(GameError::StoreError);
    assert_eq!((s.code, s.status.as_str()), (500, "error"));
    assert_eq!(s.message.as_deref(), Some("Internal server error"));
}

#[test]
fn create_reply_shapes() {
    let ok = create_game_handler(Ok(chess()));
    assert_eq!(ok.code, 200);
    assert_eq!(ok.status, "success");
    assert_eq!(ok.message, None);
    assert_eq!(ok.payload, Payload::Game(chess()));
    let conflict = create_game_handler(Err(GameError::Conflict));
    assert_eq!(conflict.code, 409);
}

#[test]
fn list_reply_shapes() {
    let ok = game_list_handler(Ok(vec![chess()]));
    assert_eq!(ok.code, 200);
    assert_eq!(ok.status, "ok");
    assert_eq!(ok.payload, Payload::Games(vec![chess()]));
    let empty = game_list_handler(Ok(vec![]));
    assert_eq!(empty.payload, Payload::Games(vec![]));
    let failed = game_list_handler(Err(GameError::StoreError));
    assert_eq!(failed.code, 500);
}

#[test]
fn get_reply_shapes() {
    let ok = get_game_handler(Ok(chess()));
    assert_eq!((ok.code, ok.status.as_str()), (200, "success"));
    assert_eq!(ok.payload, Payload::Game(chess()));
    let missing = get_game_handler(Err(GameError::NotFound(7)));
    assert_eq!((missing.code, missing.status.as_str()), (404, "fail"));
}

#[test]
fn delete_reply_shapes() {
    let ok = delete_game_handler(Ok(chess()));
    assert_eq!((ok.code, ok.status.as_str()), (200, "success"));
    assert_eq!(ok.message.as_deref(), Some("Game deleted successfully"));
    assert_eq!(ok.payload, Payload::DeletedGame(chess()));
    assert_eq!(delete_game_handler(Err(GameError::NotFound(7))).code, 404);
}

#[test]
fn update_reply_shapes() {
    let ok = update_game_handler(Ok(chess()));
    assert_eq!((ok.code, ok.status.as_str()), (200, "success"));
    assert_eq!(ok.message.as_deref(), Some("Game updated successfully"));
    assert_eq!(ok.payload, Payload::Player(chess()));
    assert_eq!(update_game_handler(Err(GameError::StoreError)).code, 500);
}

#[test]
fn update_plan_merges_given_fields() {
    let payload = UpdateGameSchema { name: None, creator: Some("Bo".to_string()), plays: Some(3) };
    let plan = plan_update(&payload, Ok(chess()));
    assert_eq!(
        plan,
        Ok(GameSchema { name: "Chess".to_string(), creator: "Bo".to_string(), plays: 3 })
    );
    let empty = plan_update(&UpdateGameSchema::default(), Ok(chess()));
    assert_eq!(
        empty,
        Ok(GameSchema { name: "Chess".to_string(), creator: "Ana".to_string(), plays: 0 })
    );
    assert_eq!(plan_update(&payload, Err(GameError::NotFound(7))), Err(GameError::NotFound(7)));
}
