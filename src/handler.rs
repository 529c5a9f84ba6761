//! The decisions of each HTTP operation: from the store's outcome to the
//! status code and the envelope of the reply.
use vstd::prelude::*;
use vstd::string::StringExecFns;
use crate::error::GameError;
use crate::ident::{hyphenated, uuid_text};
use crate::model::GameModel;
use crate::schema::{GameSchema, UpdateGameSchema};

verus! {

/// What the envelope carries besides `status` and `message`.
#[derive(Debug, Clone, PartialEq, Eq)]
pub enum Payload {
    /// Nothing more.
    Nothing,
    /// `data: { game }`.
    Game(GameModel),
    /// `count` and `notes`: every game, in order.
    Games(Vec<GameModel>),
    /// `data: { deleted_game }`.
    DeletedGame(GameModel),
    /// `data: { player }`: the game after an update.
    Player(GameModel),
}

/// A reply: HTTP status code and JSON envelope.
#[derive(Debug, Clone, PartialEq, Eq)]
pub struct Reply {
    pub code: u16,
    pub status: String,
    pub message: Option<String>,
    pub payload: Payload,
}

/// The HTTP status code of each error.
pub open spec fn error_code(e: GameError) -> u16 {
    match e {
        GameError::NotFound(_) => 404,
        GameError::Conflict => 409,
        GameError::StoreError => 500,
    }
}

/// The `status` of the envelope of each error.
pub open spec fn error_status(e: GameError) -> Seq<char> {
    match e {
        GameError::NotFound(_) => "fail"@,
        _ => "error"@,
    }
}

/// The `message` of the envelope of each error. A store error gets a
/// generic text, so that nothing of the store's internals leaks out.
pub open spec fn error_message(e: GameError) -> Seq<char> {
    match e {
        GameError::NotFound(id) => "Game with ID "@ + hyphenated(id) + " not found"@,
        GameError::Conflict => "Game already exists"@,
        GameError::StoreError => "Internal server error"@,
    }
}

/// Whether `r` is the reply to the error `e`.
pub open spec fn is_error_reply(r: Reply, e: GameError) -> bool {
    &&& r.code == error_code(e)
    &&& r.status@ == error_status(e)
    &&& r.message matches Some(m) && m@ == error_message(e)
    &&& r.payload is Nothing
}

/// Whether `r` is a success reply with this status, message and payload.
pub open spec fn is_success_reply(
    r: Reply,
    status: Seq<char>,
    message: Option<Seq<char>>,
    payload: Payload,
) -> bool {
    &&& r.code == 200
    &&& r.status@ == status
    &&& match message {
        Some(text) => r.message matches Some(m) && m@ == text,
        None => r.message is None,
    }
    &&& r.payload == payload
}

/// The reply to an error.
pub fn error_reply(e: GameError) -> (r: Reply)
    ensures
        is_error_reply(r, e),
{
    match e {
        GameError::NotFound(id) => {
            let mut text = "Game with ID ".to_owned();
            let id_part = uuid_text(id);
            text.append(id_part.as_str());
            text.append(" not found");
            Reply { code: 404, status: "fail".to_owned(), message: Some(text), payload: Payload::Nothing }
        },
        GameError::Conflict => Reply {
            code: 409,
            status: "error".to_owned(),
            message: Some("Game already exists".to_owned()),
            payload: Payload::Nothing,
        },
        GameError::StoreError => Reply {
            code: 500,
            status: "error".to_owned(),
            message: Some("Internal server error".to_owned()),
            payload: Payload::Nothing,
        },
    }
}

/// Create: `{status: "success", data: {game}}`, or the error's reply.
pub fn create_game_handler(outcome: Result<GameModel, GameError>) -> (r: Reply)
    ensures
        match outcome {
            Ok(g) => is_success_reply(r, "success"@, None, Payload::Game(g)),
            Err(e) => is_error_reply(r, e),
        },
{
    match outcome {
        Ok(g) => Reply { code: 200, status: "success".to_owned(), message: None, payload: Payload::Game(g) },
        Err(e) => error_reply(e),
    }
}

/// List: `{status: "ok", count, notes}`, or the error's reply.
pub fn game_list_handler(outcome: Result<Vec<GameModel>, GameError>) -> (r: Reply)
    ensures
        match outcome {
            Ok(games) => is_success_reply(r, "ok"@, None, Payload::Games(games)),
            Err(e) => is_error_reply(r, e),
        },
{
    match outcome {
        Ok(games) => Reply { code: 200, status: "ok".to_owned(), message: None, payload: Payload::Games(games) },
        Err(e) => error_reply(e),
    }
}

/// Get by id: `{status: "success", data: {game}}`, or the error's reply.
pub fn get_game_handler(outcome: Result<GameModel, GameError>) -> (r: Reply)
    ensures
        match outcome {
            Ok(g) => is_success_reply(r, "success"@, None, Payload::Game(g)),
            Err(e) => is_error_reply(r, e),
        },
{
    match outcome {
        Ok(g) => Reply { code: 200, status: "success".to_owned(), message: None, payload: Payload::Game(g) },
        Err(e) => error_reply(e),
    }
}

/// Delete by id: `{status: "success", message, data: {deleted_game}}`, or
/// the error's reply.
pub fn delete_game_handler(outcome: Result<GameModel, GameError>) -> (r: Reply)
    ensures
        match outcome {
            Ok(g) => is_success_reply(
                r,
                "success"@,
                Some("Game deleted successfully"@),
                Payload::DeletedGame(g),
            ),
            Err(e) => is_error_reply(r, e),
        },
{
    match outcome {
        Ok(g) => Reply {
            code: 200,
            status: "success".to_owned(),
            message: Some("Game deleted successfully".to_owned()),
            payload: Payload::DeletedGame(g),
        },
        Err(e) => error_reply(e),
    }
}

/// The first step of an update: from the fetched row, the values to write
/// back; a failed fetch ends the update with its error.
pub fn plan_update(payload: &UpdateGameSchema, fetched: Result<GameModel, GameError>) -> (r:
    Result<GameSchema, GameError>)
    ensures
        match fetched {
            Ok(current) => r == Ok::<GameSchema, GameError>(payload.merge_spec(current)),
            Err(e) => r == Err::<GameSchema, GameError>(e),
        },
{
    match fetched {
        Ok(current) => Ok(payload.merged(&current)),
        Err(e) => Err(e),
    }
}

/// Update by id: `{status: "success", message, data: {player}}`, or the
/// error's reply.
pub fn update_game_handler(outcome: Result<GameModel, GameError>) -> (r: Reply)
    ensures
        match outcome {
            Ok(g) => is_success_reply(
                r,
                "success"@,
                Some("Game updated successfully"@),
                Payload::Player(g),
            ),
            Err(e) => is_error_reply(r, e),
        },
{
    match outcome {
        Ok(g) => Reply {
            code: 200,
            status: "success".to_owned(),
            message: Some("Game updated successfully".to_owned()),
            payload: Payload::Player(g),
        },
        Err(e) => error_reply(e),
    }
}

} // verus!
