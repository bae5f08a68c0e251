use rusty_chat::conversation::Conversation;
use rusty_chat::error::HttpError;
use rusty_chat::message::{Author, Message};
use rusty_chat::response::JsonApiResponse;
use rusty_chat::routes;
use rusty_chat::store::{StorageError, Store};
use rusty_chat::voice::Voice;

fn seeded_store() -> (Store, Voice) {
    let mut store = Store::new();
    store.assert_schema().unwrap();
    let voice = Voice::new("Ada".to_string(), "desc".to_string(), "prefix".to_string());
    assert!(store.save_voice(&voice).unwrap());
    (store, voice)
}

#[test]
fn test_envelope_success_defaults() {
    let body = JsonApiResponse::<String>::success(vec!["a".to_string()], None);
    assert_eq!(body.data, Some(vec!["a".to_string()]));
    assert_eq!(body.message, "OK");
    assert!(body.errors.is_none());

    let named = JsonApiResponse::<String>::success(Vec::new(), Some("done".to_string()));
    assert_eq!(named.message, "done");
}

#[test]
fn test_envelope_error_defaults() {
    let body = JsonApiResponse::<String>::error(vec!["boom".to_string()], None);
    assert!(body.data.is_none());
    assert_eq!(body.message, "NOT OK");
    assert_eq!(body.errors, Some(vec!["boom".to_string()]));
}

#[test]
fn test_error_translation() {
    let not_found = HttpError::from_storage(StorageError::NotFound);
    assert_eq!(not_found.status_code, 404);
    assert_eq!(not_found.message, "The record was not found");

    let conflict = HttpError::from_storage(StorageError::Conflict("dup key".to_string()));
    assert_eq!(conflict.status_code, 409);
    assert_eq!(conflict.message, "dup key");

    let timeout = HttpError::from_storage(StorageError::Timeout);
    assert_eq!(timeout.status_code, 408);
    assert_eq!(timeout.message, "DB Pool timed out");

    let internal = HttpError::from_storage(StorageError::Internal("io broke".to_string()));
    assert_eq!(internal.status_code, 500);
    assert_eq!(internal.message, "Unexpected DB error: io broke");
}

#[test]
fn test_error_response_masks_server_errors() {
    let client_err = HttpError::new(404, "not here".to_string());
    let (status, body) = client_err.response_parts();
    assert_eq!(status, 404);
    assert_eq!(body.errors, Some(vec!["not here".to_string()]));
    assert_eq!(body.message, "NOT OK");
    assert!(body.data.is_none());

    let server_err = HttpError::new(500, "secret detail".to_string());
    let (status, body) = server_err.response_parts();
    assert_eq!(status, 500);
    assert_eq!(body.errors, Some(vec!["Internal server error".to_string()]));

    // a malformed status code falls back to 500, masked
    let bad_status = HttpError::new(42, "secret detail".to_string());
    let (status, body) = bad_status.response_parts();
    assert_eq!(status, 500);
    assert_eq!(body.errors, Some(vec!["Internal server error".to_string()]));
}

#[test]
fn test_voices_routes_roundtrip() {
    let (mut store, voice) = seeded_store();

    let (status, body) = routes::voices_find_all(&store);
    assert_eq!(status, 200);
    assert_eq!(body.data.unwrap(), vec![voice.clone()]);

    let (status, body) = routes::voices_find_one(&store, &voice.id).unwrap();
    assert_eq!(status, 200);
    assert_eq!(body.data.unwrap(), vec![voice.clone()]);

    let second = Voice::new("Grace".to_string(), "d2".to_string(), "p2".to_string());
    let (status, body) = routes::voices_new(&mut store, second.clone()).unwrap();
    assert_eq!(status, 201);
    assert_eq!(body.data.unwrap(), vec![second]);
    assert_eq!(store.get_voices(false).unwrap().len(), 2);
}

#[test]
fn test_find_one_missing_is_404() {
    let (store, _) = seeded_store();
    let missing = "no-such-id".to_string();

    let err = routes::voices_find_one(&store, &missing).unwrap_err();
    assert_eq!(err.status_code, 404);
    assert_eq!(err.message, "The record was not found");

    let err = routes::conversations_find_one(&store, &missing).unwrap_err();
    assert_eq!(err.status_code, 404);

    let err = routes::messages_find_one(&store, &missing).unwrap_err();
    assert_eq!(err.status_code, 404);
}

#[test]
fn test_put_mismatched_id_is_400_and_writes_nothing() {
    let (mut store, voice) = seeded_store();

    let mut renamed = voice.clone();
    renamed.name = "Renamed".to_string();
    let path_id = "a-different-id".to_string();
    let err = routes::voices_save(&mut store, &path_id, renamed.clone()).unwrap_err();
    assert_eq!(err.status_code, 400);
    assert_eq!(
        err.message,
        format!("Path id {} does not match object id {}", path_id, voice.id)
    );

    // no row was created or changed
    let voices = store.get_voices(false).unwrap();
    assert_eq!(voices.len(), 1);
    assert_eq!(voices[0], voice);
    assert!(matches!(
        store.get_voice(&path_id),
        Err(StorageError::NotFound)
    ));
}

#[test]
fn test_put_matching_id_saves() {
    let (mut store, voice) = seeded_store();

    let mut renamed = voice.clone();
    renamed.name = "Renamed".to_string();
    let (status, body) = routes::voices_save(&mut store, &voice.id, renamed.clone()).unwrap();
    assert_eq!(status, 200);
    assert_eq!(body.data.unwrap(), vec![renamed.clone()]);
    assert_eq!(store.get_voice(&voice.id).unwrap().name, "Renamed");
}

#[test]
fn test_post_conversation_with_missing_voice_is_409() {
    let mut store = Store::new();
    store.assert_schema().unwrap();

    let orphan = Conversation::new(
        "u1".to_string(),
        "Orphan".to_string(),
        "missing-voice".to_string(),
    );
    let err = routes::conversations_new(&mut store, orphan).unwrap_err();
    assert_eq!(err.status_code, 409);
    assert_eq!(err.message, "FOREIGN KEY constraint failed");
}

#[test]
fn test_post_message_with_missing_conversation_is_409() {
    let mut store = Store::new();
    store.assert_schema().unwrap();

    let orphan = Message::new(
        "missing-conversation".to_string(),
        Author::User,
        "hi".to_string(),
    );
    let err = routes::messages_new(&mut store, orphan).unwrap_err();
    assert_eq!(err.status_code, 409);
    assert_eq!(err.message, "FOREIGN KEY constraint failed");
}

#[test]
fn test_conversation_lifecycle_scenario() {
    // create Voice V1, Conversation C1 for user "u1", Message M1 in C1
    let mut store = Store::new();
    store.assert_schema().unwrap();

    let v1 = Voice::new("Ada".to_string(), "desc".to_string(), "prefix".to_string());
    let (status, _) = routes::voices_new(&mut store, v1.clone()).unwrap();
    assert_eq!(status, 201);

    let c1 = Conversation::new("u1".to_string(), "C1".to_string(), v1.id.clone());
    let (status, _) = routes::conversations_new(&mut store, c1.clone()).unwrap();
    assert_eq!(status, 201);

    let m1 = Message::new(c1.id.clone(), Author::User, "hi".to_string());
    let (status, _) = routes::messages_new(&mut store, m1.clone()).unwrap();
    assert_eq!(status, 201);

    // the conversation's active messages are exactly [M1]
    let (status, body) = routes::messages_find_all(&store, &c1.id);
    assert_eq!(status, 200);
    assert_eq!(body.data.unwrap(), vec![m1.clone()]);

    // delete C1: the conversation and its messages leave the active listings
    let status = routes::conversations_delete(&mut store, &c1.id).unwrap();
    assert_eq!(status, 200);

    let (_, body) = routes::messages_find_all(&store, &c1.id);
    assert_eq!(body.data.unwrap(), Vec::<Message>::new());
    let (_, body) = routes::conversations_find_all(&store, &"u1".to_string());
    assert_eq!(body.data.unwrap(), Vec::<Conversation>::new());

    // M1 is still fetchable by id, with its deletion stamped
    let fetched = store.get_message(&m1.id).unwrap();
    assert_eq!(fetched.id, m1.id);
    assert_eq!(fetched.content, m1.content);
    assert!(fetched.deleted_at.is_some());

    // C1 too
    let fetched = store.get_conversation(&c1.id).unwrap();
    assert!(fetched.deleted_at.is_some());
}
