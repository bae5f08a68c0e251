use rusty_chat::conversation::Conversation;
use rusty_chat::message::{Author, Message};
use rusty_chat::store::Store;
use rusty_chat::voice::Voice;

#[test]
fn test_db_assert_schema() {
    // Build test store and run the assert_schema method
    let mut store = Store::new();
    store.assert_schema().unwrap();

    // Compare tables to the expected count
    assert_eq!(store.table_count(), 3);
}

#[test]
fn test_db_assert_schema_can_run_twice() {
    // Build test store and run the assert_schema method twice
    let mut store = Store::new();
    store.assert_schema().unwrap();
    store.assert_schema().unwrap();

    // Compare tables to the expected count: no duplicates appeared
    assert_eq!(store.table_count(), 3);
    assert_eq!(store.index_count(), 3);
}

#[test]
fn test_db_init() {
    // create instance and assert schema
    let mut store = Store::new();
    store.assert_schema().unwrap();

    // verify table is empty
    let voice_count = store.get_voices(false).unwrap().len();
    assert_eq!(voice_count, 0);

    // initialize store
    store.init().unwrap();

    // verify table is populated now
    let new_voice_count = store.get_voices(false).unwrap().len();
    assert!(new_voice_count > 0);
}

#[test]
fn test_db_init_is_idempotent() {
    let mut store = Store::new();
    store.assert_schema().unwrap();

    // seeding an empty table inserts the fixed default set exactly once
    store.init().unwrap();
    let seeded = store.get_voices(false).unwrap();
    assert_eq!(seeded.len(), 2);

    // running it again on a non-empty table is a no-op
    store.init().unwrap();
    let seeded_again = store.get_voices(false).unwrap();
    assert_eq!(seeded_again.len(), 2);
    assert_eq!(seeded_again[0].id, seeded[0].id);
    assert_eq!(seeded_again[1].id, seeded[1].id);
}

#[test]
fn test_db_crud_voice() {
    // Build test store and run the assert_schema method
    let mut store = Store::new();
    store.assert_schema().unwrap();

    // create a voice and insert it into the store
    let mut voice = Voice::new(
        "Shaun".to_string(),
        "It's me".to_string(),
        "I'm boring".to_string(),
    );

    let res = store.save_voice(&voice);
    assert!(res.unwrap());

    // Grab the record from the store
    let fetched_voice = store.get_voice(&voice.id);

    // And it should match
    assert_eq!(fetched_voice.unwrap(), voice);

    // Grab all the records from the store
    let voices = store.get_voices(false).unwrap();

    // Should be one record
    assert_eq!(voices.len(), 1);
    // And it should match
    assert_eq!(voices[0], voice);

    // "Delete" a voice
    voice.deleted_at = Some(chrono::Utc::now().timestamp());
    assert!(store.save_voice(&voice).unwrap());

    // It should no longer show up in list of voices
    let new_voices = store.get_voices(false).unwrap();
    assert_eq!(new_voices.len(), 0);

    // It should show up if you ask for deleted
    let deleted_voices = store.get_voices(true).unwrap();
    assert_eq!(deleted_voices.len(), 1);
}

#[test]
fn test_db_crud_conversation() {
    // Build test store and run the assert_schema method
    let mut store = Store::new();
    store.assert_schema().unwrap();

    // create a voice and insert it into the store
    let voice = Voice::new(
        "Shaun".to_string(),
        "It's me".to_string(),
        "I'm boring".to_string(),
    );

    let voice_res = store.save_voice(&voice);
    assert!(voice_res.unwrap());

    // create a conversation and insert it into the store
    let mut conversation = Conversation::new(
        uuid::Uuid::new_v4().to_string(),
        "Test Conversation".to_string(),
        voice.id.clone(),
    );
    let conversation_res = store.save_conversation(&conversation);
    assert!(conversation_res.unwrap());

    // Grab the record from the store
    let fetched_conversation = store.get_conversation(&conversation.id);

    // And it should match
    assert_eq!(fetched_conversation.unwrap(), conversation);

    // Grab all the records from the store
    let conversations = store.get_conversations(&conversation.user_id, false).unwrap();

    // Should be one record
    assert_eq!(conversations.len(), 1);
    // And it should match
    assert_eq!(conversations[0], conversation);

    // "Delete" a conversation
    conversation.deleted_at = Some(chrono::Utc::now().timestamp());
    assert!(store.save_conversation(&conversation).unwrap());

    // It should no longer show up in list of conversations
    let new_conversations = store.get_conversations(&conversation.user_id, false).unwrap();
    assert_eq!(new_conversations.len(), 0);

    // It should show up if you ask for deleted
    let deleted_conversations = store.get_conversations(&conversation.user_id, true).unwrap();
    assert_eq!(deleted_conversations.len(), 1);
}

#[test]
fn test_db_crud_message() {
    // Build test store and run the assert_schema method
    let mut store = Store::new();
    store.assert_schema().unwrap();

    // create a voice and insert it into the store
    let voice = Voice::new(
        "Shaun".to_string(),
        "It's me".to_string(),
        "I'm boring".to_string(),
    );

    let voice_res = store.save_voice(&voice);
    assert!(voice_res.unwrap());

    // create a conversation and insert it into the store
    let conversation = Conversation::new(
        uuid::Uuid::new_v4().to_string(),
        "Test Conversation".to_string(),
        voice.id.clone(),
    );
    let conversation_res = store.save_conversation(&conversation);
    assert!(conversation_res.unwrap());

    // create a message and insert it into the store
    let mut message = Message::new(
        conversation.id.clone(),
        Author::User,
        "This is a test message".to_string(),
    );
    let message_res = store.save_message(&message);
    assert!(message_res.unwrap());

    // Grab the record from the store
    let fetched_message = store.get_message(&message.id);

    // And it should match
    assert_eq!(fetched_message.unwrap(), message);

    // Grab all the records from the store
    let messages = store.get_messages(&conversation.id, false).unwrap();

    // Should be one record
    assert_eq!(messages.len(), 1);
    // And it should match
    assert_eq!(messages[0], message);

    // "Delete" a message
    message.deleted_at = Some(chrono::Utc::now().timestamp());
    assert!(store.save_message(&message).unwrap());

    // It should no longer show up in list of messages
    let new_message = store.get_messages(&conversation.id, false).unwrap();
    assert_eq!(new_message.len(), 0);

    // It should show up if you ask for deleted
    let deleted_message = store.get_messages(&conversation.id, true).unwrap();
    assert_eq!(deleted_message.len(), 1);
}

#[test]
fn test_upsert_keeps_creation_time_and_one_row() {
    let mut store = Store::new();
    store.assert_schema().unwrap();

    let first = Voice {
        id: "fixed-id".to_string(),
        name: "First".to_string(),
        description: "first description".to_string(),
        prefix: "first prefix".to_string(),
        created_at: 100,
        deleted_at: None,
    };
    assert!(store.save_voice(&first).unwrap());

    // second write under the same id, with different field values
    let second = Voice {
        id: "fixed-id".to_string(),
        name: "Second".to_string(),
        description: "second description".to_string(),
        prefix: "second prefix".to_string(),
        created_at: 999,
        deleted_at: None,
    };
    assert!(store.save_voice(&second).unwrap());

    // exactly one row remains, holding the latest mutable fields and the
    // original creation time
    let voices = store.get_voices(false).unwrap();
    assert_eq!(voices.len(), 1);
    let fetched = store.get_voice(&"fixed-id".to_string()).unwrap();
    assert_eq!(fetched.name, "Second");
    assert_eq!(fetched.description, "second description");
    assert_eq!(fetched.prefix, "second prefix");
    assert_eq!(fetched.created_at, 100);
}

#[test]
fn test_get_nonexistent_fails_not_found() {
    let mut store = Store::new();
    store.assert_schema().unwrap();
    let missing = "no-such-id".to_string();

    assert!(matches!(
        store.get_voice(&missing),
        Err(rusty_chat::store::StorageError::NotFound)
    ));
    assert!(matches!(
        store.get_conversation(&missing),
        Err(rusty_chat::store::StorageError::NotFound)
    ));
    assert!(matches!(
        store.get_message(&missing),
        Err(rusty_chat::store::StorageError::NotFound)
    ));
}

#[test]
fn test_save_conversation_without_voice_conflicts() {
    let mut store = Store::new();
    store.assert_schema().unwrap();

    let conversation = Conversation::new(
        "u1".to_string(),
        "Orphan".to_string(),
        "missing-voice".to_string(),
    );
    match store.save_conversation(&conversation) {
        Err(rusty_chat::store::StorageError::Conflict(m)) => {
            assert_eq!(m, "FOREIGN KEY constraint failed");
        }
        other => panic!("expected a conflict, got {:?}", other),
    }
    // nothing was written
    assert_eq!(store.get_conversations(&"u1".to_string(), false).unwrap().len(), 0);
}

#[test]
fn test_save_message_without_conversation_conflicts() {
    let mut store = Store::new();
    store.assert_schema().unwrap();

    let message = Message::new(
        "missing-conversation".to_string(),
        Author::Voice,
        "hello".to_string(),
    );
    match store.save_message(&message) {
        Err(rusty_chat::store::StorageError::Conflict(m)) => {
            assert_eq!(m, "FOREIGN KEY constraint failed");
        }
        other => panic!("expected a conflict, got {:?}", other),
    }
    assert!(matches!(
        store.get_message(&message.id),
        Err(rusty_chat::store::StorageError::NotFound)
    ));
}

#[test]
fn test_listing_partitions_rows() {
    let mut store = Store::new();
    store.assert_schema().unwrap();

    // a few creates and soft-deletes
    let mut total: usize = 0;
    for k in 0..5usize {
        let mut voice = Voice::new(
            format!("Voice {}", k),
            "a description".to_string(),
            "a prefix".to_string(),
        );
        if k % 2 == 0 {
            voice.deleted_at = Some(1000 + k as i64);
        }
        assert!(store.save_voice(&voice).unwrap());
        total += 1;
    }

    let active = store.get_voices(false).unwrap();
    let deleted = store.get_voices(true).unwrap();
    assert_eq!(active.len() + deleted.len(), total);
    // no row is in both partitions
    for a in &active {
        assert!(deleted.iter().all(|d| d.id != a.id));
    }
}

#[test]
fn test_deleted_conversation_still_fetchable_by_id() {
    let mut store = Store::new();
    store.assert_schema().unwrap();

    let voice = Voice::new("V".to_string(), "d".to_string(), "p".to_string());
    assert!(store.save_voice(&voice).unwrap());
    let conversation = Conversation::new("u1".to_string(), "C".to_string(), voice.id.clone());
    assert!(store.save_conversation(&conversation).unwrap());

    // soft-delete at a fixed time
    assert!(store.delete_conversation_at(&conversation.id, 4242).unwrap());

    // absent from the user's active listing
    assert_eq!(store.get_conversations(&"u1".to_string(), false).unwrap().len(), 0);

    // still fetchable by id, with the deletion stamped
    let fetched = store.get_conversation(&conversation.id).unwrap();
    assert_eq!(fetched.id, conversation.id);
    assert_eq!(fetched.deleted_at, Some(4242));
}

#[test]
fn test_delete_cascade_window_is_observable() {
    // The conversation delete and the message cascade are two independent
    // statements, not a transaction: after the first alone, a reader sees
    // the conversation gone from its user's active listing while the
    // conversation's messages are still active.
    let mut store = Store::new();
    store.assert_schema().unwrap();

    let voice = Voice::new("V".to_string(), "d".to_string(), "p".to_string());
    assert!(store.save_voice(&voice).unwrap());
    let conversation = Conversation::new("u1".to_string(), "C".to_string(), voice.id.clone());
    assert!(store.save_conversation(&conversation).unwrap());
    let message = Message::new(conversation.id.clone(), Author::User, "hi".to_string());
    assert!(store.save_message(&message).unwrap());

    // first statement only: the window is open
    assert!(store.delete_conversation_at(&conversation.id, 7).unwrap());
    assert!(store.get_conversations(&"u1".to_string(), false).unwrap().is_empty());
    assert_eq!(store.get_messages(&conversation.id, false).unwrap().len(), 1);

    // the second statement closes it
    assert!(store.delete_messages_by_conversation_at(&conversation.id, 8).unwrap());
    assert!(store.get_messages(&conversation.id, false).unwrap().is_empty());
}
