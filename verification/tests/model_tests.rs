use rusty_chat::chat_store::{ChatStore, UserConfig};
use rusty_chat::conversation::Conversation;
use rusty_chat::message::{Author, Message};
use rusty_chat::voice::Voice;

fn voice_named(name: &str) -> Voice {
    Voice {
        id: "id-1".to_string(),
        name: name.to_string(),
        description: "d".to_string(),
        prefix: "p".to_string(),
        created_at: 0,
        deleted_at: None,
    }
}

#[test]
fn test_initials_two_words() {
    assert_eq!(Voice::initials(&voice_named("Shaun Burdick")), "SB");
}

#[test]
fn test_initials_single_word() {
    assert_eq!(Voice::initials(&voice_named("Ada")), "A");
}

#[test]
fn test_initials_edge_cases() {
    // an empty name yields a single space
    assert_eq!(Voice::initials(&voice_named("")), " ");
    // only the first two words count
    assert_eq!(Voice::initials(&voice_named("A B C")), "AB");
    // an empty second word stands as a space
    assert_eq!(Voice::initials(&voice_named("x ")), "x ");
    // an empty first word stands as a space
    assert_eq!(Voice::initials(&voice_named(" b")), " b");
}

#[test]
fn test_author_serializes_lowercase() {
    assert_eq!(Author::User.to_text(), "user");
    assert_eq!(Author::Voice.to_text(), "voice");
}

#[test]
fn test_author_round_trip() {
    assert_eq!(Author::from_str(&Author::User.to_text()), Ok(Author::User));
    assert_eq!(Author::from_str(&Author::Voice.to_text()), Ok(Author::Voice));
    assert_eq!(Author::from_str("user"), Ok(Author::User));
    assert_eq!(Author::from_str("voice"), Ok(Author::Voice));
}

#[test]
fn test_author_rejects_unknown_text() {
    assert_eq!(
        Author::from_str("narrator"),
        Err("Invalid author: narrator".to_string())
    );
    // case matters: only the canonical lowercase forms parse
    assert_eq!(
        Author::from_str("User"),
        Err("Invalid author: User".to_string())
    );
}

#[test]
fn test_constructors_stamp_identity() {
    let voice = Voice::new("N".to_string(), "D".to_string(), "P".to_string());
    assert_eq!(voice.id.chars().count(), 36);
    assert_eq!(voice.name, "N");
    assert_eq!(voice.description, "D");
    assert_eq!(voice.prefix, "P");
    assert!(voice.deleted_at.is_none());

    let conversation = Conversation::new("u".to_string(), "C".to_string(), voice.id.clone());
    assert_eq!(conversation.id.chars().count(), 36);
    assert_eq!(conversation.user_id, "u");
    assert_eq!(conversation.voice_id, voice.id);
    assert!(conversation.deleted_at.is_none());

    let message = Message::new(conversation.id.clone(), Author::Voice, "hi".to_string());
    assert_eq!(message.id.chars().count(), 36);
    assert_eq!(message.conversation_id, conversation.id);
    assert_eq!(message.content, "hi");
    assert!(message.deleted_at.is_none());

    // fresh identifiers differ across constructions
    assert_ne!(voice.id, conversation.id);
    assert_ne!(conversation.id, message.id);
}

#[test]
fn test_chat_store_new_is_empty() {
    let store = ChatStore::new();
    assert!(store.voices.is_empty());
    assert!(store.conversations.is_empty());
    assert!(store.messages.is_empty());
    assert_eq!(store.user_config.id, "");
}

#[test]
fn test_chat_store_caches_and_looks_up() {
    let mut store = ChatStore::new();
    let ada = Voice {
        id: "v-1".to_string(),
        name: "Ada".to_string(),
        description: "d".to_string(),
        prefix: "p".to_string(),
        created_at: 1,
        deleted_at: None,
    };
    let grace = Voice {
        id: "v-2".to_string(),
        name: "Grace".to_string(),
        description: "d".to_string(),
        prefix: "p".to_string(),
        created_at: 2,
        deleted_at: None,
    };
    store.set_voices(vec![ada.clone(), grace.clone()]);
    assert_eq!(store.voice_by_id(&"v-2".to_string()), Some(&grace));
    assert_eq!(store.voice_by_id(&"v-9".to_string()), None);

    let c = Conversation {
        id: "c-1".to_string(),
        user_id: "u".to_string(),
        name: "C".to_string(),
        voice_id: "v-1".to_string(),
        created_at: 3,
        deleted_at: None,
    };
    store.set_conversations(vec![c.clone()]);
    assert_eq!(store.conversation_by_id(&"c-1".to_string()), Some(&c));
}

#[test]
fn test_init_user_config() {
    let stored = UserConfig { id: "kept".to_string() };
    assert_eq!(ChatStore::init_user_config(Some(stored.clone())), stored);

    let minted = ChatStore::init_user_config(None);
    assert_eq!(minted.id.chars().count(), 36);
}
