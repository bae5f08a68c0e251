//! A conversation between a user and a voice.

use vstd::prelude::*;

use crate::fresh::{current_timestamp, generate_uuid};

verus! {

/// Mathematical image of a conversation row.
#[verifier::ext_equal]
pub ghost struct ConversationView {
    pub id: Seq<char>,
    pub user_id: Seq<char>,
    pub name: Seq<char>,
    pub voice_id: Seq<char>,
    pub created_at: int,
    pub deleted_at: Option<int>,
}

/// Represents a conversation with a voice and a user.
#[derive(Debug)]
pub struct Conversation {
    /// ID of the conversation
    pub id: String,
    /// ID of the user involved in the conversation
    pub user_id: String,
    /// A name for the conversation
    pub name: String,
    /// The id of the voice used. Reference to Voice.id
    pub voice_id: String,
    /// Unix timestamp of when the conversation was created
    pub created_at: i64,
    /// Unix timestamp of when the conversation was deleted
    pub deleted_at: Option<i64>,
}

impl View for Conversation {
    type V = ConversationView;

    open spec fn view(&self) -> ConversationView {
        ConversationView {
            id: self.id@,
            user_id: self.user_id@,
            name: self.name@,
            voice_id: self.voice_id@,
            created_at: self.created_at as int,
            deleted_at: match self.deleted_at {
                Some(t) => Some(t as int),
                None => None,
            },
        }
    }
}

impl DeepView for Conversation {
    type V = ConversationView;

    open spec fn deep_view(&self) -> ConversationView {
        self.view()
    }
}

impl Clone for Conversation {
    fn clone(&self) -> (r: Self)
        ensures
            r == *self,
    {
        Conversation {
            id: self.id.clone(),
            user_id: self.user_id.clone(),
            name: self.name.clone(),
            voice_id: self.voice_id.clone(),
            created_at: self.created_at,
            deleted_at: self.deleted_at,
        }
    }
}

impl vstd::std_specs::cmp::PartialEqSpecImpl for Conversation {
    open spec fn obeys_eq_spec() -> bool {
        true
    }

    open spec fn eq_spec(&self, other: &Conversation) -> bool {
        &&& self.id@ == other.id@
        &&& self.user_id@ == other.user_id@
        &&& self.name@ == other.name@
        &&& self.voice_id@ == other.voice_id@
        &&& self.created_at == other.created_at
        &&& self.deleted_at == other.deleted_at
    }
}

impl PartialEq for Conversation {
    fn eq(&self, other: &Self) -> (r: bool) {
        let same_deleted: bool = match (self.deleted_at, other.deleted_at) {
            (None, None) => true,
            (Some(a), Some(b)) => a == b,
            _ => false,
        };
        self.id == other.id && self.user_id == other.user_id && self.name == other.name
            && self.voice_id == other.voice_id && self.created_at == other.created_at
            && same_deleted
    }
}

impl Default for Conversation {
    /// An empty conversation, the placeholder a client renders before a
    /// real one is chosen.
    fn default() -> (r: Conversation)
        ensures
            r.id@ == Seq::<char>::empty(),
            r.user_id@ == Seq::<char>::empty(),
            r.name@ == Seq::<char>::empty(),
            r.voice_id@ == Seq::<char>::empty(),
            r.created_at == 0,
            r.deleted_at is None,
    {
        Conversation {
            id: String::new(),
            user_id: String::new(),
            name: String::new(),
            voice_id: String::new(),
            created_at: 0,
            deleted_at: None,
        }
    }
}

impl Conversation {
    /// Create a new Conversation with a fresh identifier and the current
    /// time as its creation timestamp.
    pub fn new(user_id: String, name: String, voice_id: String) -> (r: Conversation)
        ensures
            r.id@.len() == 36,
            r.user_id@ == user_id@,
            r.name@ == name@,
            r.voice_id@ == voice_id@,
            r.deleted_at is None,
    {
        Conversation {
            id: generate_uuid(),
            user_id,
            name,
            voice_id,
            created_at: current_timestamp(),
            deleted_at: None,
        }
    }
}

} // verus!
