//! The client's in-memory store: caches of the fetched voices, conversations
//! and messages, plus the client-side user identity. The HTTP fetching that
//! fills these caches lives outside the library; here stand the cache itself
//! and its lookups.

use vstd::prelude::*;

use crate::conversation::Conversation;
use crate::fresh::generate_uuid;
use crate::message::Message;
use crate::store::{find_conversation, find_voice};
use crate::voice::Voice;

verus! {

/// The client's identity, persisted on the client side and used as the
/// `user_id` of its conversations.
#[derive(Debug)]
pub struct UserConfig {
    /// The client's identifier
    pub id: String,
}

impl Clone for UserConfig {
    fn clone(&self) -> (r: Self)
        ensures
            r == *self,
    {
        UserConfig { id: self.id.clone() }
    }
}

impl vstd::std_specs::cmp::PartialEqSpecImpl for UserConfig {
    open spec fn obeys_eq_spec() -> bool {
        true
    }

    open spec fn eq_spec(&self, other: &UserConfig) -> bool {
        self.id@ == other.id@
    }
}

impl PartialEq for UserConfig {
    fn eq(&self, other: &Self) -> (r: bool) {
        self.id == other.id
    }
}

impl Default for UserConfig {
    /// An empty identity, replaced once a real one is resolved.
    fn default() -> (r: UserConfig)
        ensures
            r.id@ == Seq::<char>::empty(),
    {
        UserConfig { id: String::new() }
    }
}

/// The client's cache of what the API returned, keyed by the entity ids.
pub struct ChatStore {
    /// The fetched voices
    pub voices: Vec<Voice>,
    /// The fetched conversations
    pub conversations: Vec<Conversation>,
    /// The fetched messages
    pub messages: Vec<Message>,
    /// The client's identity
    pub user_config: UserConfig,
}

impl ChatStore {
    /// Create a new ChatStore with default values.
    pub fn new() -> (r: ChatStore)
        ensures
            r.voices@.len() == 0,
            r.conversations@.len() == 0,
            r.messages@.len() == 0,
            r.user_config.id@ == Seq::<char>::empty(),
    {
        ChatStore {
            voices: Vec::new(),
            conversations: Vec::new(),
            messages: Vec::new(),
            user_config: UserConfig::default(),
        }
    }

    /// Replace the cached voices with a freshly fetched list.
    pub fn set_voices(&mut self, voices: Vec<Voice>)
        ensures
            final(self).voices == voices,
            final(self).conversations == old(self).conversations,
            final(self).messages == old(self).messages,
            final(self).user_config == old(self).user_config,
    {
        self.voices = voices;
    }

    /// Replace the cached conversations with a freshly fetched list.
    pub fn set_conversations(&mut self, conversations: Vec<Conversation>)
        ensures
            final(self).conversations == conversations,
            final(self).voices == old(self).voices,
            final(self).messages == old(self).messages,
            final(self).user_config == old(self).user_config,
    {
        self.conversations = conversations;
    }

    /// Replace the cached messages with a freshly fetched list.
    pub fn set_messages(&mut self, messages: Vec<Message>)
        ensures
            final(self).messages == messages,
            final(self).voices == old(self).voices,
            final(self).conversations == old(self).conversations,
            final(self).user_config == old(self).user_config,
    {
        self.messages = messages;
    }

    /// Look a cached voice up by its id.
    pub fn voice_by_id(&self, id: &String) -> (r: Option<&Voice>)
        ensures
            match r {
                Some(v) => find_voice(self.voices.deep_view(), id@) == Some(v@),
                None => find_voice(self.voices.deep_view(), id@) is None,
            },
    {
        let n = self.voices.len();
        let mut i: usize = 0;
        while i < n
            invariant
                i <= n,
                n == self.voices.len(),
                forall|j: int| 0 <= j < i ==> (#[trigger] self.voices.deep_view()[j]).id != id@,
            decreases n - i,
        {
            if self.voices[i].id == *id {
                proof {
                    crate::rows::lemma_first_match_at(
                        self.voices.deep_view(),
                        crate::store::voice_with_id(id@),
                        i as int,
                    );
                }
                return Some(&self.voices[i]);
            }
            i = i + 1;
        }
        proof {
            crate::rows::lemma_no_match(self.voices.deep_view(), crate::store::voice_with_id(id@));
        }
        None
    }

    /// Look a cached conversation up by its id.
    pub fn conversation_by_id(&self, id: &String) -> (r: Option<&Conversation>)
        ensures
            match r {
                Some(c) => find_conversation(self.conversations.deep_view(), id@) == Some(c@),
                None => find_conversation(self.conversations.deep_view(), id@) is None,
            },
    {
        let n = self.conversations.len();
        let mut i: usize = 0;
        while i < n
            invariant
                i <= n,
                n == self.conversations.len(),
                forall|j: int|
                    0 <= j < i ==> (#[trigger] self.conversations.deep_view()[j]).id != id@,
            decreases n - i,
        {
            if self.conversations[i].id == *id {
                proof {
                    crate::rows::lemma_first_match_at(
                        self.conversations.deep_view(),
                        crate::store::conversation_with_id(id@),
                        i as int,
                    );
                }
                return Some(&self.conversations[i]);
            }
            i = i + 1;
        }
        proof {
            crate::rows::lemma_no_match(
                self.conversations.deep_view(),
                crate::store::conversation_with_id(id@),
            );
        }
        None
    }

    /// Resolve the client's identity: keep a stored one, or mint a fresh
    /// identifier when none was stored.
    pub fn init_user_config(stored: Option<UserConfig>) -> (r: UserConfig)
        ensures
            match stored {
                Some(uc) => r == uc,
                None => r.id@.len() == 36,
            },
    {
        match stored {
            Some(uc) => uc,
            None => UserConfig { id: generate_uuid() },
        }
    }
}

} // verus!
