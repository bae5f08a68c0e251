//! The storage engine: three tables of rows with upsert-by-id writes, soft
//! deletion and an idempotent schema assertion.
//!
//! The engine is an injected handle: every operation works on an explicit
//! store value, which keeps tests isolated on an ephemeral store.

use vstd::prelude::*;

use crate::conversation::{Conversation, ConversationView};
use crate::fresh::{current_timestamp, generate_uuid};
use crate::message::{Message, MessageView};
use crate::rows::{first_match, index_of_first_match, lemma_first_match_at, lemma_no_match};
use crate::voice::{Voice, VoiceView};

verus! {

/// Errors the storage engine reports: no row for an id, a constraint
/// violation, an exhausted connection pool, or any other driver failure.
#[derive(Debug)]
pub enum StorageError {
    /// No row carries the requested id.
    NotFound,
    /// A constraint was violated; carries the constraint's message.
    Conflict(String),
    /// The connection pool could not service the request promptly.
    Timeout,
    /// Any other failure; carries the driver's message.
    Internal(String),
}

/// Mathematical image of the whole store.
#[verifier::ext_equal]
pub ghost struct StoreView {
    pub schema_asserted: bool,
    pub voices: Seq<VoiceView>,
    pub conversations: Seq<ConversationView>,
    pub messages: Seq<MessageView>,
}

// ---------------------------------------------------------------------------
// Row predicates
// ---------------------------------------------------------------------------
/// Picks out the voice rows carrying `id`.
pub open spec fn voice_with_id(id: Seq<char>) -> spec_fn(VoiceView) -> bool {
    |v: VoiceView| v.id == id
}

/// Picks out the conversation rows carrying `id`.
pub open spec fn conversation_with_id(id: Seq<char>) -> spec_fn(ConversationView) -> bool {
    |c: ConversationView| c.id == id
}

/// Picks out the message rows carrying `id`.
pub open spec fn message_with_id(id: Seq<char>) -> spec_fn(MessageView) -> bool {
    |m: MessageView| m.id == id
}

/// The first voice row carrying `id`, whatever its deletion state.
pub open spec fn find_voice(rows: Seq<VoiceView>, id: Seq<char>) -> Option<VoiceView> {
    first_match(rows, voice_with_id(id))
}

/// The first conversation row carrying `id`, whatever its deletion state.
pub open spec fn find_conversation(rows: Seq<ConversationView>, id: Seq<char>) -> Option<
    ConversationView,
> {
    first_match(rows, conversation_with_id(id))
}

/// The first message row carrying `id`, whatever its deletion state.
pub open spec fn find_message(rows: Seq<MessageView>, id: Seq<char>) -> Option<MessageView> {
    first_match(rows, message_with_id(id))
}

/// Ids are pairwise distinct across the voice table.
pub open spec fn voice_ids_unique(rows: Seq<VoiceView>) -> bool {
    forall|i: int, j: int|
        0 <= i < j < rows.len() ==> (#[trigger] rows[i]).id != (#[trigger] rows[j]).id
}

/// Ids are pairwise distinct across the conversation table.
pub open spec fn conversation_ids_unique(rows: Seq<ConversationView>) -> bool {
    forall|i: int, j: int|
        0 <= i < j < rows.len() ==> (#[trigger] rows[i]).id != (#[trigger] rows[j]).id
}

/// Ids are pairwise distinct across the message table.
pub open spec fn message_ids_unique(rows: Seq<MessageView>) -> bool {
    forall|i: int, j: int|
        0 <= i < j < rows.len() ==> (#[trigger] rows[i]).id != (#[trigger] rows[j]).id
}

/// Some voice row (deleted or not) carries `id`.
pub open spec fn voice_id_exists(voices: Seq<VoiceView>, id: Seq<char>) -> bool {
    exists|k: int| 0 <= k < voices.len() && (#[trigger] voices[k]).id == id
}

/// Some conversation row (deleted or not) carries `id`.
pub open spec fn conversation_id_exists(rows: Seq<ConversationView>, id: Seq<char>) -> bool {
    exists|k: int| 0 <= k < rows.len() && (#[trigger] rows[k]).id == id
}

/// Every conversation's voice reference names an existing voice row.
pub open spec fn conversations_reference_voices(
    voices: Seq<VoiceView>,
    convs: Seq<ConversationView>,
) -> bool {
    forall|i: int|
        0 <= i < convs.len() ==> voice_id_exists(voices, (#[trigger] convs[i]).voice_id)
}

/// Every message's conversation reference names an existing conversation row.
pub open spec fn messages_reference_conversations(
    convs: Seq<ConversationView>,
    msgs: Seq<MessageView>,
) -> bool {
    forall|i: int|
        0 <= i < msgs.len() ==> conversation_id_exists(convs, (#[trigger] msgs[i]).conversation_id)
}

/// References into the voice table survive any change that keeps every
/// existing row's id in place (an in-place update or an append).
proof fn lemma_voice_refs_preserved(
    voices0: Seq<VoiceView>,
    voices1: Seq<VoiceView>,
    convs: Seq<ConversationView>,
)
    requires
        conversations_reference_voices(voices0, convs),
        voices0.len() <= voices1.len(),
        forall|a: int| 0 <= a < voices0.len() ==> (#[trigger] voices1[a]).id == voices0[a].id,
    ensures
        conversations_reference_voices(voices1, convs),
{
    assert forall|i: int|
        0 <= i < convs.len() implies voice_id_exists(
        voices1,
        (#[trigger] convs[i]).voice_id,
    ) by {
        let target = convs[i].voice_id;
        let k = choose|k: int| 0 <= k < voices0.len() && (#[trigger] voices0[k]).id == target;
        assert(voices1[k].id == target);
    }
}

/// References into the conversation table survive any change that keeps
/// every existing row's id in place.
proof fn lemma_conversation_refs_preserved(
    convs0: Seq<ConversationView>,
    convs1: Seq<ConversationView>,
    msgs: Seq<MessageView>,
)
    requires
        messages_reference_conversations(convs0, msgs),
        convs0.len() <= convs1.len(),
        forall|a: int| 0 <= a < convs0.len() ==> (#[trigger] convs1[a]).id == convs0[a].id,
    ensures
        messages_reference_conversations(convs1, msgs),
{
    assert forall|i: int|
        0 <= i < msgs.len() implies conversation_id_exists(
        convs1,
        (#[trigger] msgs[i]).conversation_id,
    ) by {
        let target = msgs[i].conversation_id;
        let k = choose|k: int| 0 <= k < convs0.len() && (#[trigger] convs0[k]).id == target;
        assert(convs1[k].id == target);
    }
}

// ---------------------------------------------------------------------------
// Listing predicates: the requested deletion-visibility partition, plus the
// scope column of each table.
// ---------------------------------------------------------------------------
/// Voice rows in the requested deletion partition.
pub open spec fn voice_in_listing(deleted: bool) -> spec_fn(VoiceView) -> bool {
    |v: VoiceView| (v.deleted_at is Some) == deleted
}

/// Conversation rows of `user_id` in the requested deletion partition.
pub open spec fn conversation_in_listing(user_id: Seq<char>, deleted: bool) -> spec_fn(
    ConversationView,
) -> bool {
    |c: ConversationView| (c.deleted_at is Some) == deleted && c.user_id == user_id
}

/// Message rows of `conversation_id` in the requested deletion partition.
pub open spec fn message_in_listing(conversation_id: Seq<char>, deleted: bool) -> spec_fn(
    MessageView,
) -> bool {
    |m: MessageView| (m.deleted_at is Some) == deleted && m.conversation_id == conversation_id
}

// ---------------------------------------------------------------------------
// Write transitions
// ---------------------------------------------------------------------------
/// The row an upsert leaves under an already-used voice id: every mutable
/// field from the incoming value, id and creation time from the stored row.
pub open spec fn merge_voice(existing: VoiceView, v: VoiceView) -> VoiceView {
    VoiceView {
        id: existing.id,
        name: v.name,
        description: v.description,
        prefix: v.prefix,
        created_at: existing.created_at,
        deleted_at: v.deleted_at,
    }
}

/// The row an upsert leaves under an already-used conversation id.
pub open spec fn merge_conversation(existing: ConversationView, c: ConversationView) -> ConversationView {
    ConversationView {
        id: existing.id,
        user_id: c.user_id,
        name: c.name,
        voice_id: c.voice_id,
        created_at: existing.created_at,
        deleted_at: c.deleted_at,
    }
}

/// The row an upsert leaves under an already-used message id.
pub open spec fn merge_message(existing: MessageView, m: MessageView) -> MessageView {
    MessageView {
        id: existing.id,
        conversation_id: m.conversation_id,
        author: m.author,
        content: m.content,
        created_at: existing.created_at,
        deleted_at: m.deleted_at,
    }
}

/// Upsert into the voice table: a fresh id is appended; an existing id has
/// its mutable fields overwritten in place.
pub open spec fn upsert_voice(rows: Seq<VoiceView>, v: VoiceView) -> Seq<VoiceView> {
    match index_of_first_match(rows, voice_with_id(v.id)) {
        None => rows.push(v),
        Some(i) => rows.update(i, merge_voice(rows[i], v)),
    }
}

/// Upsert into the conversation table.
pub open spec fn upsert_conversation(rows: Seq<ConversationView>, c: ConversationView) -> Seq<
    ConversationView,
> {
    match index_of_first_match(rows, conversation_with_id(c.id)) {
        None => rows.push(c),
        Some(i) => rows.update(i, merge_conversation(rows[i], c)),
    }
}

/// Upsert into the message table.
pub open spec fn upsert_message(rows: Seq<MessageView>, m: MessageView) -> Seq<MessageView> {
    match index_of_first_match(rows, message_with_id(m.id)) {
        None => rows.push(m),
        Some(i) => rows.update(i, merge_message(rows[i], m)),
    }
}

/// Picks out the conversation rows belonging to user `user_id`, whatever
/// their deletion state.
pub open spec fn conversation_of_user(user_id: Seq<char>) -> spec_fn(ConversationView) -> bool {
    |c: ConversationView| c.user_id == user_id
}

/// Picks out the message rows belonging to conversation `conversation_id`,
/// whatever their deletion state.
pub open spec fn message_of_conversation(conversation_id: Seq<char>) -> spec_fn(
    MessageView,
) -> bool {
    |m: MessageView| m.conversation_id == conversation_id
}

/// One conversation row after a soft delete of conversation `id`: stamped
/// when it carries the id, untouched otherwise.
pub open spec fn mark_conversation_row(c: ConversationView, id: Seq<char>, now: int) -> ConversationView {
    if c.id == id {
        ConversationView { deleted_at: Some(now), ..c }
    } else {
        c
    }
}

/// Stamp `deleted_at` on every conversation row carrying `id`.
pub open spec fn mark_conversation_deleted(
    rows: Seq<ConversationView>,
    id: Seq<char>,
    now: int,
) -> Seq<ConversationView> {
    rows.map_values(|c: ConversationView| mark_conversation_row(c, id, now))
}

/// One message row after a soft delete of conversation `conversation_id`:
/// stamped when it belongs to that conversation, untouched otherwise.
pub open spec fn mark_message_row(m: MessageView, conversation_id: Seq<char>, now: int) -> MessageView {
    if m.conversation_id == conversation_id {
        MessageView { deleted_at: Some(now), ..m }
    } else {
        m
    }
}

/// Stamp `deleted_at` on every message row of conversation `conversation_id`.
pub open spec fn mark_messages_deleted(
    rows: Seq<MessageView>,
    conversation_id: Seq<char>,
    now: int,
) -> Seq<MessageView> {
    rows.map_values(|m: MessageView| mark_message_row(m, conversation_id, now))
}

// ---------------------------------------------------------------------------
// Schema
// ---------------------------------------------------------------------------
/// The store after its schema has been asserted: tables and indexes present,
/// rows untouched.
pub open spec fn with_schema(s: StoreView) -> StoreView {
    StoreView { schema_asserted: true, ..s }
}

/// How many tables exist: the fixed three once the schema is asserted.
pub open spec fn spec_table_count(s: StoreView) -> int {
    if s.schema_asserted {
        3
    } else {
        0
    }
}

/// How many indexes exist: one per table once the schema is asserted.
pub open spec fn spec_index_count(s: StoreView) -> int {
    if s.schema_asserted {
        3
    } else {
        0
    }
}

// ---------------------------------------------------------------------------
// Seed data
// ---------------------------------------------------------------------------
/// The first default voice, under a given id and creation time.
pub open spec fn seed_voice_developer(id: Seq<char>, now: int) -> VoiceView {
    VoiceView {
        id: id,
        name: "Shaun Burdick"@,
        description: "The developer of this tool"@,
        prefix: "A software developer; Learning Rust; Too busy to focus on you;"@,
        created_at: now,
        deleted_at: None,
    }
}

/// The second default voice, under a given id and creation time.
pub open spec fn seed_voice_dog(id: Seq<char>, now: int) -> VoiceView {
    VoiceView {
        id: id,
        name: "Gwen Burdick"@,
        description: "My dog"@,
        prefix: "A dog; Just discovered the English language; Learned how to type; Just happy to be here;"@,
        created_at: now,
        deleted_at: None,
    }
}

/// The fixed set of default voices that seed an empty voice table.
pub open spec fn seed_voices(id1: Seq<char>, id2: Seq<char>, now: int) -> Seq<VoiceView> {
    seq![seed_voice_developer(id1, now), seed_voice_dog(id2, now)]
}

// ---------------------------------------------------------------------------
// The store
// ---------------------------------------------------------------------------
/// The storage engine's state: the three tables and whether the schema has
/// been asserted.
pub struct Store {
    schema_asserted: bool,
    voices: Vec<Voice>,
    conversations: Vec<Conversation>,
    messages: Vec<Message>,
}

impl View for Store {
    type V = StoreView;

    closed spec fn view(&self) -> StoreView {
        StoreView {
            schema_asserted: self.schema_asserted,
            voices: self.voices.deep_view(),
            conversations: self.conversations.deep_view(),
            messages: self.messages.deep_view(),
        }
    }
}

impl Store {
    /// Well-formedness: ids unique per table, every conversation referring
    /// to an existing voice, every message to an existing conversation.
    pub open spec fn wf(self) -> bool {
        &&& voice_ids_unique(self@.voices)
        &&& conversation_ids_unique(self@.conversations)
        &&& message_ids_unique(self@.messages)
        &&& conversations_reference_voices(self@.voices, self@.conversations)
        &&& messages_reference_conversations(self@.conversations, self@.messages)
    }

    /// Creates a new, empty store whose schema is not yet asserted.
    pub fn new() -> (r: Store)
        ensures
            r@ == (StoreView {
                schema_asserted: false,
                voices: Seq::<VoiceView>::empty(),
                conversations: Seq::<ConversationView>::empty(),
                messages: Seq::<MessageView>::empty(),
            }),
            r.wf(),
    {
        let r = Store {
            schema_asserted: false,
            voices: Vec::new(),
            conversations: Vec::new(),
            messages: Vec::new(),
        };
        proof {
            assert(r@ =~= (StoreView {
                schema_asserted: false,
                voices: Seq::<VoiceView>::empty(),
                conversations: Seq::<ConversationView>::empty(),
                messages: Seq::<MessageView>::empty(),
            }));
        }
        r
    }

    /// Asserts the schema, creating tables and indexes as needed: idempotent
    /// and safe to invoke on every process start.
    pub fn assert_schema(&mut self) -> (r: Result<(), StorageError>)
        ensures
            final(self)@ == with_schema(old(self)@),
            old(self).wf() ==> final(self).wf(),
            r == Ok::<(), StorageError>(()),
    {
        self.schema_asserted = true;
        proof {
            assert(final(self)@ =~= with_schema(old(self)@));
        }
        Ok(())
    }

    /// How many tables the schema holds.
    pub fn table_count(&self) -> (n: usize)
        ensures
            n as int == spec_table_count(self@),
    {
        if self.schema_asserted {
            3
        } else {
            0
        }
    }

    /// How many indexes the schema holds.
    pub fn index_count(&self) -> (n: usize)
        ensures
            n as int == spec_index_count(self@),
    {
        if self.schema_asserted {
            3
        } else {
            0
        }
    }

    /// Fetches a voice by id; deleted rows remain individually fetchable.
    /// Fails with `NotFound` exactly when no row carries the id.
    pub fn get_voice(&self, id: &String) -> (r: Result<Voice, StorageError>)
        ensures
            match r {
                Ok(v) => find_voice(self@.voices, id@) == Some(v@),
                Err(e) => e is NotFound && find_voice(self@.voices, id@) is None,
            },
    {
        let n = self.voices.len();
        let mut i: usize = 0;
        while i < n
            invariant
                i <= n,
                n == self.voices.len(),
                forall|j: int| 0 <= j < i ==> (#[trigger] self.voices.deep_view()[j]).id != id@,
            decreases n - i,
        {
            if self.voices[i].id == *id {
                proof {
                    lemma_first_match_at(self@.voices, voice_with_id(id@), i as int);
                }
                return Ok(self.voices[i].clone());
            }
            i = i + 1;
        }
        proof {
            lemma_no_match(self@.voices, voice_with_id(id@));
        }
        Err(StorageError::NotFound)
    }

    /// Fetches the requested deletion partition of the voice table, in table
    /// order. An empty result is a valid, non-error outcome.
    pub fn get_voices(&self, deleted: bool) -> (r: Result<Vec<Voice>, StorageError>)
        ensures
            r matches Ok(list) && list.deep_view() == self@.voices.filter(
                voice_in_listing(deleted),
            ),
    {
        let n = self.voices.len();
        let mut out: Vec<Voice> = Vec::new();
        let mut i: usize = 0;
        while i < n
            invariant
                i <= n,
                n == self.voices.len(),
                out.deep_view() =~= self@.voices.take(i as int).filter(voice_in_listing(deleted)),
            decreases n - i,
        {
            let keep: bool = match self.voices[i].deleted_at {
                Some(_) => deleted,
                None => !deleted,
            };
            proof {
                self@.voices.take(i as int).lemma_filter_push(
                    self@.voices[i as int],
                    voice_in_listing(deleted),
                );
                assert(self@.voices.take(i + 1) =~= self@.voices.take(i as int).push(
                    self@.voices[i as int],
                ));
            }
            if keep {
                out.push(self.voices[i].clone());
                proof {
                    assert(out.deep_view() =~= self@.voices.take(i + 1).filter(
                        voice_in_listing(deleted),
                    ));
                }
            }
            i = i + 1;
        }
        proof {
            assert(self@.voices.take(n as int) =~= self@.voices);
        }
        Ok(out)
    }

    /// Saves a voice, upserting by id: a fresh id is inserted, an existing
    /// id has every mutable field (everything except id and creation time)
    /// overwritten. Either path affects exactly one row.
    pub fn save_voice(&mut self, voice: &Voice) -> (r: Result<bool, StorageError>)
        requires
            old(self).wf(),
        ensures
            final(self).wf(),
            r == Ok::<bool, StorageError>(true),
            final(self)@ == (StoreView {
                voices: upsert_voice(old(self)@.voices, voice@),
                ..old(self)@
            }),
    {
        let ghost rows = self@.voices;
        let n = self.voices.len();
        let mut i: usize = 0;
        while i < n
            invariant
                i <= n,
                n == self.voices.len(),
                self == old(self),
                old(self).wf(),
                rows == self@.voices,
                forall|j: int| 0 <= j < i ==> (#[trigger] rows[j]).id != voice.id@,
            decreases n - i,
        {
            if self.voices[i].id == voice.id {
                proof {
                    lemma_first_match_at(rows, voice_with_id(voice@.id), i as int);
                }
                let merged = Voice {
                    id: self.voices[i].id.clone(),
                    name: voice.name.clone(),
                    description: voice.description.clone(),
                    prefix: voice.prefix.clone(),
                    created_at: self.voices[i].created_at,
                    deleted_at: voice.deleted_at,
                };
                self.voices[i] = merged;
                proof {
                    assert(self@.conversations == old(self)@.conversations);
                    assert(self@.messages == old(self)@.messages);
                    assert(self@.voices =~= rows.update(
                        i as int,
                        merge_voice(rows[i as int], voice@),
                    ));
                    assert(final(self)@ =~= (StoreView {
                        voices: upsert_voice(rows, voice@),
                        ..old(self)@
                    }));
                    assert(forall|a: int|
                        0 <= a < rows.len() ==> (#[trigger] self@.voices[a]).id == rows[a].id);
                    lemma_voice_refs_preserved(rows, self@.voices, self@.conversations);
                }
                return Ok(true);
            }
            i = i + 1;
        }
        proof {
            lemma_no_match(rows, voice_with_id(voice@.id));
        }
        self.voices.push(voice.clone());
        proof {
            assert(self@.conversations == old(self)@.conversations);
            assert(self@.messages == old(self)@.messages);
            assert(self@.voices =~= rows.push(voice@));
            assert(final(self)@ =~= (StoreView { voices: upsert_voice(rows, voice@), ..old(self)@ }));
            lemma_voice_refs_preserved(rows, self@.voices, self@.conversations);
        }
        Ok(true)
    }

    /// Fetches a conversation by id; deleted rows remain individually
    /// fetchable. Fails with `NotFound` exactly when no row carries the id.
    pub fn get_conversation(&self, id: &String) -> (r: Result<Conversation, StorageError>)
        ensures
            match r {
                Ok(c) => find_conversation(self@.conversations, id@) == Some(c@),
                Err(e) => e is NotFound && find_conversation(self@.conversations, id@) is None,
            },
    {
        let n = self.conversations.len();
        let mut i: usize = 0;
        while i < n
            invariant
                i <= n,
                n == self.conversations.len(),
                forall|j: int|
                    0 <= j < i ==> (#[trigger] self.conversations.deep_view()[j]).id != id@,
            decreases n - i,
        {
            if self.conversations[i].id == *id {
                proof {
                    lemma_first_match_at(self@.conversations, conversation_with_id(id@), i as int);
                }
                return Ok(self.conversations[i].clone());
            }
            i = i + 1;
        }
        proof {
            lemma_no_match(self@.conversations, conversation_with_id(id@));
        }
        Err(StorageError::NotFound)
    }

    /// Fetches the requested deletion partition of a user's conversations,
    /// in table order. An empty result is a valid, non-error outcome.
    pub fn get_conversations(&self, user_id: &String, deleted: bool) -> (r: Result<
        Vec<Conversation>,
        StorageError,
    >)
        ensures
            r matches Ok(list) && list.deep_view() == self@.conversations.filter(
                conversation_in_listing(user_id@, deleted),
            ),
    {
        let n = self.conversations.len();
        let mut out: Vec<Conversation> = Vec::new();
        let mut i: usize = 0;
        while i < n
            invariant
                i <= n,
                n == self.conversations.len(),
                out.deep_view() =~= self@.conversations.take(i as int).filter(
                    conversation_in_listing(user_id@, deleted),
                ),
            decreases n - i,
        {
            let visibility: bool = match self.conversations[i].deleted_at {
                Some(_) => deleted,
                None => !deleted,
            };
            let keep: bool = visibility && self.conversations[i].user_id == *user_id;
            proof {
                self@.conversations.take(i as int).lemma_filter_push(
                    self@.conversations[i as int],
                    conversation_in_listing(user_id@, deleted),
                );
                assert(self@.conversations.take(i + 1) =~= self@.conversations.take(i as int).push(
                    self@.conversations[i as int],
                ));
            }
            if keep {
                out.push(self.conversations[i].clone());
                proof {
                    assert(out.deep_view() =~= self@.conversations.take(i + 1).filter(
                        conversation_in_listing(user_id@, deleted),
                    ));
                }
            }
            i = i + 1;
        }
        proof {
            assert(self@.conversations.take(n as int) =~= self@.conversations);
        }
        Ok(out)
    }

    /// Saves a conversation, upserting by id. The referenced voice must
    /// exist at save time; otherwise the write is refused with `Conflict`
    /// and the store is untouched.
    pub fn save_conversation(&mut self, conversation: &Conversation) -> (r: Result<
        bool,
        StorageError,
    >)
        requires
            old(self).wf(),
        ensures
            final(self).wf(),
            voice_id_exists(old(self)@.voices, conversation@.voice_id) ==> r == Ok::<
                bool,
                StorageError,
            >(true) && final(self)@ == (StoreView {
                conversations: upsert_conversation(old(self)@.conversations, conversation@),
                ..old(self)@
            }),
            !voice_id_exists(old(self)@.voices, conversation@.voice_id) ==> (r matches Err(e)
                && e matches StorageError::Conflict(m) && m@ == "FOREIGN KEY constraint failed"@
                && final(self)@ == old(self)@),
    {
        let vn = self.voices.len();
        let mut k: usize = 0;
        let mut fk_ok: bool = false;
        while k < vn && !fk_ok
            invariant
                k <= vn,
                vn == self.voices.len(),
                self == old(self),
                forall|j: int|
                    0 <= j < k ==> (#[trigger] self@.voices[j]).id != conversation.voice_id@,
                fk_ok ==> voice_id_exists(self@.voices, conversation.voice_id@),
            decreases vn - k + (if fk_ok {
                0int
            } else {
                1int
            }),
        {
            if self.voices[k].id == conversation.voice_id {
                proof {
                    assert(self@.voices[k as int].id == conversation.voice_id@);
                }
                fk_ok = true;
            } else {
                k = k + 1;
            }
        }
        if !fk_ok {
            proof {
                assert(!voice_id_exists(self@.voices, conversation@.voice_id));
            }
            return Err(StorageError::Conflict("FOREIGN KEY constraint failed".to_owned()));
        }
        let ghost rows = self@.conversations;
        let n = self.conversations.len();
        let mut i: usize = 0;
        while i < n
            invariant
                i <= n,
                n == self.conversations.len(),
                self == old(self),
                old(self).wf(),
                rows == self@.conversations,
                voice_id_exists(self@.voices, conversation.voice_id@),
                forall|j: int| 0 <= j < i ==> (#[trigger] rows[j]).id != conversation.id@,
            decreases n - i,
        {
            if self.conversations[i].id == conversation.id {
                proof {
                    lemma_first_match_at(rows, conversation_with_id(conversation@.id), i as int);
                }
                let merged = Conversation {
                    id: self.conversations[i].id.clone(),
                    user_id: conversation.user_id.clone(),
                    name: conversation.name.clone(),
                    voice_id: conversation.voice_id.clone(),
                    created_at: self.conversations[i].created_at,
                    deleted_at: conversation.deleted_at,
                };
                self.conversations[i] = merged;
                proof {
                    assert(self@.voices == old(self)@.voices);
                    assert(self@.messages == old(self)@.messages);
                    assert(self@.conversations =~= rows.update(
                        i as int,
                        merge_conversation(rows[i as int], conversation@),
                    ));
                    assert(final(self)@ =~= (StoreView {
                        conversations: upsert_conversation(rows, conversation@),
                        ..old(self)@
                    }));
                    assert(forall|a: int|
                        0 <= a < rows.len() ==> (#[trigger] self@.conversations[a]).id
                            == rows[a].id);
                    assert forall|ci: int|
                        0 <= ci < self@.conversations.len() implies voice_id_exists(
                        self@.voices,
                        (#[trigger] self@.conversations[ci]).voice_id,
                    ) by {
                        if ci != i as int {
                            assert(self@.conversations[ci] == rows[ci]);
                        }
                    }
                    lemma_conversation_refs_preserved(rows, self@.conversations, self@.messages);
                }
                return Ok(true);
            }
            i = i + 1;
        }
        proof {
            lemma_no_match(rows, conversation_with_id(conversation@.id));
        }
        self.conversations.push(conversation.clone());
        proof {
            assert(self@.voices == old(self)@.voices);
            assert(self@.messages == old(self)@.messages);
            assert(self@.conversations =~= rows.push(conversation@));
            assert(final(self)@ =~= (StoreView {
                conversations: upsert_conversation(rows, conversation@),
                ..old(self)@
            }));
            assert forall|ci: int|
                0 <= ci < self@.conversations.len() implies voice_id_exists(
                self@.voices,
                (#[trigger] self@.conversations[ci]).voice_id,
            ) by {
                if ci != rows.len() as int {
                    assert(self@.conversations[ci] == rows[ci]);
                }
            }
            lemma_conversation_refs_preserved(rows, self@.conversations, self@.messages);
        }
        Ok(true)
    }

    /// Fetches a message by id; deleted rows remain individually fetchable.
    /// Fails with `NotFound` exactly when no row carries the id.
    pub fn get_message(&self, id: &String) -> (r: Result<Message, StorageError>)
        ensures
            match r {
                Ok(m) => find_message(self@.messages, id@) == Some(m@),
                Err(e) => e is NotFound && find_message(self@.messages, id@) is None,
            },
    {
        let n = self.messages.len();
        let mut i: usize = 0;
        while i < n
            invariant
                i <= n,
                n == self.messages.len(),
                forall|j: int| 0 <= j < i ==> (#[trigger] self.messages.deep_view()[j]).id != id@,
            decreases n - i,
        {
            if self.messages[i].id == *id {
                proof {
                    lemma_first_match_at(self@.messages, message_with_id(id@), i as int);
                }
                return Ok(self.messages[i].clone());
            }
            i = i + 1;
        }
        proof {
            lemma_no_match(self@.messages, message_with_id(id@));
        }
        Err(StorageError::NotFound)
    }

    /// Fetches the requested deletion partition of a conversation's
    /// messages, in table order. An empty result is a valid, non-error
    /// outcome.
    pub fn get_messages(&self, conversation_id: &String, deleted: bool) -> (r: Result<
        Vec<Message>,
        StorageError,
    >)
        ensures
            r matches Ok(list) && list.deep_view() == self@.messages.filter(
                message_in_listing(conversation_id@, deleted),
            ),
    {
        let n = self.messages.len();
        let mut out: Vec<Message> = Vec::new();
        let mut i: usize = 0;
        while i < n
            invariant
                i <= n,
                n == self.messages.len(),
                out.deep_view() =~= self@.messages.take(i as int).filter(
                    message_in_listing(conversation_id@, deleted),
                ),
            decreases n - i,
        {
            let visibility: bool = match self.messages[i].deleted_at {
                Some(_) => deleted,
                None => !deleted,
            };
            let keep: bool = visibility && self.messages[i].conversation_id == *conversation_id;
            proof {
                self@.messages.take(i as int).lemma_filter_push(
                    self@.messages[i as int],
                    message_in_listing(conversation_id@, deleted),
                );
                assert(self@.messages.take(i + 1) =~= self@.messages.take(i as int).push(
                    self@.messages[i as int],
                ));
            }
            if keep {
                out.push(self.messages[i].clone());
                proof {
                    assert(out.deep_view() =~= self@.messages.take(i + 1).filter(
                        message_in_listing(conversation_id@, deleted),
                    ));
                }
            }
            i = i + 1;
        }
        proof {
            assert(self@.messages.take(n as int) =~= self@.messages);
        }
        Ok(out)
    }

    /// Saves a message, upserting by id. The referenced conversation must
    /// exist at save time; otherwise the write is refused with `Conflict`
    /// and the store is untouched.
    pub fn save_message(&mut self, message: &Message) -> (r: Result<bool, StorageError>)
        requires
            old(self).wf(),
        ensures
            final(self).wf(),
            conversation_id_exists(old(self)@.conversations, message@.conversation_id) ==> r == Ok::<
                bool,
                StorageError,
            >(true) && final(self)@ == (StoreView {
                messages: upsert_message(old(self)@.messages, message@),
                ..old(self)@
            }),
            !conversation_id_exists(old(self)@.conversations, message@.conversation_id) ==> (
            r matches Err(e) && e matches StorageError::Conflict(m) && m@
                == "FOREIGN KEY constraint failed"@ && final(self)@ == old(self)@),
    {
        let cn = self.conversations.len();
        let mut k: usize = 0;
        let mut fk_ok: bool = false;
        while k < cn && !fk_ok
            invariant
                k <= cn,
                cn == self.conversations.len(),
                self == old(self),
                forall|j: int|
                    0 <= j < k ==> (#[trigger] self@.conversations[j]).id
                        != message.conversation_id@,
                fk_ok ==> conversation_id_exists(self@.conversations, message.conversation_id@),
            decreases cn - k + (if fk_ok {
                0int
            } else {
                1int
            }),
        {
            if self.conversations[k].id == message.conversation_id {
                proof {
                    assert(self@.conversations[k as int].id == message.conversation_id@);
                }
                fk_ok = true;
            } else {
                k = k + 1;
            }
        }
        if !fk_ok {
            proof {
                assert(!conversation_id_exists(self@.conversations, message@.conversation_id));
            }
            return Err(StorageError::Conflict("FOREIGN KEY constraint failed".to_owned()));
        }
        let ghost rows = self@.messages;
        let n = self.messages.len();
        let mut i: usize = 0;
        while i < n
            invariant
                i <= n,
                n == self.messages.len(),
                self == old(self),
                old(self).wf(),
                rows == self@.messages,
                conversation_id_exists(self@.conversations, message.conversation_id@),
                forall|j: int| 0 <= j < i ==> (#[trigger] rows[j]).id != message.id@,
            decreases n - i,
        {
            if self.messages[i].id == message.id {
                proof {
                    lemma_first_match_at(rows, message_with_id(message@.id), i as int);
                }
                let merged = Message {
                    id: self.messages[i].id.clone(),
                    conversation_id: message.conversation_id.clone(),
                    author: message.author,
                    content: message.content.clone(),
                    created_at: self.messages[i].created_at,
                    deleted_at: message.deleted_at,
                };
                self.messages[i] = merged;
                proof {
                    assert(self@.voices == old(self)@.voices);
                    assert(self@.conversations == old(self)@.conversations);
                    assert(self@.messages =~= rows.update(
                        i as int,
                        merge_message(rows[i as int], message@),
                    ));
                    assert(final(self)@ =~= (StoreView {
                        messages: upsert_message(rows, message@),
                        ..old(self)@
                    }));
                    assert(forall|a: int|
                        0 <= a < rows.len() ==> (#[trigger] self@.messages[a]).id == rows[a].id);
                    assert forall|mi: int|
                        0 <= mi < self@.messages.len() implies conversation_id_exists(
                        self@.conversations,
                        (#[trigger] self@.messages[mi]).conversation_id,
                    ) by {
                        if mi != i as int {
                            assert(self@.messages[mi] == rows[mi]);
                        }
                    }
                }
                return Ok(true);
            }
            i = i + 1;
        }
        proof {
            lemma_no_match(rows, message_with_id(message@.id));
        }
        self.messages.push(message.clone());
        proof {
            assert(self@.voices == old(self)@.voices);
            assert(self@.conversations == old(self)@.conversations);
            assert(self@.messages =~= rows.push(message@));
            assert(final(self)@ =~= (StoreView {
                messages: upsert_message(rows, message@),
                ..old(self)@
            }));
            assert forall|mi: int|
                0 <= mi < self@.messages.len() implies conversation_id_exists(
                self@.conversations,
                (#[trigger] self@.messages[mi]).conversation_id,
            ) by {
                if mi != rows.len() as int {
                    assert(self@.messages[mi] == rows[mi]);
                }
            }
        }
        Ok(true)
    }

    /// Sets `deleted_at` to the given time on every conversation row
    /// carrying the id. Returns whether exactly one row was affected.
    pub fn delete_conversation_at(&mut self, conversation_id: &String, now: i64) -> (r: Result<
        bool,
        StorageError,
    >)
        ensures
            final(self)@ == (StoreView {
                conversations: mark_conversation_deleted(
                    old(self)@.conversations,
                    conversation_id@,
                    now as int,
                ),
                ..old(self)@
            }),
            old(self).wf() ==> final(self).wf(),
            r == Ok::<bool, StorageError>(
                old(self)@.conversations.filter(conversation_with_id(conversation_id@)).len() == 1,
            ),
    {
        let ghost rows = self@.conversations;
        let n = self.conversations.len();
        let mut i: usize = 0;
        let mut affected: usize = 0;
        while i < n
            invariant
                i <= n,
                affected <= i,
                n == self.conversations.len(),
                n == rows.len(),
                rows == old(self)@.conversations,
                self@.voices == old(self)@.voices,
                self@.messages == old(self)@.messages,
                self@.schema_asserted == old(self)@.schema_asserted,
                affected as int == rows.take(i as int).filter(
                    conversation_with_id(conversation_id@),
                ).len(),
                forall|j: int|
                    0 <= j < i ==> (#[trigger] self@.conversations[j]) == mark_conversation_row(
                        rows[j],
                        conversation_id@,
                        now as int,
                    ),
                forall|j: int| i <= j < n ==> (#[trigger] self@.conversations[j]) == rows[j],
            decreases n - i,
        {
            proof {
                rows.take(i as int).lemma_filter_push(
                    rows[i as int],
                    conversation_with_id(conversation_id@),
                );
                assert(rows.take(i + 1) =~= rows.take(i as int).push(rows[i as int]));
            }
            if self.conversations[i].id == *conversation_id {
                proof {
                    assert(self@.conversations[i as int] == rows[i as int]);
                    assert(rows[i as int].id == conversation_id@);
                }
                let cur = self.conversations[i].clone();
                let updated = Conversation {
                    id: cur.id,
                    user_id: cur.user_id,
                    name: cur.name,
                    voice_id: cur.voice_id,
                    created_at: cur.created_at,
                    deleted_at: Some(now),
                };
                let ghost pre = self@.conversations;
                self.conversations[i] = updated;
                affected = affected + 1;
                proof {
                    assert(self@.conversations =~= pre.update(i as int, updated@));
                    assert(updated@ =~= mark_conversation_row(
                        rows[i as int],
                        conversation_id@,
                        now as int,
                    ));
                    assert forall|j: int|
                        0 <= j < i + 1 implies (#[trigger] self@.conversations[j])
                        == mark_conversation_row(rows[j], conversation_id@, now as int) by {
                        if j < i as int {
                            assert(self@.conversations[j] == pre[j]);
                        }
                    }
                    assert forall|j: int|
                        i + 1 <= j < n implies (#[trigger] self@.conversations[j]) == rows[j] by {
                        assert(self@.conversations[j] == pre[j]);
                    }
                }
            } else {
                proof {
                    assert(self@.conversations[i as int] == rows[i as int]);
                    assert(rows[i as int].id != conversation_id@);
                    assert(mark_conversation_row(rows[i as int], conversation_id@, now as int)
                        == rows[i as int]);
                }
            }
            i = i + 1;
        }
        proof {
            assert(rows.take(n as int) =~= rows);
            assert(self@.conversations =~= mark_conversation_deleted(
                rows,
                conversation_id@,
                now as int,
            ));
            assert(final(self)@ =~= (StoreView {
                conversations: mark_conversation_deleted(rows, conversation_id@, now as int),
                ..old(self)@
            }));
            if old(self).wf() {
                assert(forall|a: int|
                    0 <= a < n ==> (#[trigger] self@.conversations[a]).id == rows[a].id
                        && self@.conversations[a].voice_id == rows[a].voice_id);
                assert forall|ci: int|
                    0 <= ci < self@.conversations.len() implies voice_id_exists(
                    self@.voices,
                    (#[trigger] self@.conversations[ci]).voice_id,
                ) by {
                    assert(voice_id_exists(old(self)@.voices, rows[ci].voice_id));
                }
                lemma_conversation_refs_preserved(rows, self@.conversations, self@.messages);
            }
        }
        if affected == 1 {
            Ok(true)
        } else {
            Ok(false)
        }
    }

    /// Sets `deleted_at` to the current time on the conversation carrying
    /// the id. Returns whether exactly one row was affected.
    pub fn delete_conversation(&mut self, conversation_id: &String) -> (r: Result<
        bool,
        StorageError,
    >)
        ensures
            exists|now: int|
                final(self)@ == (StoreView {
                    conversations: #[trigger] mark_conversation_deleted(
                        old(self)@.conversations,
                        conversation_id@,
                        now,
                    ),
                    ..old(self)@
                }),
            old(self).wf() ==> final(self).wf(),
            r == Ok::<bool, StorageError>(
                old(self)@.conversations.filter(conversation_with_id(conversation_id@)).len() == 1,
            ),
    {
        let now = current_timestamp();
        let r = self.delete_conversation_at(conversation_id, now);
        proof {
            assert(final(self)@ == (StoreView {
                conversations: mark_conversation_deleted(
                    old(self)@.conversations,
                    conversation_id@,
                    now as int,
                ),
                ..old(self)@
            }));
        }
        r
    }

    /// Sets `deleted_at` to the given time on every message row of the
    /// conversation. Returns whether exactly one row was affected.
    pub fn delete_messages_by_conversation_at(
        &mut self,
        conversation_id: &String,
        now: i64,
    ) -> (r: Result<bool, StorageError>)
        ensures
            final(self)@ == (StoreView {
                messages: mark_messages_deleted(old(self)@.messages, conversation_id@, now as int),
                ..old(self)@
            }),
            old(self).wf() ==> final(self).wf(),
            r == Ok::<bool, StorageError>(
                old(self)@.messages.filter(message_of_conversation(conversation_id@)).len() == 1,
            ),
    {
        let ghost rows = self@.messages;
        let n = self.messages.len();
        let mut i: usize = 0;
        let mut affected: usize = 0;
        while i < n
            invariant
                i <= n,
                affected <= i,
                n == self.messages.len(),
                n == rows.len(),
                rows == old(self)@.messages,
                self@.voices == old(self)@.voices,
                self@.conversations == old(self)@.conversations,
                self@.schema_asserted == old(self)@.schema_asserted,
                affected as int == rows.take(i as int).filter(
                    message_of_conversation(conversation_id@),
                ).len(),
                forall|j: int|
                    0 <= j < i ==> (#[trigger] self@.messages[j]) == mark_message_row(
                        rows[j],
                        conversation_id@,
                        now as int,
                    ),
                forall|j: int| i <= j < n ==> (#[trigger] self@.messages[j]) == rows[j],
            decreases n - i,
        {
            proof {
                rows.take(i as int).lemma_filter_push(
                    rows[i as int],
                    message_of_conversation(conversation_id@),
                );
                assert(rows.take(i + 1) =~= rows.take(i as int).push(rows[i as int]));
            }
            if self.messages[i].conversation_id == *conversation_id {
                proof {
                    assert(self@.messages[i as int] == rows[i as int]);
                    assert(rows[i as int].conversation_id == conversation_id@);
                }
                let cur = self.messages[i].clone();
                let updated = Message {
                    id: cur.id,
                    conversation_id: cur.conversation_id,
                    author: cur.author,
                    content: cur.content,
                    created_at: cur.created_at,
                    deleted_at: Some(now),
                };
                let ghost pre = self@.messages;
                self.messages[i] = updated;
                affected = affected + 1;
                proof {
                    assert(self@.messages =~= pre.update(i as int, updated@));
                    assert(updated@ =~= mark_message_row(
                        rows[i as int],
                        conversation_id@,
                        now as int,
                    ));
                    assert forall|j: int|
                        0 <= j < i + 1 implies (#[trigger] self@.messages[j]) == mark_message_row(
                        rows[j],
                        conversation_id@,
                        now as int,
                    ) by {
                        if j < i as int {
                            assert(self@.messages[j] == pre[j]);
                        }
                    }
                    assert forall|j: int|
                        i + 1 <= j < n implies (#[trigger] self@.messages[j]) == rows[j] by {
                        assert(self@.messages[j] == pre[j]);
                    }
                }
            } else {
                proof {
                    assert(self@.messages[i as int] == rows[i as int]);
                    assert(rows[i as int].conversation_id != conversation_id@);
                    assert(mark_message_row(rows[i as int], conversation_id@, now as int)
                        == rows[i as int]);
                }
            }
            i = i + 1;
        }
        proof {
            assert(rows.take(n as int) =~= rows);
            assert(self@.messages =~= mark_messages_deleted(rows, conversation_id@, now as int));
            assert(final(self)@ =~= (StoreView {
                messages: mark_messages_deleted(rows, conversation_id@, now as int),
                ..old(self)@
            }));
            if old(self).wf() {
                assert(forall|a: int|
                    0 <= a < n ==> (#[trigger] self@.messages[a]).id == rows[a].id
                        && self@.messages[a].conversation_id == rows[a].conversation_id);
                assert forall|mi: int|
                    0 <= mi < self@.messages.len() implies conversation_id_exists(
                    self@.conversations,
                    (#[trigger] self@.messages[mi]).conversation_id,
                ) by {
                    assert(conversation_id_exists(old(self)@.conversations, rows[mi].conversation_id));
                }
            }
        }
        if affected == 1 {
            Ok(true)
        } else {
            Ok(false)
        }
    }

    /// Sets `deleted_at` to the current time on every message row of the
    /// conversation. Returns whether exactly one row was affected.
    pub fn delete_messages_by_conversation(&mut self, conversation_id: &String) -> (r: Result<
        bool,
        StorageError,
    >)
        ensures
            exists|now: int|
                final(self)@ == (StoreView {
                    messages: #[trigger] mark_messages_deleted(
                        old(self)@.messages,
                        conversation_id@,
                        now,
                    ),
                    ..old(self)@
                }),
            old(self).wf() ==> final(self).wf(),
            r == Ok::<bool, StorageError>(
                old(self)@.messages.filter(message_of_conversation(conversation_id@)).len() == 1,
            ),
    {
        let now = current_timestamp();
        let r = self.delete_messages_by_conversation_at(conversation_id, now);
        proof {
            assert(final(self)@ == (StoreView {
                messages: mark_messages_deleted(old(self)@.messages, conversation_id@, now as int),
                ..old(self)@
            }));
        }
        r
    }

    /// Initializes the store: inserts the fixed default voices when the
    /// voice table is empty, and leaves a non-empty table untouched. The
    /// count-then-insert check makes a second run a no-op.
    pub fn init(&mut self) -> (r: Result<(), StorageError>)
        requires
            old(self).wf(),
        ensures
            final(self).wf(),
            old(self)@.voices.len() > 0 ==> r == Ok::<(), StorageError>(()) && final(self)@ == old(
                self,
            )@,
            old(self)@.voices.len() == 0 ==> match r {
                Ok(u) => exists|id1: Seq<char>, id2: Seq<char>, now: int|
                    id1 != id2 && final(self)@ == (StoreView {
                        voices: #[trigger] seed_voices(id1, id2, now),
                        ..old(self)@
                    }),
                Err(e) => e matches StorageError::Conflict(_) && final(self)@ == old(self)@,
            },
    {
        if self.voices.len() > 0 {
            return Ok(());
        }
        let id1 = generate_uuid();
        let id2 = generate_uuid();
        let now = current_timestamp();
        if id1 == id2 {
            return Err(StorageError::Conflict("UNIQUE constraint failed: voice.id".to_owned()));
        }
        proof {
            assert(old(self)@.conversations.len() == 0) by {
                if old(self)@.conversations.len() > 0 {
                    assert(voice_id_exists(
                        old(self)@.voices,
                        old(self)@.conversations[0].voice_id,
                    ));
                }
            }
            assert(old(self)@.messages.len() == 0) by {
                if old(self)@.messages.len() > 0 {
                    assert(conversation_id_exists(
                        old(self)@.conversations,
                        old(self)@.messages[0].conversation_id,
                    ));
                }
            }
        }
        let first = Voice {
            id: id1,
            name: "Shaun Burdick".to_owned(),
            description: "The developer of this tool".to_owned(),
            prefix: "A software developer; Learning Rust; Too busy to focus on you;".to_owned(),
            created_at: now,
            deleted_at: None,
        };
        let second = Voice {
            id: id2,
            name: "Gwen Burdick".to_owned(),
            description: "My dog".to_owned(),
            prefix: "A dog; Just discovered the English language; Learned how to type; Just happy to be here;".to_owned(),
            created_at: now,
            deleted_at: None,
        };
        let ghost seeded = seed_voices(first.id@, second.id@, now as int);
        self.voices.push(first);
        self.voices.push(second);
        proof {
            assert(self@.voices =~= seeded);
            assert(final(self)@ =~= (StoreView { voices: seeded, ..old(self)@ }));
        }
        Ok(())
    }
}

} // verus!
