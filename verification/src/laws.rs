//! Laws of the storage engine, each proved over the same spec functions that
//! the engine's contracts use.

use vstd::prelude::*;

use crate::conversation::ConversationView;
use crate::message::MessageView;
use crate::rows::{
    index_of_first_match, lemma_filter_empty, lemma_filter_single_match, lemma_filter_split,
    lemma_first_match_at, lemma_index_of_first_match,
};
use crate::store::{
    conversation_ids_unique, conversation_in_listing, conversation_of_user, conversation_with_id,
    find_conversation, find_message, find_voice, mark_conversation_deleted, mark_conversation_row,
    mark_message_row, mark_messages_deleted, merge_conversation, merge_message, merge_voice,
    message_ids_unique, message_in_listing, message_of_conversation, message_with_id,
    spec_index_count, spec_table_count, upsert_conversation, upsert_message, upsert_voice,
    voice_ids_unique, voice_in_listing, voice_with_id, with_schema, StoreView,
};
use crate::voice::VoiceView;

verus! {

// ---------------------------------------------------------------------------
// Round trip: a save followed by a fetch of the same id returns the saved
// value. The upsert keeps a stored row's creation time, so the law asks that
// any row already under the id carry the same creation time as the saved
// value; an existing row with a different creation time is the one input on
// which the round trip returns a different `created_at`.
// ---------------------------------------------------------------------------
/// Law: saving a voice and then fetching its id returns the saved voice.
pub proof fn lemma_voice_save_then_get(rows: Seq<VoiceView>, v: VoiceView)
    requires
        match find_voice(rows, v.id) {
            Some(e) => e.created_at == v.created_at,
            None => true,
        },
    ensures
        find_voice(upsert_voice(rows, v), v.id) == Some(v),
{
    lemma_index_of_first_match(rows, voice_with_id(v.id));
    match index_of_first_match(rows, voice_with_id(v.id)) {
        None => {
            let rows2 = rows.push(v);
            lemma_first_match_at(rows2, voice_with_id(v.id), rows.len() as int);
        },
        Some(i) => {
            let merged = merge_voice(rows[i], v);
            let rows2 = rows.update(i, merged);
            assert(merged =~= v);
            lemma_first_match_at(rows2, voice_with_id(v.id), i);
        },
    }
}

/// Law: saving a conversation and then fetching its id returns the saved
/// conversation.
pub proof fn lemma_conversation_save_then_get(rows: Seq<ConversationView>, c: ConversationView)
    requires
        match find_conversation(rows, c.id) {
            Some(e) => e.created_at == c.created_at,
            None => true,
        },
    ensures
        find_conversation(upsert_conversation(rows, c), c.id) == Some(c),
{
    lemma_index_of_first_match(rows, conversation_with_id(c.id));
    match index_of_first_match(rows, conversation_with_id(c.id)) {
        None => {
            let rows2 = rows.push(c);
            lemma_first_match_at(rows2, conversation_with_id(c.id), rows.len() as int);
        },
        Some(i) => {
            let merged = merge_conversation(rows[i], c);
            let rows2 = rows.update(i, merged);
            assert(merged =~= c);
            lemma_first_match_at(rows2, conversation_with_id(c.id), i);
        },
    }
}

/// Law: saving a message and then fetching its id returns the saved message.
pub proof fn lemma_message_save_then_get(rows: Seq<MessageView>, m: MessageView)
    requires
        match find_message(rows, m.id) {
            Some(e) => e.created_at == m.created_at,
            None => true,
        },
    ensures
        find_message(upsert_message(rows, m), m.id) == Some(m),
{
    lemma_index_of_first_match(rows, message_with_id(m.id));
    match index_of_first_match(rows, message_with_id(m.id)) {
        None => {
            let rows2 = rows.push(m);
            lemma_first_match_at(rows2, message_with_id(m.id), rows.len() as int);
        },
        Some(i) => {
            let merged = merge_message(rows[i], m);
            let rows2 = rows.update(i, merged);
            assert(merged =~= m);
            lemma_first_match_at(rows2, message_with_id(m.id), i);
        },
    }
}

// ---------------------------------------------------------------------------
// Idempotent upsert: writing the same id twice leaves exactly one row under
// that id, and a fetch returns the latest mutable fields.
// ---------------------------------------------------------------------------
/// Law: upserting two voices with the same id into a table with unique ids
/// leaves exactly one row under that id, holding the second write's mutable
/// fields.
pub proof fn lemma_voice_upsert_twice(rows: Seq<VoiceView>, v1: VoiceView, v2: VoiceView)
    requires
        voice_ids_unique(rows),
        v1.id == v2.id,
    ensures
        ({
            let rows2 = upsert_voice(upsert_voice(rows, v1), v2);
            &&& rows2.filter(voice_with_id(v2.id)).len() == 1
            &&& (find_voice(rows2, v2.id) matches Some(w) && w.id == v2.id && w.name == v2.name
                && w.description == v2.description && w.prefix == v2.prefix && w.deleted_at
                == v2.deleted_at)
        }),
{
    lemma_index_of_first_match(rows, voice_with_id(v1.id));
    match index_of_first_match(rows, voice_with_id(v1.id)) {
        None => {
            let at = rows.len() as int;
            let rows1 = rows.push(v1);
            lemma_first_match_at(rows1, voice_with_id(v2.id), at);
            let rows2 = rows1.update(at, merge_voice(rows1[at], v2));
            lemma_first_match_at(rows2, voice_with_id(v2.id), at);
            assert(forall|j: int|
                0 <= j < rows2.len() && j != at ==> !voice_with_id(v2.id)(#[trigger] rows2[j]));
            lemma_filter_single_match(rows2, voice_with_id(v2.id), at);
        },
        Some(i) => {
            let rows1 = rows.update(i, merge_voice(rows[i], v1));
            lemma_first_match_at(rows1, voice_with_id(v2.id), i);
            let rows2 = rows1.update(i, merge_voice(rows1[i], v2));
            lemma_first_match_at(rows2, voice_with_id(v2.id), i);
            assert forall|j: int|
                0 <= j < rows2.len() && j != i implies !voice_with_id(v2.id)(
                #[trigger] rows2[j],
            ) by {
                assert(rows2[j] == rows[j]);
            }
            lemma_filter_single_match(rows2, voice_with_id(v2.id), i);
        },
    }
}

/// Law: upserting two conversations with the same id into a table with
/// unique ids leaves exactly one row under that id, holding the second
/// write's mutable fields.
pub proof fn lemma_conversation_upsert_twice(
    rows: Seq<ConversationView>,
    c1: ConversationView,
    c2: ConversationView,
)
    requires
        conversation_ids_unique(rows),
        c1.id == c2.id,
    ensures
        ({
            let rows2 = upsert_conversation(upsert_conversation(rows, c1), c2);
            &&& rows2.filter(conversation_with_id(c2.id)).len() == 1
            &&& (find_conversation(rows2, c2.id) matches Some(w) && w.id == c2.id && w.user_id
                == c2.user_id && w.name == c2.name && w.voice_id == c2.voice_id && w.deleted_at
                == c2.deleted_at)
        }),
{
    lemma_index_of_first_match(rows, conversation_with_id(c1.id));
    match index_of_first_match(rows, conversation_with_id(c1.id)) {
        None => {
            let at = rows.len() as int;
            let rows1 = rows.push(c1);
            lemma_first_match_at(rows1, conversation_with_id(c2.id), at);
            let rows2 = rows1.update(at, merge_conversation(rows1[at], c2));
            lemma_first_match_at(rows2, conversation_with_id(c2.id), at);
            assert(forall|j: int|
                0 <= j < rows2.len() && j != at ==> !conversation_with_id(c2.id)(
                    #[trigger] rows2[j],
                ));
            lemma_filter_single_match(rows2, conversation_with_id(c2.id), at);
        },
        Some(i) => {
            let rows1 = rows.update(i, merge_conversation(rows[i], c1));
            lemma_first_match_at(rows1, conversation_with_id(c2.id), i);
            let rows2 = rows1.update(i, merge_conversation(rows1[i], c2));
            lemma_first_match_at(rows2, conversation_with_id(c2.id), i);
            assert forall|j: int|
                0 <= j < rows2.len() && j != i implies !conversation_with_id(c2.id)(
                #[trigger] rows2[j],
            ) by {
                assert(rows2[j] == rows[j]);
            }
            lemma_filter_single_match(rows2, conversation_with_id(c2.id), i);
        },
    }
}

/// Law: upserting two messages with the same id into a table with unique ids
/// leaves exactly one row under that id, holding the second write's mutable
/// fields.
pub proof fn lemma_message_upsert_twice(rows: Seq<MessageView>, m1: MessageView, m2: MessageView)
    requires
        message_ids_unique(rows),
        m1.id == m2.id,
    ensures
        ({
            let rows2 = upsert_message(upsert_message(rows, m1), m2);
            &&& rows2.filter(message_with_id(m2.id)).len() == 1
            &&& (find_message(rows2, m2.id) matches Some(w) && w.id == m2.id && w.conversation_id
                == m2.conversation_id && w.author == m2.author && w.content == m2.content
                && w.deleted_at == m2.deleted_at)
        }),
{
    lemma_index_of_first_match(rows, message_with_id(m1.id));
    match index_of_first_match(rows, message_with_id(m1.id)) {
        None => {
            let at = rows.len() as int;
            let rows1 = rows.push(m1);
            lemma_first_match_at(rows1, message_with_id(m2.id), at);
            let rows2 = rows1.update(at, merge_message(rows1[at], m2));
            lemma_first_match_at(rows2, message_with_id(m2.id), at);
            assert(forall|j: int|
                0 <= j < rows2.len() && j != at ==> !message_with_id(m2.id)(#[trigger] rows2[j]));
            lemma_filter_single_match(rows2, message_with_id(m2.id), at);
        },
        Some(i) => {
            let rows1 = rows.update(i, merge_message(rows[i], m1));
            lemma_first_match_at(rows1, message_with_id(m2.id), i);
            let rows2 = rows1.update(i, merge_message(rows1[i], m2));
            lemma_first_match_at(rows2, message_with_id(m2.id), i);
            assert forall|j: int|
                0 <= j < rows2.len() && j != i implies !message_with_id(m2.id)(
                #[trigger] rows2[j],
            ) by {
                assert(rows2[j] == rows[j]);
            }
            lemma_filter_single_match(rows2, message_with_id(m2.id), i);
        },
    }
}

// ---------------------------------------------------------------------------
// Partition: the active listing and the deleted listing split a table (or
// its scoped slice) with no overlap and nothing left over, whatever sequence
// of creates and soft deletes produced it.
// ---------------------------------------------------------------------------
/// Law: the active and deleted voice listings partition the voice table.
pub proof fn lemma_voice_listing_partition(rows: Seq<VoiceView>)
    ensures
        rows.filter(voice_in_listing(false)).len() + rows.filter(voice_in_listing(true)).len()
            == rows.len(),
        forall|j: int|
            0 <= j < rows.len() ==> rows.filter(voice_in_listing(false)).contains(
                #[trigger] rows[j],
            ) || rows.filter(voice_in_listing(true)).contains(rows[j]),
        forall|v: VoiceView|
            !(#[trigger] rows.filter(voice_in_listing(false)).contains(v) && rows.filter(
                voice_in_listing(true),
            ).contains(v)),
{
    let everything = |v: VoiceView| true;
    lemma_filter_split(rows, everything, voice_in_listing(false), voice_in_listing(true));
    assert(rows.filter(everything) =~= rows) by {
        lemma_filter_everything::<VoiceView>(rows, everything);
    }
}

/// A filter that accepts every row returns the table unchanged.
proof fn lemma_filter_everything<T>(rows: Seq<T>, pred: spec_fn(T) -> bool)
    requires
        forall|t: T| #[trigger] pred(t),
    ensures
        rows.filter(pred) == rows,
    decreases rows.len(),
{
    reveal(Seq::filter);
    if rows.len() > 0 {
        lemma_filter_everything(rows.drop_last(), pred);
    }
    assert(rows.filter(pred) =~= rows);
}

/// Law: for any user, the active and deleted conversation listings partition
/// that user's slice of the conversation table.
pub proof fn lemma_conversation_listing_partition(rows: Seq<ConversationView>, user_id: Seq<char>)
    ensures
        rows.filter(conversation_in_listing(user_id, false)).len() + rows.filter(
            conversation_in_listing(user_id, true),
        ).len() == rows.filter(conversation_of_user(user_id)).len(),
        forall|j: int|
            0 <= j < rows.len() && (#[trigger] rows[j]).user_id == user_id ==> rows.filter(
                conversation_in_listing(user_id, false),
            ).contains(rows[j]) || rows.filter(conversation_in_listing(user_id, true)).contains(
                rows[j],
            ),
        forall|c: ConversationView|
            !(#[trigger] rows.filter(conversation_in_listing(user_id, false)).contains(c)
                && rows.filter(conversation_in_listing(user_id, true)).contains(c)),
{
    lemma_filter_split(
        rows,
        conversation_of_user(user_id),
        conversation_in_listing(user_id, false),
        conversation_in_listing(user_id, true),
    );
}

/// Law: for any conversation, the active and deleted message listings
/// partition that conversation's slice of the message table.
pub proof fn lemma_message_listing_partition(rows: Seq<MessageView>, conversation_id: Seq<char>)
    ensures
        rows.filter(message_in_listing(conversation_id, false)).len() + rows.filter(
            message_in_listing(conversation_id, true),
        ).len() == rows.filter(message_of_conversation(conversation_id)).len(),
        forall|j: int|
            0 <= j < rows.len() && (#[trigger] rows[j]).conversation_id == conversation_id
                ==> rows.filter(message_in_listing(conversation_id, false)).contains(rows[j])
                || rows.filter(message_in_listing(conversation_id, true)).contains(rows[j]),
        forall|m: MessageView|
            !(#[trigger] rows.filter(message_in_listing(conversation_id, false)).contains(m)
                && rows.filter(message_in_listing(conversation_id, true)).contains(m)),
{
    lemma_filter_split(
        rows,
        message_of_conversation(conversation_id),
        message_in_listing(conversation_id, false),
        message_in_listing(conversation_id, true),
    );
}

// ---------------------------------------------------------------------------
// Soft deletion of a conversation
// ---------------------------------------------------------------------------
/// The conversation rows of a user that stay active when conversation `id`
/// is soft-deleted: the user's active rows other than `id` itself.
pub open spec fn conversation_active_except(user_id: Seq<char>, id: Seq<char>) -> spec_fn(
    ConversationView,
) -> bool {
    |c: ConversationView| c.user_id == user_id && c.deleted_at is None && c.id != id
}

/// Marking a conversation deleted removes exactly that conversation from a
/// user's active listing.
proof fn lemma_mark_filter_conversations(
    rows: Seq<ConversationView>,
    id: Seq<char>,
    now: int,
    user_id: Seq<char>,
)
    ensures
        mark_conversation_deleted(rows, id, now).filter(conversation_in_listing(user_id, false))
            == rows.filter(conversation_active_except(user_id, id)),
    decreases rows.len(),
{
    reveal(Seq::filter);
    let marked = mark_conversation_deleted(rows, id, now);
    if rows.len() == 0 {
        assert(marked =~= Seq::<ConversationView>::empty());
        assert(marked.filter(conversation_in_listing(user_id, false)) =~= rows.filter(
            conversation_active_except(user_id, id),
        ));
    } else {
        lemma_mark_filter_conversations(rows.drop_last(), id, now, user_id);
        assert(marked.drop_last() =~= mark_conversation_deleted(rows.drop_last(), id, now));
        assert(marked.last() == mark_conversation_row(rows.last(), id, now));
        assert(marked.filter(conversation_in_listing(user_id, false)) == rows.filter(
            conversation_active_except(user_id, id),
        ));
    }
}

/// Law: soft-deleting a conversation (and then its messages, as the delete
/// route does) removes the conversation from its user's active listing,
/// keeps it fetchable by id with the deletion time stamped, and empties the
/// conversation's active message listing.
pub proof fn lemma_soft_delete_conversation(
    s: StoreView,
    id: Seq<char>,
    now1: int,
    now2: int,
    user_id: Seq<char>,
)
    requires
        find_conversation(s.conversations, id) is Some,
    ensures
        ({
            let convs2 = mark_conversation_deleted(s.conversations, id, now1);
            let msgs2 = mark_messages_deleted(s.messages, id, now2);
            &&& convs2.filter(conversation_in_listing(user_id, false)) == s.conversations.filter(
                conversation_active_except(user_id, id),
            )
            &&& find_conversation(convs2, id) == Some(
                ConversationView {
                    deleted_at: Some(now1),
                    ..find_conversation(s.conversations, id)->Some_0
                },
            )
            &&& msgs2.filter(message_in_listing(id, false)) == Seq::<MessageView>::empty()
        }),
{
    let rows = s.conversations;
    let convs2 = mark_conversation_deleted(rows, id, now1);
    let msgs2 = mark_messages_deleted(s.messages, id, now2);
    lemma_mark_filter_conversations(rows, id, now1, user_id);
    lemma_index_of_first_match(rows, conversation_with_id(id));
    match index_of_first_match(rows, conversation_with_id(id)) {
        Some(i) => {
            assert(convs2[i] == mark_conversation_row(rows[i], id, now1));
            assert forall|j: int| 0 <= j < i implies !conversation_with_id(id)(
                #[trigger] convs2[j],
            ) by {
                assert(convs2[j] == mark_conversation_row(rows[j], id, now1));
            }
            lemma_first_match_at(convs2, conversation_with_id(id), i);
            assert(convs2[i] =~= (ConversationView {
                deleted_at: Some(now1),
                ..find_conversation(rows, id)->Some_0
            }));
        },
        None => {},
    }
    assert forall|j: int| 0 <= j < msgs2.len() implies !message_in_listing(id, false)(
        #[trigger] msgs2[j],
    ) by {
        assert(msgs2[j] == mark_message_row(s.messages[j], id, now2));
    }
    lemma_filter_empty(msgs2, message_in_listing(id, false));
}

// ---------------------------------------------------------------------------
// Schema assertion
// ---------------------------------------------------------------------------
/// Law: asserting the schema twice is the same as asserting it once, and an
/// asserted schema holds exactly three tables and three indexes.
pub proof fn lemma_assert_schema_idempotent(s: StoreView)
    ensures
        with_schema(with_schema(s)) == with_schema(s),
        spec_table_count(with_schema(s)) == 3,
        spec_index_count(with_schema(s)) == 3,
{
    assert(with_schema(with_schema(s)) =~= with_schema(s));
}

} // verus!
