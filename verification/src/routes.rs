//! The HTTP API layer's decisions, one function per route: validate the
//! request, run the storage operation, choose the status code and wrap the
//! outcome in the uniform envelope. An HTTP binding only extracts plain
//! values from the request and renders the reply.

use vstd::prelude::*;
use vstd::string::StringExecFns;

use crate::conversation::Conversation;
use crate::error::HttpError;
use crate::message::Message;
use crate::response::JsonApiResponse;
use crate::store::{
    conversation_id_exists, conversation_in_listing, find_conversation, find_message, find_voice,
    mark_conversation_deleted, mark_messages_deleted, message_in_listing, upsert_conversation,
    upsert_message, upsert_voice, voice_id_exists, voice_in_listing, Store, StoreView,
};
use crate::voice::Voice;

verus! {

/// The message reported when a PUT's path id does not match its body's id.
pub open spec fn id_mismatch_text(path_id: Seq<char>, object_id: Seq<char>) -> Seq<char> {
    "Path id "@ + path_id + " does not match object id "@ + object_id
}

/// Builds the id-mismatch message for a PUT refused with 400.
fn id_mismatch_message(path_id: &String, object_id: &String) -> (r: String)
    ensures
        r@ == id_mismatch_text(path_id@, object_id@),
{
    let mut m = "Path id ".to_owned();
    m.append(path_id.as_str());
    m.append(" does not match object id ");
    m.append(object_id.as_str());
    m
}

/// The id-match rule shared by every PUT route: the path id must equal the
/// body's id, or the request is refused with 400 and nothing is written.
pub fn check_id_match(path_id: &String, body_id: &String) -> (r: Result<(), HttpError>)
    ensures
        path_id@ == body_id@ ==> r is Ok,
        path_id@ != body_id@ ==> (r matches Err(e) && e.status_code == 400 && e.message@
            == id_mismatch_text(path_id@, body_id@)),
{
    if *path_id == *body_id {
        Ok(())
    } else {
        Err(HttpError::new(400, id_mismatch_message(path_id, body_id)))
    }
}

/// GET /voices: the active voices, wrapped in a success envelope. A storage
/// failure is swallowed into an empty list rather than surfaced.
pub fn voices_find_all(store: &Store) -> (r: (u16, JsonApiResponse<Voice>))
    ensures
        r.0 == 200,
        r.1.data matches Some(d) && d.deep_view() == store@.voices.filter(voice_in_listing(false)),
        r.1.errors is None,
        r.1.message@ == "OK"@,
{
    let voices = match store.get_voices(false) {
        Ok(v) => v,
        Err(_) => Vec::new(),
    };
    (200, JsonApiResponse::success(voices, None))
}

/// GET /voices/{id}: the voice under that id, or 404.
pub fn voices_find_one(store: &Store, voice_id: &String) -> (r: Result<
    (u16, JsonApiResponse<Voice>),
    HttpError,
>)
    ensures
        match r {
            Ok((s, body)) => {
                &&& s == 200
                &&& find_voice(store@.voices, voice_id@) matches Some(v) && body.data matches Some(
                    d,
                ) && d.deep_view() == seq![v]
                &&& body.errors is None
                &&& body.message@ == "OK"@
            },
            Err(e) => {
                &&& find_voice(store@.voices, voice_id@) is None
                &&& e.status_code == 404
                &&& e.message@ == "The record was not found"@
            },
        },
{
    match store.get_voice(voice_id) {
        Ok(v) => {
            let data = vec![v];
            proof {
                assert(data.deep_view() =~= seq![find_voice(store@.voices, voice_id@)->Some_0]);
            }
            Ok((200, JsonApiResponse::success(data, None)))
        },
        Err(e) => Err(HttpError::from_storage(e)),
    }
}

/// POST /voices: save a new voice, reply 201 with the voice echoed back.
pub fn voices_new(store: &mut Store, new_voice: Voice) -> (r: Result<
    (u16, JsonApiResponse<Voice>),
    HttpError,
>)
    requires
        old(store).wf(),
    ensures
        final(store).wf(),
        final(store)@ == (StoreView {
            voices: upsert_voice(old(store)@.voices, new_voice@),
            ..old(store)@
        }),
        r matches Ok((s, body)) && s == 201 && (body.data matches Some(d) && d.deep_view()
            == seq![new_voice@]) && body.errors is None && body.message@ == "OK"@,
{
    match store.save_voice(&new_voice) {
        Ok(_) => {
            let ghost saved = new_voice@;
            let data = vec![new_voice];
            proof {
                assert(data.deep_view() =~= seq![saved]);
            }
            Ok((201, JsonApiResponse::success(data, None)))
        },
        Err(e) => Err(HttpError::from_storage(e)),
    }
}

/// PUT /voices/{id}: save the voice after checking that the path id matches
/// the body's id; a mismatch is refused with 400 and writes nothing.
pub fn voices_save(store: &mut Store, path_id: &String, voice: Voice) -> (r: Result<
    (u16, JsonApiResponse<Voice>),
    HttpError,
>)
    requires
        old(store).wf(),
    ensures
        final(store).wf(),
        path_id@ != voice.id@ ==> final(store)@ == old(store)@ && (r matches Err(e)
            && e.status_code == 400 && e.message@ == id_mismatch_text(path_id@, voice.id@)),
        path_id@ == voice.id@ ==> final(store)@ == (StoreView {
            voices: upsert_voice(old(store)@.voices, voice@),
            ..old(store)@
        }) && (r matches Ok((s, body)) && s == 200 && (body.data matches Some(d) && d.deep_view()
            == seq![voice@]) && body.errors is None && body.message@ == "OK"@),
{
    match check_id_match(path_id, &voice.id) {
        Ok(()) => {},
        Err(e) => {
            return Err(e);
        },
    }
    match store.save_voice(&voice) {
        Ok(_) => {
            let ghost saved = voice@;
            let data = vec![voice];
            proof {
                assert(data.deep_view() =~= seq![saved]);
            }
            Ok((200, JsonApiResponse::success(data, None)))
        },
        Err(e) => Err(HttpError::from_storage(e)),
    }
}

/// GET /conversations?user_id=: the user's active conversations. A storage
/// failure is swallowed into an empty list rather than surfaced.
pub fn conversations_find_all(store: &Store, user_id: &String) -> (r: (
    u16,
    JsonApiResponse<Conversation>,
))
    ensures
        r.0 == 200,
        r.1.data matches Some(d) && d.deep_view() == store@.conversations.filter(
            conversation_in_listing(user_id@, false),
        ),
        r.1.errors is None,
        r.1.message@ == "OK"@,
{
    let conversations = match store.get_conversations(user_id, false) {
        Ok(c) => c,
        Err(_) => Vec::new(),
    };
    (200, JsonApiResponse::success(conversations, None))
}

/// GET /conversations/{id}: the conversation under that id, or 404.
pub fn conversations_find_one(store: &Store, conversation_id: &String) -> (r: Result<
    (u16, JsonApiResponse<Conversation>),
    HttpError,
>)
    ensures
        match r {
            Ok((s, body)) => {
                &&& s == 200
                &&& find_conversation(store@.conversations, conversation_id@) matches Some(c)
                    && body.data matches Some(d) && d.deep_view() == seq![c]
                &&& body.errors is None
                &&& body.message@ == "OK"@
            },
            Err(e) => {
                &&& find_conversation(store@.conversations, conversation_id@) is None
                &&& e.status_code == 404
                &&& e.message@ == "The record was not found"@
            },
        },
{
    match store.get_conversation(conversation_id) {
        Ok(c) => {
            let data = vec![c];
            proof {
                assert(data.deep_view() =~= seq![
                    find_conversation(store@.conversations, conversation_id@)->Some_0,
                ]);
            }
            Ok((200, JsonApiResponse::success(data, None)))
        },
        Err(e) => Err(HttpError::from_storage(e)),
    }
}

/// POST /conversations: save a new conversation, reply 201; a missing voice
/// reference is a constraint violation and replies 409.
pub fn conversations_new(store: &mut Store, new_conversation: Conversation) -> (r: Result<
    (u16, JsonApiResponse<Conversation>),
    HttpError,
>)
    requires
        old(store).wf(),
    ensures
        final(store).wf(),
        voice_id_exists(old(store)@.voices, new_conversation@.voice_id) ==> final(store)@ == (
        StoreView {
            conversations: upsert_conversation(old(store)@.conversations, new_conversation@),
            ..old(store)@
        }) && (r matches Ok((s, body)) && s == 201 && (body.data matches Some(d) && d.deep_view()
            == seq![new_conversation@]) && body.errors is None && body.message@ == "OK"@),
        !voice_id_exists(old(store)@.voices, new_conversation@.voice_id)
            ==> final(store)@ == old(store)@ && (r matches Err(e) && e.status_code == 409 && e.message@
            == "FOREIGN KEY constraint failed"@),
{
    match store.save_conversation(&new_conversation) {
        Ok(_) => {
            let ghost saved = new_conversation@;
            let data = vec![new_conversation];
            proof {
                assert(data.deep_view() =~= seq![saved]);
            }
            Ok((201, JsonApiResponse::success(data, None)))
        },
        Err(e) => Err(HttpError::from_storage(e)),
    }
}

/// PUT /conversations/{id}: save the conversation after the id-match check;
/// a mismatch is refused with 400 and writes nothing.
pub fn conversations_save(store: &mut Store, path_id: &String, conversation: Conversation) -> (r:
    Result<(u16, JsonApiResponse<Conversation>), HttpError>)
    requires
        old(store).wf(),
    ensures
        final(store).wf(),
        path_id@ != conversation.id@ ==> final(store)@ == old(store)@ && (r matches Err(e)
            && e.status_code == 400 && e.message@ == id_mismatch_text(path_id@, conversation.id@)),
        path_id@ == conversation.id@ && voice_id_exists(old(store)@.voices, conversation@.voice_id)
            ==> final(store)@ == (StoreView {
            conversations: upsert_conversation(old(store)@.conversations, conversation@),
            ..old(store)@
        }) && (r matches Ok((s, body)) && s == 200 && (body.data matches Some(d) && d.deep_view()
            == seq![conversation@]) && body.errors is None && body.message@ == "OK"@),
        path_id@ == conversation.id@ && !voice_id_exists(
            old(store)@.voices,
            conversation@.voice_id,
        ) ==> final(store)@ == old(store)@ && (r matches Err(e) && e.status_code == 409
            && e.message@ == "FOREIGN KEY constraint failed"@),
{
    match check_id_match(path_id, &conversation.id) {
        Ok(()) => {},
        Err(e) => {
            return Err(e);
        },
    }
    match store.save_conversation(&conversation) {
        Ok(_) => {
            let ghost saved = conversation@;
            let data = vec![conversation];
            proof {
                assert(data.deep_view() =~= seq![saved]);
            }
            Ok((200, JsonApiResponse::success(data, None)))
        },
        Err(e) => Err(HttpError::from_storage(e)),
    }
}

/// DELETE /conversations/{id}: soft-delete the conversation, then soft-delete
/// its messages. Two independent writes, not a transaction: a reader between
/// them can observe the conversation gone while its messages remain.
pub fn conversations_delete(store: &mut Store, conversation_id: &String) -> (r: Result<
    u16,
    HttpError,
>)
    requires
        old(store).wf(),
    ensures
        final(store).wf(),
        r matches Ok(s) && s == 200,
        exists|now1: int, now2: int|
            final(store)@ == (StoreView {
                conversations: #[trigger] mark_conversation_deleted(
                    old(store)@.conversations,
                    conversation_id@,
                    now1,
                ),
                messages: #[trigger] mark_messages_deleted(
                    old(store)@.messages,
                    conversation_id@,
                    now2,
                ),
                ..old(store)@
            }),
{
    match store.delete_conversation(conversation_id) {
        Ok(_) => {},
        Err(e) => {
            return Err(HttpError::from_storage(e));
        },
    }
    let ghost mid = store@;
    let ghost now1 = choose|t: int|
        mid == (StoreView {
            conversations: #[trigger] mark_conversation_deleted(
                old(store)@.conversations,
                conversation_id@,
                t,
            ),
            ..old(store)@
        });
    match store.delete_messages_by_conversation(conversation_id) {
        Ok(_) => {},
        Err(e) => {
            return Err(HttpError::from_storage(e));
        },
    }
    proof {
        let now2 = choose|t: int|
            store@ == (StoreView {
                messages: #[trigger] mark_messages_deleted(mid.messages, conversation_id@, t),
                ..mid
            });
        assert(store@ == (StoreView {
            conversations: mark_conversation_deleted(
                old(store)@.conversations,
                conversation_id@,
                now1,
            ),
            messages: mark_messages_deleted(old(store)@.messages, conversation_id@, now2),
            ..old(store)@
        }));
    }
    Ok(200)
}

/// GET /messages?conversation_id=: the conversation's active messages. A
/// storage failure is swallowed into an empty list rather than surfaced.
pub fn messages_find_all(store: &Store, conversation_id: &String) -> (r: (
    u16,
    JsonApiResponse<Message>,
))
    ensures
        r.0 == 200,
        r.1.data matches Some(d) && d.deep_view() == store@.messages.filter(
            message_in_listing(conversation_id@, false),
        ),
        r.1.errors is None,
        r.1.message@ == "OK"@,
{
    let messages = match store.get_messages(conversation_id, false) {
        Ok(m) => m,
        Err(_) => Vec::new(),
    };
    (200, JsonApiResponse::success(messages, None))
}

/// GET /messages/{id}: the message under that id, or 404.
pub fn messages_find_one(store: &Store, message_id: &String) -> (r: Result<
    (u16, JsonApiResponse<Message>),
    HttpError,
>)
    ensures
        match r {
            Ok((s, body)) => {
                &&& s == 200
                &&& find_message(store@.messages, message_id@) matches Some(m) && body.data
                    matches Some(d) && d.deep_view() == seq![m]
                &&& body.errors is None
                &&& body.message@ == "OK"@
            },
            Err(e) => {
                &&& find_message(store@.messages, message_id@) is None
                &&& e.status_code == 404
                &&& e.message@ == "The record was not found"@
            },
        },
{
    match store.get_message(message_id) {
        Ok(m) => {
            let data = vec![m];
            proof {
                assert(data.deep_view() =~= seq![find_message(store@.messages, message_id@)->Some_0]);
            }
            Ok((200, JsonApiResponse::success(data, None)))
        },
        Err(e) => Err(HttpError::from_storage(e)),
    }
}

/// POST /messages: save a new message, reply 201; a missing conversation
/// reference is a constraint violation and replies 409.
pub fn messages_new(store: &mut Store, new_message: Message) -> (r: Result<
    (u16, JsonApiResponse<Message>),
    HttpError,
>)
    requires
        old(store).wf(),
    ensures
        final(store).wf(),
        conversation_id_exists(old(store)@.conversations, new_message@.conversation_id)
            ==> final(store)@ == (StoreView {
            messages: upsert_message(old(store)@.messages, new_message@),
            ..old(store)@
        }) && (r matches Ok((s, body)) && s == 201 && (body.data matches Some(d) && d.deep_view()
            == seq![new_message@]) && body.errors is None && body.message@ == "OK"@),
        !conversation_id_exists(old(store)@.conversations, new_message@.conversation_id)
            ==> final(store)@ == old(store)@ && (r matches Err(e) && e.status_code == 409 && e.message@
            == "FOREIGN KEY constraint failed"@),
{
    match store.save_message(&new_message) {
        Ok(_) => {
            let ghost saved = new_message@;
            let data = vec![new_message];
            proof {
                assert(data.deep_view() =~= seq![saved]);
            }
            Ok((201, JsonApiResponse::success(data, None)))
        },
        Err(e) => Err(HttpError::from_storage(e)),
    }
}

/// PUT /messages/{id}: save the message after the id-match check; a mismatch
/// is refused with 400 and writes nothing.
pub fn messages_save(store: &mut Store, path_id: &String, message: Message) -> (r: Result<
    (u16, JsonApiResponse<Message>),
    HttpError,
>)
    requires
        old(store).wf(),
    ensures
        final(store).wf(),
        path_id@ != message.id@ ==> final(store)@ == old(store)@ && (r matches Err(e)
            && e.status_code == 400 && e.message@ == id_mismatch_text(path_id@, message.id@)),
        path_id@ == message.id@ && conversation_id_exists(
            old(store)@.conversations,
            message@.conversation_id,
        ) ==> final(store)@ == (StoreView {
            messages: upsert_message(old(store)@.messages, message@),
            ..old(store)@
        }) && (r matches Ok((s, body)) && s == 200 && (body.data matches Some(d) && d.deep_view()
            == seq![message@]) && body.errors is None && body.message@ == "OK"@),
        path_id@ == message.id@ && !conversation_id_exists(
            old(store)@.conversations,
            message@.conversation_id,
        ) ==> final(store)@ == old(store)@ && (r matches Err(e) && e.status_code == 409
            && e.message@ == "FOREIGN KEY constraint failed"@),
{
    match check_id_match(path_id, &message.id) {
        Ok(()) => {},
        Err(e) => {
            return Err(e);
        },
    }
    match store.save_message(&message) {
        Ok(_) => {
            let ghost saved = message@;
            let data = vec![message];
            proof {
                assert(data.deep_view() =~= seq![saved]);
            }
            Ok((200, JsonApiResponse::success(data, None)))
        },
        Err(e) => Err(HttpError::from_storage(e)),
    }
}

} // verus!
