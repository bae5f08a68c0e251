//! A message: a bit of text within a conversation, written either by the
//! user or by the voice.

use vstd::prelude::*;
use vstd::string::StringExecFns;

use crate::fresh::{current_timestamp, generate_uuid};

verus! {

/// The author of a message: a closed two-variant enum with a canonical
/// lowercase textual form used both on the wire and in the stored column.
#[derive(Clone, Copy, PartialEq, Eq, Structural, Debug)]
pub enum Author {
    User,
    Voice,
}

/// The canonical textual form of an author.
pub open spec fn author_text(a: Author) -> Seq<char> {
    match a {
        Author::User => "user"@,
        Author::Voice => "voice"@,
    }
}

impl Author {
    /// Serialize the author into its canonical lowercase text.
    pub fn to_text(&self) -> (r: String)
        ensures
            r@ == author_text(*self),
    {
        match self {
            Author::User => "user".to_owned(),
            Author::Voice => "voice".to_owned(),
        }
    }

    /// Parse an author from its stored or wire text. Any string other than
    /// the two canonical forms is rejected.
    pub fn from_str(s: &str) -> (r: Result<Author, String>)
        ensures
            s@ == author_text(Author::User) ==> r == Ok::<Author, String>(Author::User),
            s@ == author_text(Author::Voice) ==> r == Ok::<Author, String>(Author::Voice),
            s@ != author_text(Author::User) && s@ != author_text(Author::Voice) ==> (r matches Err(
                m,
            ) && m@ == "Invalid author: "@ + s@),
    {
        proof {
            reveal_strlit("user");
            reveal_strlit("voice");
            assert("user"@.len() == 4);
            assert("voice"@.len() == 5);
        }
        if str_eq(s, "user") {
            Ok(Author::User)
        } else if str_eq(s, "voice") {
            Ok(Author::Voice)
        } else {
            let mut m = "Invalid author: ".to_owned();
            m.append(s);
            Err(m)
        }
    }
}

/// Character-for-character comparison of two string slices.
fn str_eq(a: &str, b: &str) -> (r: bool)
    ensures
        r == (a@ == b@),
{
    a.to_owned() == b.to_owned()
}

/// Mathematical image of a message row.
#[verifier::ext_equal]
pub ghost struct MessageView {
    pub id: Seq<char>,
    pub conversation_id: Seq<char>,
    pub author: Author,
    pub content: Seq<char>,
    pub created_at: int,
    pub deleted_at: Option<int>,
}

/// A message is a bit of text as part of the conversation.
#[derive(Debug)]
pub struct Message {
    /// ID of the message
    pub id: String,
    /// ID of the conversation this message is associated with. Reference to
    /// Conversation.id
    pub conversation_id: String,
    /// The author of the message.
    pub author: Author,
    /// The content of the message
    pub content: String,
    /// Unix timestamp of when the message was created
    pub created_at: i64,
    /// Unix timestamp of when the message was deleted
    pub deleted_at: Option<i64>,
}

impl View for Message {
    type V = MessageView;

    open spec fn view(&self) -> MessageView {
        MessageView {
            id: self.id@,
            conversation_id: self.conversation_id@,
            author: self.author,
            content: self.content@,
            created_at: self.created_at as int,
            deleted_at: match self.deleted_at {
                Some(t) => Some(t as int),
                None => None,
            },
        }
    }
}

impl DeepView for Message {
    type V = MessageView;

    open spec fn deep_view(&self) -> MessageView {
        self.view()
    }
}

impl Clone for Message {
    fn clone(&self) -> (r: Self)
        ensures
            r == *self,
    {
        Message {
            id: self.id.clone(),
            conversation_id: self.conversation_id.clone(),
            author: self.author,
            content: self.content.clone(),
            created_at: self.created_at,
            deleted_at: self.deleted_at,
        }
    }
}

impl vstd::std_specs::cmp::PartialEqSpecImpl for Message {
    open spec fn obeys_eq_spec() -> bool {
        true
    }

    open spec fn eq_spec(&self, other: &Message) -> bool {
        &&& self.id@ == other.id@
        &&& self.conversation_id@ == other.conversation_id@
        &&& self.author == other.author
        &&& self.content@ == other.content@
        &&& self.created_at == other.created_at
        &&& self.deleted_at == other.deleted_at
    }
}

impl PartialEq for Message {
    fn eq(&self, other: &Self) -> (r: bool) {
        let same_deleted: bool = match (self.deleted_at, other.deleted_at) {
            (None, None) => true,
            (Some(a), Some(b)) => a == b,
            _ => false,
        };
        let same_author: bool = match (self.author, other.author) {
            (Author::User, Author::User) => true,
            (Author::Voice, Author::Voice) => true,
            _ => false,
        };
        self.id == other.id && self.conversation_id == other.conversation_id && same_author
            && self.content == other.content && self.created_at == other.created_at && same_deleted
    }
}

impl Message {
    /// Create a new Message with a fresh identifier and the current time as
    /// its creation timestamp.
    pub fn new(conversation_id: String, author: Author, content: String) -> (r: Message)
        ensures
            r.id@.len() == 36,
            r.conversation_id@ == conversation_id@,
            r.author == author,
            r.content@ == content@,
            r.deleted_at is None,
    {
        Message {
            id: generate_uuid(),
            conversation_id,
            author,
            content: content,
            created_at: current_timestamp(),
            deleted_at: None,
        }
    }
}

} // verus!
