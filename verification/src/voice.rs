//! A voice: the persona that answers in a conversation.

use vstd::prelude::*;
use vstd::string::StrSliceExecFns;

use crate::fresh::{current_timestamp, generate_uuid};
use crate::rows::{index_of_first_match, lemma_first_match_at, lemma_no_match};

verus! {

/// Mathematical image of a voice row: text fields as character sequences,
/// timestamps as unbounded integers.
#[verifier::ext_equal]
pub ghost struct VoiceView {
    pub id: Seq<char>,
    pub name: Seq<char>,
    pub description: Seq<char>,
    pub prefix: Seq<char>,
    pub created_at: int,
    pub deleted_at: Option<int>,
}

/// A voice is a description of the responder in the conversation.
#[derive(Debug)]
pub struct Voice {
    /// ID of the voice
    pub id: String,
    /// A name for the voice
    pub name: String,
    /// A description of the voice
    pub description: String,
    /// The prompt prefix describing the voice to the language model
    pub prefix: String,
    /// Unix timestamp of when the voice was created
    pub created_at: i64,
    /// Unix timestamp of when the voice was deleted
    pub deleted_at: Option<i64>,
}

impl View for Voice {
    type V = VoiceView;

    open spec fn view(&self) -> VoiceView {
        VoiceView {
            id: self.id@,
            name: self.name@,
            description: self.description@,
            prefix: self.prefix@,
            created_at: self.created_at as int,
            deleted_at: match self.deleted_at {
                Some(t) => Some(t as int),
                None => None,
            },
        }
    }
}

impl DeepView for Voice {
    type V = VoiceView;

    open spec fn deep_view(&self) -> VoiceView {
        self.view()
    }
}

impl Clone for Voice {
    fn clone(&self) -> (r: Self)
        ensures
            r == *self,
    {
        Voice {
            id: self.id.clone(),
            name: self.name.clone(),
            description: self.description.clone(),
            prefix: self.prefix.clone(),
            created_at: self.created_at,
            deleted_at: self.deleted_at,
        }
    }
}

impl vstd::std_specs::cmp::PartialEqSpecImpl for Voice {
    open spec fn obeys_eq_spec() -> bool {
        true
    }

    open spec fn eq_spec(&self, other: &Voice) -> bool {
        &&& self.id@ == other.id@
        &&& self.name@ == other.name@
        &&& self.description@ == other.description@
        &&& self.prefix@ == other.prefix@
        &&& self.created_at == other.created_at
        &&& self.deleted_at == other.deleted_at
    }
}

impl PartialEq for Voice {
    fn eq(&self, other: &Self) -> (r: bool) {
        let same_deleted: bool = match (self.deleted_at, other.deleted_at) {
            (None, None) => true,
            (Some(a), Some(b)) => a == b,
            _ => false,
        };
        self.id == other.id && self.name == other.name && self.description == other.description
            && self.prefix == other.prefix && self.created_at == other.created_at && same_deleted
    }
}

/// The initial standing for a word: its first character, or a space when the
/// word is empty.
pub open spec fn head_initial(word: Seq<char>) -> char {
    if word.len() == 0 {
        ' '
    } else {
        word[0]
    }
}

/// Predicate picking out the space character.
pub open spec fn is_space() -> spec_fn(char) -> bool {
    |c: char| c == ' '
}

/// Initials of a name: the name is split at its first space into at most two
/// words, and each contributes its first character (a space when the word is
/// empty).
pub open spec fn initials_spec(name: Seq<char>) -> Seq<char> {
    match index_of_first_match(name, is_space()) {
        None => seq![head_initial(name)],
        Some(i) => seq![head_initial(name.take(i)), head_initial(name.skip(i + 1))],
    }
}

impl Voice {
    /// Create a new Voice with a fresh identifier and the current time as
    /// its creation timestamp.
    pub fn new(name: String, description: String, prefix: String) -> (r: Voice)
        ensures
            r.id@.len() == 36,
            r.name@ == name@,
            r.description@ == description@,
            r.prefix@ == prefix@,
            r.deleted_at is None,
    {
        Voice {
            id: generate_uuid(),
            name,
            description,
            prefix,
            created_at: current_timestamp(),
            deleted_at: None,
        }
    }

    /// Generate a set of initials from a voice's name, at most two
    /// characters long.
    pub fn initials(voice: &Voice) -> (r: String)
        ensures
            r@ == initials_spec(voice.name@),
    {
        let name: &str = voice.name.as_str();
        let len: usize = name.unicode_len();
        let ghost chars = voice.name@;
        let mut i: usize = 0;
        let mut found: bool = false;
        while i < len && !found
            invariant
                i <= len,
                len == chars.len(),
                name@ == chars,
                forall|j: int| 0 <= j < i ==> chars[j] != ' ',
                found ==> i < len && chars[i as int] == ' ',
            decreases len - i + (if found { 0int } else { 1int }),
        {
            if name.get_char(i) == ' ' {
                found = true;
            } else {
                i = i + 1;
            }
        }
        let mut out = String::new();
        if found {
            proof {
                lemma_first_match_at(chars, is_space(), i as int);
            }
            let c1: char = if i == 0 {
                ' '
            } else {
                name.get_char(0)
            };
            let c2: char = if i + 1 == len {
                ' '
            } else {
                name.get_char(i + 1)
            };
            push_char(&mut out, c1);
            push_char(&mut out, c2);
            proof {
                assert(c1 == head_initial(chars.take(i as int)));
                assert(c2 == head_initial(chars.skip(i as int + 1)));
                assert(out@ =~= initials_spec(chars));
            }
        } else {
            proof {
                lemma_no_match(chars, is_space());
            }
            let c1: char = if len == 0 {
                ' '
            } else {
                name.get_char(0)
            };
            push_char(&mut out, c1);
            proof {
                assert(out@ =~= initials_spec(chars));
            }
        }
        out
    }
}

/// Relies on `String::push`: appends exactly one character.
#[verifier::external_body]
fn push_char(s: &mut String, c: char)
    ensures
        final(s)@ == old(s)@.push(c),
{
    s.push(c);
}

} // verus!
