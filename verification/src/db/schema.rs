//! Record shapes of the chat store, and the constructors of new records.
//!
//! Record identifiers are held as the text of a record id (`table:key`), and
//! instants as seconds and nanoseconds since the Unix epoch.
use vstd::prelude::*;
use crate::clock::unix_time;

verus! {

/// Who wrote a chat or a message.
#[derive(Clone, Copy, Debug, PartialEq, Eq, Structural)]
pub enum AuthorType {
    User,
    Assistant,
    Tool,
    System,
}

/// An instant: whole seconds since the Unix epoch and the nanoseconds past that second.
#[derive(Clone, Copy, Debug, PartialEq, Eq, Structural)]
pub struct Timestamp {
    pub secs: i64,
    pub nanos: u32,
}

/// The text of an optional string.
pub open spec fn opt_text(o: Option<String>) -> Option<Seq<char>> {
    match o {
        Some(s) => Some(s@),
        None => None,
    }
}

/// An author record.
#[derive(Clone, Debug)]
pub struct Author {
    pub id: Option<String>,
    pub kind: AuthorType,
    pub name: String,
}

pub struct AuthorView {
    pub id: Option<Seq<char>>,
    pub kind: AuthorType,
    pub name: Seq<char>,
}

impl View for Author {
    type V = AuthorView;

    open spec fn view(&self) -> AuthorView {
        AuthorView { id: opt_text(self.id), kind: self.kind, name: self.name@ }
    }
}

/// The view of an optional author.
pub open spec fn opt_author(o: Option<Author>) -> Option<AuthorView> {
    match o {
        Some(a) => Some(a@),
        None => None,
    }
}

/// A chat record as stored.
#[derive(Clone, Debug)]
pub struct Chat {
    pub id: Option<String>,
    pub name: String,
    pub author_id: Option<String>,
    pub created_at: Timestamp,
}

pub struct ChatView {
    pub id: Option<Seq<char>>,
    pub name: Seq<char>,
    pub author_id: Option<Seq<char>>,
    pub created_at: Timestamp,
}

impl View for Chat {
    type V = ChatView;

    open spec fn view(&self) -> ChatView {
        ChatView {
            id: opt_text(self.id),
            name: self.name@,
            author_id: opt_text(self.author_id),
            created_at: self.created_at,
        }
    }
}

/// A message record as stored.
#[derive(Clone, Debug)]
pub struct Message {
    pub id: Option<String>,
    pub chat_id: Option<String>,
    pub sequence_number: u64,
    pub text: String,
    pub author_id: Option<String>,
    pub created_at: Timestamp,
}

pub struct MessageView {
    pub id: Option<Seq<char>>,
    pub chat_id: Option<Seq<char>>,
    pub sequence_number: u64,
    pub text: Seq<char>,
    pub author_id: Option<Seq<char>>,
    pub created_at: Timestamp,
}

impl View for Message {
    type V = MessageView;

    open spec fn view(&self) -> MessageView {
        MessageView {
            id: opt_text(self.id),
            chat_id: opt_text(self.chat_id),
            sequence_number: self.sequence_number,
            text: self.text@,
            author_id: opt_text(self.author_id),
            created_at: self.created_at,
        }
    }
}

/// A chat as handed to the user interface.
#[derive(Clone, Debug)]
pub struct ApiChat {
    pub id: String,
    pub name: String,
    pub author: Option<Author>,
    pub created_at: Timestamp,
}

pub struct ApiChatView {
    pub id: Seq<char>,
    pub name: Seq<char>,
    pub author: Option<AuthorView>,
    pub created_at: Timestamp,
}

impl View for ApiChat {
    type V = ApiChatView;

    open spec fn view(&self) -> ApiChatView {
        ApiChatView {
            id: self.id@,
            name: self.name@,
            author: opt_author(self.author),
            created_at: self.created_at,
        }
    }
}

/// A message as handed to the user interface.
#[derive(Clone, Debug)]
pub struct ApiMessage {
    pub id: String,
    pub chat_id: String,
    pub sequence_number: u64,
    pub text: String,
    pub author: Option<Author>,
    pub created_at: Timestamp,
}

pub struct ApiMessageView {
    pub id: Seq<char>,
    pub chat_id: Seq<char>,
    pub sequence_number: u64,
    pub text: Seq<char>,
    pub author: Option<AuthorView>,
    pub created_at: Timestamp,
}

impl View for ApiMessage {
    type V = ApiMessageView;

    open spec fn view(&self) -> ApiMessageView {
        ApiMessageView {
            id: self.id@,
            chat_id: self.chat_id@,
            sequence_number: self.sequence_number,
            text: self.text@,
            author: opt_author(self.author),
            created_at: self.created_at,
        }
    }
}

/// The text that stands for a record id that is missing.
pub open spec fn unknown_id() -> Seq<char> {
    "unknown"@
}

/// The text of an optional record id, `"unknown"` when there is none.
pub open spec fn id_or_unknown(id: Option<Seq<char>>) -> Seq<char> {
    match id {
        Some(t) => t,
        None => unknown_id(),
    }
}

fn text_or_unknown(id: Option<String>) -> (r: String)
    ensures
        r@ == id_or_unknown(opt_text(id)),
{
    match id {
        Some(t) => t,
        None => "unknown".to_owned(),
    }
}

/// A stored chat as the user interface sees it, before its author is looked up.
pub open spec fn api_chat_of(c: ChatView) -> ApiChatView {
    ApiChatView { id: id_or_unknown(c.id), name: c.name, author: None, created_at: c.created_at }
}

/// A stored message as the user interface sees it, before its author is looked up.
pub open spec fn api_message_of(m: MessageView) -> ApiMessageView {
    ApiMessageView {
        id: id_or_unknown(m.id),
        chat_id: id_or_unknown(m.chat_id),
        sequence_number: m.sequence_number,
        text: m.text,
        author: None,
        created_at: m.created_at,
    }
}

impl From<Chat> for ApiChat {
    fn from(c: Chat) -> (r: ApiChat)
        ensures
            r@ == api_chat_of(c@),
    {
        ApiChat { id: text_or_unknown(c.id), name: c.name, author: None, created_at: c.created_at }
    }
}

impl vstd::std_specs::convert::FromSpecImpl<Chat> for ApiChat {
    open spec fn obeys_from_spec() -> bool {
        false
    }

    open spec fn from_spec(v: Chat) -> ApiChat {
        arbitrary()
    }
}

impl From<Message> for ApiMessage {
    fn from(m: Message) -> (r: ApiMessage)
        ensures
            r@ == api_message_of(m@),
    {
        ApiMessage {
            id: text_or_unknown(m.id),
            chat_id: text_or_unknown(m.chat_id),
            sequence_number: m.sequence_number,
            text: m.text,
            author: None,
            created_at: m.created_at,
        }
    }
}

impl vstd::std_specs::convert::FromSpecImpl<Message> for ApiMessage {
    open spec fn obeys_from_spec() -> bool {
        false
    }

    open spec fn from_spec(v: Message) -> ApiMessage {
        arbitrary()
    }
}

/// The name a chat gets: the name given, or `"No Name"` when it is empty.
pub open spec fn chat_name(name: Seq<char>) -> Seq<char> {
    if name.len() == 0 {
        "No Name"@
    } else {
        name
    }
}

/// Law: a chat name is never empty, and validating it again changes nothing.
pub proof fn lemma_chat_name_idempotent(name: Seq<char>)
    ensures
        chat_name(name).len() > 0,
        chat_name(chat_name(name)) == chat_name(name),
{
    reveal_strlit("No Name");
}

/// Takes a name and checks and returns default name if empty.
pub fn validate_chat_name(name: String) -> (result: String)
    ensures
        result@ == chat_name(name@),
{
    if name.as_str().is_empty() {
        "No Name".to_owned()
    } else {
        name
    }
}

/// The instant of a clock reading given as whole seconds since the Unix epoch
/// and nanoseconds past them; `None` when there is no reading or its seconds
/// do not fit `i64`.
pub open spec fn timestamp_of_reading(reading: Option<(u64, u32)>) -> Option<Timestamp> {
    match reading {
        Some(p) => if p.0 <= i64::MAX {
            Some(Timestamp { secs: p.0 as i64, nanos: p.1 })
        } else {
            None
        },
        None => None,
    }
}

/// The instant of a clock reading (seconds since the Unix epoch, nanoseconds
/// past them); `None` when there is no reading or its seconds do not fit `i64`.
pub fn timestamp_from_reading(reading: Option<(u64, u32)>) -> (r: Option<Timestamp>)
    ensures
        r == timestamp_of_reading(reading),
{
    match reading {
        Some(p) => {
            if p.0 <= i64::MAX as u64 {
                Some(Timestamp { secs: p.0 as i64, nanos: p.1 })
            } else {
                None
            }
        },
        None => None,
    }
}

/// The current instant: whole seconds since the Unix epoch and the
/// nanoseconds past them, read from the system clock; `None` when the clock is
/// set before the epoch (or so far after it that the seconds do not fit `i64`).
pub fn get_current_timestamp() -> (r: Option<Timestamp>)
    ensures
        exists|reading: Option<(u64, u32)>|
            {
                &&& (reading matches Some(p) ==> p.1 < 1_000_000_000)
                &&& r == timestamp_of_reading(reading)
            },
        r matches Some(t) ==> 0 <= t.secs && t.nanos < 1_000_000_000,
{
    let reading = unix_time();
    timestamp_from_reading(reading.value())
}

/// Create a new chat record, without an id: the store gives it one. `None`
/// when the clock cannot be read for its creation time.
pub fn create_chat_data(name: String, author_id: Option<String>) -> (r: Option<Chat>)
    ensures
        r matches Some(c) ==> {
            &&& c@.id is None
            &&& c@.name == chat_name(name@)
            &&& c@.author_id == opt_text(author_id)
        },
{
    let name = validate_chat_name(name);
    match get_current_timestamp() {
        Some(created_at) => Some(Chat { id: None, name, author_id, created_at }),
        None => None,
    }
}

/// Create a new message record, without an id: the store gives it one. `None`
/// when the clock cannot be read for its creation time.
pub fn create_message_data(
    chat_id: Option<String>,
    text: String,
    author_id: Option<String>,
    sequence_number: u64,
) -> (r: Option<Message>)
    ensures
        r matches Some(m) ==> {
            &&& m@.id is None
            &&& m@.chat_id == opt_text(chat_id)
            &&& m@.sequence_number == sequence_number
            &&& m@.text == text@
            &&& m@.author_id == opt_text(author_id)
        },
{
    match get_current_timestamp() {
        Some(created_at) => Some(
            Message { id: None, chat_id, sequence_number, text, author_id, created_at },
        ),
        None => None,
    }
}

} // verus!
