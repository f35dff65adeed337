//! Logic around the chat store's database calls: record keys, rows read back
//! from queries, author names, and the outcome of each call.
use vstd::prelude::*;
use crate::db::schema::{
    ApiChat, ApiChatView, ApiMessage, ApiMessageView, Author, AuthorType, AuthorView, Chat, Message,
    ChatView, MessageView, Timestamp,
    chat_name, opt_author, timestamp_from_reading, timestamp_of_reading, validate_chat_name,
};
use crate::clock::{ClockReading, clock_error, unix_time};
use crate::ids::{is_lower_hex, new_uuid_string};
use crate::json::{JsonValue, get_spec, str_at, str_at2, u64_spec};
use crate::text::{concat, first_pos, has_char, lemma_first_pos, position_of, substring};

verus! {

/// The namespace of the chat store.
pub const NAMESPACE: &'static str = "chat_app";

/// The database of the chat store.
pub const DATABASE: &'static str = "chat_db";

/// Where the chat store keeps its files.
pub const DB_PATH: &'static str = "chat_data";

/// The tables of the chat store, their fields, and the index of messages by chat.
pub const SCHEMA: &'static str = "
        DEFINE TABLE author SCHEMAFULL;
        DEFINE FIELD kind ON author TYPE string;
        DEFINE FIELD name ON author TYPE string;

        DEFINE TABLE chat SCHEMAFULL;
        DEFINE FIELD name ON chat TYPE string;
        DEFINE FIELD author ON chat TYPE record<author>;
        DEFINE FIELD created_at ON chat TYPE datetime;

        DEFINE TABLE message SCHEMAFULL;
        DEFINE FIELD chat ON message TYPE record<chat>;
        DEFINE FIELD sequence_number ON message TYPE number;
        DEFINE FIELD text ON message TYPE string;
        DEFINE FIELD author ON message TYPE record<author>;
        DEFINE FIELD created_at ON message TYPE datetime;

        DEFINE INDEX chat_idx ON TABLE message FIELDS chat;
    ";

/// The query whose success shows that the connection works.
pub const HEALTH_QUERY: &'static str = "SELECT 1 FROM tb";

/// The query for all chats with their authors.
pub const CHATS_QUERY: &'static str = "SELECT *, author.* FROM chat";

/// The query for the messages of a chat (`$id`) with their authors, in order.
pub const CHAT_MESSAGES_QUERY: &'static str =
    "SELECT *, author.* FROM message WHERE chat = $id ORDER BY sequence_number";

/// The query for the messages of a chat (`$id`).
pub const COUNT_MESSAGES_QUERY: &'static str = "SELECT * FROM message WHERE chat = $id";

/// The query that deletes the messages of a chat (`$id`, its record id).
pub const DELETE_MESSAGES_QUERY: &'static str = "DELETE message WHERE chat = $id";

// ---------------------------------------------------------------- record keys

/// The record key of a chat: the id itself when it already names a table
/// (`table:key`), else the id in the `chat` table.
pub open spec fn record_key(chat_id: Seq<char>) -> Seq<char> {
    if has_char(chat_id, ':') {
        chat_id
    } else {
        "chat:"@ + chat_id
    }
}

/// The record key of a chat, as `add_message` and `query_messages` build it.
pub fn chat_record_key(chat_id: &str) -> (key: String)
    ensures
        key@ == record_key(chat_id@),
{
    let p = position_of(chat_id, ':');
    if p < chat_id.unicode_len() {
        chat_id.to_owned()
    } else {
        concat("chat:", chat_id)
    }
}

/// The table and the key that `update_chat` and `delete_chat` address: the text
/// before the first `:` and the text between it and the next `:` (or the end);
/// the `chat` table and the whole id when there is no `:`.
pub open spec fn table_and_key(chat_id: Seq<char>) -> (Seq<char>, Seq<char>) {
    let p = first_pos(chat_id, ':');
    if p < chat_id.len() {
        let rest = chat_id.skip(p + 1 as int);
        (chat_id.take(p as int), rest.take(first_pos(rest, ':') as int))
    } else {
        ("chat"@, chat_id)
    }
}

/// Splits a chat id of the form `table:key` (or a bare key) into table and key.
pub fn split_chat_id(chat_id: &str) -> (parts: (String, String))
    ensures
        (parts.0@, parts.1@) == table_and_key(chat_id@),
{
    let n = chat_id.unicode_len();
    let p = position_of(chat_id, ':');
    proof {
        lemma_first_pos(chat_id@, ':');
    }
    if p < n {
        let table = substring(chat_id, 0, p);
        let rest = chat_id.substring_char(p + 1, n);
        let q = position_of(rest, ':');
        proof {
            lemma_first_pos(rest@, ':');
            assert(rest@ == chat_id@.skip(p + 1));
        }
        let key = substring(rest, 0, q);
        proof {
            assert(table@ == chat_id@.take(p as int));
            assert(key@ == rest@.take(q as int));
        }
        (table, key)
    } else {
        ("chat".to_owned(), chat_id.to_owned())
    }
}

/// Splitting the record key of an id that holds no `:` gives back the `chat`
/// table and that id; so `update_chat` and `delete_chat` address the record
/// that `add_message` and `query_messages` address.
pub proof fn lemma_split_of_record_key(chat_id: Seq<char>)
    requires
        !has_char(chat_id, ':'),
    ensures
        table_and_key(record_key(chat_id)) == ("chat"@, chat_id),
{
    reveal_strlit("chat:");
    reveal_strlit("chat");
    lemma_first_pos(chat_id, ':');
    let k = record_key(chat_id);
    assert(k == "chat:"@ + chat_id);
    assert forall|j: int| 0 <= j < 4 implies k[j] != ':' by {}
    crate::text::lemma_first_pos_unique(k, ':', 4);
    let rest = k.skip(5);
    assert(rest =~= chat_id);
    assert(k.take(4) =~= "chat"@);
    assert(rest.take(first_pos(rest, ':') as int) =~= chat_id);
}

/// Law: an id without `:` and the same id behind `chat:` have one record key,
/// so `add_message` and `query_messages` reach the same chat record for both.
pub proof fn lemma_record_key_prefix(chat_id: Seq<char>)
    requires
        !has_char(chat_id, ':'),
    ensures
        record_key(chat_id) == record_key("chat:"@ + chat_id),
        record_key(chat_id) == "chat:"@ + chat_id,
{
    reveal_strlit("chat:");
    let k = "chat:"@ + chat_id;
    assert forall|j: int| 0 <= j < 4 implies k[j] != ':' by {}
    assert(k[4] == ':');
    crate::text::lemma_first_pos_unique(k, ':', 4);
}

/// A record key of the form `table:key`, with one `:`, splits back into its two parts.
pub proof fn lemma_split_of_qualified_id(table: Seq<char>, key: Seq<char>)
    requires
        !has_char(table, ':'),
        !has_char(key, ':'),
    ensures
        table_and_key(record_key(table + seq![':'] + key)) == (table, key),
{
    let s = table + seq![':'] + key;
    lemma_first_pos(table, ':');
    lemma_first_pos(key, ':');
    assert forall|j: int| 0 <= j < table.len() implies s[j] != ':' by {
        assert(s[j] == table[j]);
    }
    assert(s[table.len() as int] == ':');
    crate::text::lemma_first_pos_unique(s, ':', table.len() as int);
    assert(has_char(s, ':'));
    assert(s.take(table.len() as int) =~= table);
    assert(s.skip(table.len() + 1 as int) =~= key);
}

// ---------------------------------------------------------------- author names

/// The name of an author created along with a chat: `User-` and the text of
/// `id` up to its first `-`.
pub open spec fn author_name_of(id: Seq<char>) -> Seq<char> {
    "User-"@ + id.take(first_pos(id, '-') as int)
}

/// The name of an author created along with a chat, from the text of an id.
pub fn author_name_from_id(id: &str) -> (name: String)
    ensures
        name@ == author_name_of(id@),
{
    let p = position_of(id, '-');
    proof {
        lemma_first_pos(id@, '-');
    }
    let head = substring(id, 0, p);
    concat("User-", head.as_str())
}

/// A fresh name for the user author of a new chat: `User-` followed by the
/// first group of a random UUID, eight lower-case hexadecimal digits.
pub fn new_author_name() -> (name: String)
    ensures
        name@.len() == 13,
        name@.take(5) == "User-"@,
        forall|i: int| 5 <= i < 13 ==> is_lower_hex(#[trigger] name@[i]),
{
    let id = new_uuid_string().into_string();
    proof {
        reveal_strlit("User-");
        let s = id@;
        assert forall|j: int| 0 <= j < 8 implies s[j] != '-' by {
            assert(is_lower_hex(s[j]));
        }
        assert(s[8] == '-');
        crate::text::lemma_first_pos_unique(s, '-', 8);
    }
    let name = author_name_from_id(id.as_str());
    proof {
        let s = id@;
        assert forall|i: int| 5 <= i < 13 implies is_lower_hex(#[trigger] name@[i]) by {
            assert(name@[i] == s[i - 5]);
            assert(0 <= i - 5 < 8);
            assert(!crate::ids::is_uuid_hyphen_pos(i - 5));
        }
        assert(name@.take(5) =~= "User-"@);
    }
    name
}

/// A user author without an id, as created along with a chat or a message.
pub fn new_user_author(name: String) -> (a: Author)
    ensures
        a@ == (AuthorView { id: None, kind: AuthorType::User, name: name@ }),
{
    Author { id: None, kind: AuthorType::User, name }
}

// ---------------------------------------------------------------- query rows

/// The author kind that a stored kind text names.
pub open spec fn author_kind_of(kind: Seq<char>) -> Option<AuthorType> {
    if kind == "User"@ {
        Some(AuthorType::User)
    } else if kind == "Assistant"@ {
        Some(AuthorType::Assistant)
    } else if kind == "Tool"@ {
        Some(AuthorType::Tool)
    } else if kind == "System"@ {
        Some(AuthorType::System)
    } else {
        None
    }
}

/// Reads an author kind from its stored text.
pub fn parse_author_kind(kind: &str) -> (r: Option<AuthorType>)
    ensures
        r == author_kind_of(kind@),
{
    let k = kind.to_owned();
    if k == "User".to_owned() {
        Some(AuthorType::User)
    } else if k == "Assistant".to_owned() {
        Some(AuthorType::Assistant)
    } else if k == "Tool".to_owned() {
        Some(AuthorType::Tool)
    } else if k == "System".to_owned() {
        Some(AuthorType::System)
    } else {
        None
    }
}

/// The instant that `chrono::DateTime::parse_from_rfc3339` reads from a text,
/// as seconds since the Unix epoch and nanoseconds past that second; `None`
/// when the text is not RFC 3339.
pub uninterp spec fn rfc3339_instant(text: Seq<char>) -> Option<(i64, u32)>;

/// Calls `chrono::DateTime::parse_from_rfc3339`, and reads the instant it gives
/// (moved to UTC, as the rows are read) as seconds since the Unix epoch and
/// nanoseconds past that second. The contract names the result only: the parser
/// depends on its argument alone.
#[verifier::external_body]
fn parse_rfc3339(text: &str) -> (r: Option<(i64, u32)>)
    ensures
        r == rfc3339_instant(text@),
{
    match chrono::DateTime::parse_from_rfc3339(text) {
        Ok(dt) => {
            let utc = dt.with_timezone(&chrono::Utc);
            Some((utc.timestamp(), utc.timestamp_subsec_nanos()))
        },
        Err(_) => None,
    }
}

/// The instant read from the `created_at` text of a row.
pub open spec fn created_at_of(row: JsonValue) -> Option<Timestamp> {
    match str_at(row, "created_at"@) {
        Some(t) => match rfc3339_instant(t) {
            Some(p) => Some(Timestamp { secs: p.0, nanos: p.1 }),
            None => None,
        },
        None => None,
    }
}

/// The author that a row holds under `author`: its kind must name an author
/// kind and its name must be text.
pub open spec fn author_of_row(row: JsonValue) -> Option<AuthorView> {
    match get_spec(row, "author"@) {
        Some(a) => match str_at(a, "kind"@) {
            Some(k) => match author_kind_of(k) {
                Some(kind) => match str_at(a, "name"@) {
                    Some(name) => Some(AuthorView { id: None, kind, name }),
                    None => None,
                },
                None => None,
            },
            None => None,
        },
        None => None,
    }
}

/// The chat that a row of `SELECT *, author.* FROM chat` stands for; `None`
/// when a field is missing or malformed.
pub open spec fn chat_of_row(row: JsonValue) -> Option<ApiChatView> {
    let id = str_at2(row, "id"@, "id"@);
    let author = author_of_row(row);
    let created_at = created_at_of(row);
    let name = str_at(row, "name"@);
    if id is Some && author is Some && created_at is Some && name is Some {
        Some(
            ApiChatView {
                id: id->0,
                name: name->0,
                author: Some(author->0),
                created_at: created_at->0,
            },
        )
    } else {
        None
    }
}

/// The message that a row of `SELECT *, author.* FROM message ...` stands for;
/// `None` when a field is missing or malformed.
pub open spec fn message_of_row(row: JsonValue) -> Option<ApiMessageView> {
    let id = str_at2(row, "id"@, "id"@);
    let author = author_of_row(row);
    let created_at = created_at_of(row);
    let chat_id = str_at2(row, "chat"@, "id"@);
    let seq_no = match get_spec(row, "sequence_number"@) {
        Some(v) => u64_spec(v),
        None => None,
    };
    let text = str_at(row, "text"@);
    if id is Some && author is Some && created_at is Some && chat_id is Some && seq_no is Some
        && text is Some {
        Some(
            ApiMessageView {
                id: id->0,
                chat_id: chat_id->0,
                sequence_number: seq_no->0,
                text: text->0,
                author: Some(author->0),
                created_at: created_at->0,
            },
        )
    } else {
        None
    }
}

/// What a row gives its author: the author of a row is read from the value
/// under `author`, its kind from the text under `kind` there, its name from
/// the text under `name` there, and it carries no record id.
pub open spec fn author_read_from(row: JsonValue, author: AuthorView) -> bool {
    exists|a: JsonValue, kind_text: Seq<char>|
        {
            &&& get_spec(row, "author"@) == Some(a)
            &&& str_at(a, "kind"@) == Some(kind_text)
            &&& author_kind_of(kind_text) == Some(author.kind)
            &&& str_at(a, "name"@) == Some(author.name)
            &&& author.id is None
        }
}

/// Law: the message read from a row takes each field from its own entry of
/// the row: the key from `id.id`, the chat from `chat.id`, the number from
/// `sequence_number`, the text from `text`, the author's name from
/// `author.name` and kind from `author.kind`, and the time from the RFC 3339
/// text under `created_at`.
pub proof fn lemma_message_of_row_fields(row: JsonValue)
    ensures
        message_of_row(row) matches Some(m) ==> {
            &&& str_at2(row, "id"@, "id"@) == Some(m.id)
            &&& str_at2(row, "chat"@, "id"@) == Some(m.chat_id)
            &&& get_spec(row, "sequence_number"@) matches Some(n) && u64_spec(n) == Some(
                m.sequence_number,
            )
            &&& str_at(row, "text"@) == Some(m.text)
            &&& m.author matches Some(au) && author_read_from(row, au)
            &&& str_at(row, "created_at"@) matches Some(t) && rfc3339_instant(t) == Some(
                (m.created_at.secs, m.created_at.nanos),
            )
        },
{
    if let Some(m) = message_of_row(row) {
        let a = get_spec(row, "author"@)->0;
        let k = str_at(a, "kind"@)->0;
        assert(get_spec(row, "author"@) == Some(a));
        assert(str_at(a, "kind"@) == Some(k));
        assert(author_read_from(row, m.author->0));
    }
}

/// Law: the chat read from a row takes each field from its own entry of the
/// row: the key from `id.id`, the name from `name`, the author's name from
/// `author.name` and kind from `author.kind`, and the time from the RFC 3339
/// text under `created_at`.
pub proof fn lemma_chat_of_row_fields(row: JsonValue)
    ensures
        chat_of_row(row) matches Some(c) ==> {
            &&& str_at2(row, "id"@, "id"@) == Some(c.id)
            &&& str_at(row, "name"@) == Some(c.name)
            &&& c.author matches Some(au) && author_read_from(row, au)
            &&& str_at(row, "created_at"@) matches Some(t) && rfc3339_instant(t) == Some(
                (c.created_at.secs, c.created_at.nanos),
            )
        },
{
    if let Some(c) = chat_of_row(row) {
        let a = get_spec(row, "author"@)->0;
        let k = str_at(a, "kind"@)->0;
        assert(get_spec(row, "author"@) == Some(a));
        assert(str_at(a, "kind"@) == Some(k));
        assert(author_read_from(row, c.author->0));
    }
}

/// Law: a row whose entries are all present and well formed is read, not
/// skipped: it gives a message exactly when its key, chat, number, text,
/// author and time can be read.
pub proof fn lemma_message_row_read_when_well_formed(
    row: JsonValue,
    id: Seq<char>,
    chat: Seq<char>,
    n: JsonValue,
    text: Seq<char>,
    a: JsonValue,
    kind_text: Seq<char>,
    name: Seq<char>,
    time: Seq<char>,
)
    requires
        str_at2(row, "id"@, "id"@) == Some(id),
        str_at2(row, "chat"@, "id"@) == Some(chat),
        get_spec(row, "sequence_number"@) == Some(n),
        u64_spec(n) is Some,
        str_at(row, "text"@) == Some(text),
        get_spec(row, "author"@) == Some(a),
        str_at(a, "kind"@) == Some(kind_text),
        author_kind_of(kind_text) is Some,
        str_at(a, "name"@) == Some(name),
        str_at(row, "created_at"@) == Some(time),
        rfc3339_instant(time) is Some,
    ensures
        message_of_row(row) is Some,
        message_of_row(row)->0.id == id,
        message_of_row(row)->0.chat_id == chat,
        message_of_row(row)->0.text == text,
        message_of_row(row)->0.author == Some(
            AuthorView { id: None, kind: author_kind_of(kind_text)->0, name },
        ),
{
}

fn str_field(v: &JsonValue, key: &str) -> (r: Option<String>)
    ensures
        match r {
            Some(s) => str_at(*v, key@) == Some(s@),
            None => str_at(*v, key@) is None,
        },
{
    match v.get(key) {
        Some(x) => match x.as_str() {
            Some(s) => Some(s.to_owned()),
            None => None,
        },
        None => None,
    }
}

fn str_field2(v: &JsonValue, outer: &str, inner: &str) -> (r: Option<String>)
    ensures
        match r {
            Some(s) => str_at2(*v, outer@, inner@) == Some(s@),
            None => str_at2(*v, outer@, inner@) is None,
        },
{
    match v.get(outer) {
        Some(x) => str_field(x, inner),
        None => None,
    }
}

fn author_from_row(row: &JsonValue) -> (r: Option<Author>)
    ensures
        opt_author(r) == author_of_row(*row),
{
    let a = row.get("author")?;
    let kind_text = str_field(a, "kind")?;
    let kind = parse_author_kind(kind_text.as_str())?;
    let name = str_field(a, "name")?;
    Some(Author { id: None, kind, name })
}

fn created_at_from_row(row: &JsonValue) -> (r: Option<Timestamp>)
    ensures
        r == created_at_of(*row),
{
    let text = str_field(row, "created_at")?;
    let (secs, nanos) = parse_rfc3339(text.as_str())?;
    Some(Timestamp { secs, nanos })
}

/// Reads a chat from a row of `SELECT *, author.* FROM chat`.
pub fn api_chat_from_row(row: &JsonValue) -> (r: Option<ApiChat>)
    ensures
        match r {
            Some(c) => chat_of_row(*row) == Some(c@),
            None => chat_of_row(*row) is None,
        },
{
    let id = str_field2(row, "id", "id")?;
    let author = author_from_row(row)?;
    let created_at = created_at_from_row(row)?;
    let name = str_field(row, "name")?;
    Some(ApiChat { id, name, author: Some(author), created_at })
}

/// Reads a message from a row of `SELECT *, author.* FROM message ...`.
pub fn api_message_from_row(row: &JsonValue) -> (r: Option<ApiMessage>)
    ensures
        match r {
            Some(m) => message_of_row(*row) == Some(m@),
            None => message_of_row(*row) is None,
        },
{
    let id = str_field2(row, "id", "id")?;
    let author = author_from_row(row)?;
    let created_at = created_at_from_row(row)?;
    let chat_id = str_field2(row, "chat", "id")?;
    let sequence_number = row.get("sequence_number")?.as_u64()?;
    let text = str_field(row, "text")?;
    Some(ApiMessage { id, chat_id, sequence_number, text, author: Some(author), created_at })
}


// ---------------------------------------------------------------- lists of rows

/// The chats that a list of rows stands for, in order, skipping malformed rows.
pub open spec fn chats_of_rows(rows: Seq<JsonValue>) -> Seq<ApiChatView>
    decreases rows.len(),
{
    if rows.len() == 0 {
        seq![]
    } else {
        let before = chats_of_rows(rows.drop_last());
        match chat_of_row(rows.last()) {
            Some(c) => before.push(c),
            None => before,
        }
    }
}

/// The messages that a list of rows stands for, in order, skipping malformed rows.
pub open spec fn messages_of_rows(rows: Seq<JsonValue>) -> Seq<ApiMessageView>
    decreases rows.len(),
{
    if rows.len() == 0 {
        seq![]
    } else {
        let before = messages_of_rows(rows.drop_last());
        match message_of_row(rows.last()) {
            Some(m) => before.push(m),
            None => before,
        }
    }
}

/// The views of a list of chats.
pub open spec fn chat_views(chats: Seq<ApiChat>) -> Seq<ApiChatView> {
    chats.map_values(|c: ApiChat| c@)
}

/// The views of a list of messages.
pub open spec fn message_views(msgs: Seq<ApiMessage>) -> Seq<ApiMessageView> {
    msgs.map_values(|m: ApiMessage| m@)
}

/// Reads the chats of the rows of `SELECT *, author.* FROM chat`, skipping the
/// rows that lack a field or hold a malformed one.
pub fn api_chats_from_rows(rows: &Vec<JsonValue>) -> (chats: Vec<ApiChat>)
    ensures
        chat_views(chats@) == chats_of_rows(rows@),
{
    let mut out: Vec<ApiChat> = Vec::new();
    let mut i: usize = 0;
    while i < rows.len()
        invariant
            i <= rows@.len(),
            chat_views(out@) == chats_of_rows(rows@.take(i as int)),
        decreases rows@.len() - i,
    {
        let parsed = api_chat_from_row(&rows[i]);
        proof {
            assert(rows@.take(i + 1 as int).drop_last() =~= rows@.take(i as int));
            assert(rows@.take(i + 1 as int).last() == rows@[i as int]);
        }
        match parsed {
            Some(c) => {
                out.push(c);
                proof {
                    assert(chat_views(out@) =~= chats_of_rows(rows@.take(i as int)).push(c@));
                }
            },
            None => {},
        }
        i = i + 1;
    }
    proof {
        assert(rows@.take(rows@.len() as int) =~= rows@);
    }
    out
}

/// Reads the messages of the rows of `SELECT *, author.* FROM message ...`,
/// skipping the rows that lack a field or hold a malformed one.
pub fn api_messages_from_rows(rows: &Vec<JsonValue>) -> (msgs: Vec<ApiMessage>)
    ensures
        message_views(msgs@) == messages_of_rows(rows@),
{
    let mut out: Vec<ApiMessage> = Vec::new();
    let mut i: usize = 0;
    while i < rows.len()
        invariant
            i <= rows@.len(),
            message_views(out@) == messages_of_rows(rows@.take(i as int)),
        decreases rows@.len() - i,
    {
        let parsed = api_message_from_row(&rows[i]);
        proof {
            assert(rows@.take(i + 1 as int).drop_last() =~= rows@.take(i as int));
            assert(rows@.take(i + 1 as int).last() == rows@[i as int]);
        }
        match parsed {
            Some(m) => {
                out.push(m);
                proof {
                    assert(message_views(out@) =~= messages_of_rows(rows@.take(i as int)).push(
                        m@,
                    ));
                }
            },
            None => {},
        }
        i = i + 1;
    }
    proof {
        assert(rows@.take(rows@.len() as int) =~= rows@);
    }
    out
}


// ---------------------------------------------------------------- database flows
/// A call that a flow asks its caller to make on the database, or the end of the flow.
pub enum DbStep {
    /// Get the database connection (`get_db`).
    Connect,
    /// Parse this text as a record id.
    ParseRecordId(String),
    /// Select the chat record with this key.
    SelectChat(String),
    /// Select the messages of the chat with this key.
    QueryMessages(String),
    /// Create this author record.
    CreateAuthor(Author),
    /// Create this chat record.
    CreateChat(Chat),
    /// Create this message record.
    CreateMessage(Message),
    /// The flow is over, with this outcome.
    Finish(Result<String, String>),
}

/// What a call on the database gave back; errors are carried as their text.
pub enum DbEvent {
    /// The outcome of `Connect`.
    Connected(Result<(), String>),
    /// The outcome of `ParseRecordId`.
    RecordParsed(Result<(), String>),
    /// The outcome of `SelectChat`: whether the chat exists.
    ChatSelected(Result<bool, String>),
    /// The outcome of `QueryMessages`: the query failed (outer error), the rows
    /// could not be read (inner error), or the number of messages.
    MessagesQueried(Result<Result<usize, String>, String>),
    /// The outcome of a `Create...` call: no record came back (`None`), or the
    /// record came back with its id (or without one).
    Created(Result<Option<Option<String>>, String>),
}

pub enum DbStepView {
    Connect,
    ParseRecordId(Seq<char>),
    SelectChat(Seq<char>),
    QueryMessages(Seq<char>),
    CreateAuthor(AuthorView),
    CreateChat(crate::db::schema::ChatView),
    CreateMessage(crate::db::schema::MessageView),
    Finish(Result<Seq<char>, Seq<char>>),
}

/// The text of a result of strings.
pub open spec fn result_text(r: Result<String, String>) -> Result<Seq<char>, Seq<char>> {
    match r {
        Ok(s) => Ok(s@),
        Err(e) => Err(e@),
    }
}

impl View for DbStep {
    type V = DbStepView;

    open spec fn view(&self) -> DbStepView {
        match self {
            DbStep::Connect => DbStepView::Connect,
            DbStep::ParseRecordId(s) => DbStepView::ParseRecordId(s@),
            DbStep::SelectChat(s) => DbStepView::SelectChat(s@),
            DbStep::QueryMessages(s) => DbStepView::QueryMessages(s@),
            DbStep::CreateAuthor(a) => DbStepView::CreateAuthor(a@),
            DbStep::CreateChat(c) => DbStepView::CreateChat(c@),
            DbStep::CreateMessage(m) => DbStepView::CreateMessage(m@),
            DbStep::Finish(r) => DbStepView::Finish(result_text(*r)),
        }
    }
}

/// The step that ends a flow with an error made of `prefix` and `detail`.
pub open spec fn fail_with(prefix: Seq<char>, detail: Seq<char>) -> DbStepView {
    DbStepView::Finish(Err(prefix + detail))
}

fn fail(prefix: &str, detail: &str) -> (s: DbStep)
    ensures
        s@ == fail_with(prefix@, detail@),
{
    DbStep::Finish(Err(concat(prefix, detail)))
}

/// The outcome of creating an author: its id, or the error when no record came back.
pub open spec fn author_id_outcome(created: Option<Option<String>>) -> Result<
    Option<Seq<char>>,
    Seq<char>,
> {
    match created {
        Some(id) => Ok(crate::db::schema::opt_text(id)),
        None => Err("Failed to create author record"@),
    }
}

/// The outcome of creating a record whose id is returned: the text of its id
/// (`"unknown"` when it has none), or `missing` when no record came back.
pub open spec fn record_id_outcome(created: Option<Option<String>>, missing: Seq<char>) -> Result<
    Seq<char>,
    Seq<char>,
> {
    match created {
        Some(id) => Ok(crate::db::schema::id_or_unknown(crate::db::schema::opt_text(id))),
        None => Err(missing),
    }
}

fn record_id_or(created: Option<Option<String>>, missing: &str) -> (r: Result<String, String>)
    ensures
        result_text(r) == record_id_outcome(created, missing@),
{
    match created {
        Some(Some(id)) => Ok(id),
        Some(None) => Ok("unknown".to_owned()),
        None => Err(missing.to_owned()),
    }
}

// ---------------------------------------------------------------- create_chat

#[derive(Clone, Copy, Debug, PartialEq, Eq, Structural)]
pub enum CreateChatPhase {
    Connecting,
    CreatingAuthor,
    CreatingChat,
    Finished,
}

/// The flow of `create_chat`: connect, create a user author with a fresh name,
/// create the chat that refers to it, and hand back the chat's id.
pub struct CreateChat {
    pub phase: CreateChatPhase,
    pub name: String,
    /// The readings of the clock this flow has taken, in order.
    pub clock_readings: Ghost<Seq<ClockReading>>,
}

/// What follows the creation of a new chat's author, given the clock reading
/// taken then: the clock error when the reading gives no instant; else the
/// chat to create, with no id, named after `name`, pointing at the author, and
/// created at that instant.
pub open spec fn chat_step_after_author(
    name: Seq<char>,
    author_id: Option<Seq<char>>,
    reading: Option<(u64, u32)>,
) -> DbStepView {
    match timestamp_of_reading(reading) {
        None => DbStepView::Finish(Err(clock_error())),
        Some(t) => DbStepView::CreateChat(
            ChatView { id: None, name: chat_name(name), author_id, created_at: t },
        ),
    }
}

/// Once the author of a new chat exists, the flow ends with the clock error
/// exactly when the clock could not be read (or read a second past what an
/// instant holds); the name of the chat plays no part.
pub proof fn lemma_chat_clock_error_only_when_unreadable(
    name: Seq<char>,
    author_id: Option<Seq<char>>,
    reading: Option<(u64, u32)>,
)
    ensures
        (chat_step_after_author(name, author_id, reading) == DbStepView::Finish(
            Err(clock_error()),
        )) <==> (reading is None || reading.unwrap().0 > i64::MAX),
        chat_step_after_author(name, author_id, reading) is CreateChat || chat_step_after_author(
            name,
            author_id,
            reading,
        ) == DbStepView::Finish(Err(clock_error())),
{
}

/// With a readable clock, the flow always goes on to create the chat: named
/// `name` (or "No Name" when it is empty), pointing at the author just
/// created, with no id, created at the second and nanosecond read.
pub proof fn lemma_chat_created_with_readable_clock(
    name: Seq<char>,
    author_id: Option<Seq<char>>,
    secs: u64,
    nanos: u32,
)
    requires
        secs <= i64::MAX,
    ensures
        chat_step_after_author(name, author_id, Some((secs, nanos))) matches DbStepView::CreateChat(
            c,
        ) && {
            &&& c.id is None
            &&& c.name == (if name.len() == 0 {
                "No Name"@
            } else {
                name
            })
            &&& c.author_id == author_id
            &&& c.created_at.secs == secs
            &&& c.created_at.nanos == nanos
        },
{
}

/// Two chats with different names, after the same author and the same clock
/// reading, go the same way: both are created or both end with the same error.
pub proof fn lemma_chat_name_never_decides_flow(
    name1: Seq<char>,
    name2: Seq<char>,
    author_id: Option<Seq<char>>,
    reading: Option<(u64, u32)>,
)
    ensures
        (chat_step_after_author(name1, author_id, reading) is CreateChat)
            <==> (chat_step_after_author(name2, author_id, reading) is CreateChat),
        !(chat_step_after_author(name1, author_id, reading) is CreateChat) ==> chat_step_after_author(
            name1,
            author_id,
            reading,
        ) == chat_step_after_author(name2, author_id, reading),
{
}

impl CreateChat {
    /// The clock readings the flow has taken so far, in order.
    pub open spec fn readings(&self) -> Seq<Option<(u64, u32)>> {
        self.clock_readings@.map_values(|c: ClockReading| c@)
    }

    /// Whether `ev` is what the call asked for in the current phase gives back.
    pub open spec fn expects(&self, ev: DbEvent) -> bool {
        match self.phase {
            CreateChatPhase::Connecting => ev is Connected,
            CreateChatPhase::CreatingAuthor | CreateChatPhase::CreatingChat => ev is Created,
            CreateChatPhase::Finished => false,
        }
    }

    /// Starts a flow that creates a chat named `name`.
    pub fn start(name: String) -> (r: (CreateChat, DbStep))
        ensures
            r.0.phase == CreateChatPhase::Connecting,
            r.0.name@ == name@,
            r.0.readings() == Seq::<Option<(u64, u32)>>::empty(),
            r.1@ == DbStepView::Connect,
    {
        (
            CreateChat {
                phase: CreateChatPhase::Connecting,
                name,
                clock_readings: Ghost(Seq::empty()),
            },
            DbStep::Connect,
        )
    }

    /// Takes what the last call gave back, and says what to do next.
    pub fn on_event(self, ev: DbEvent) -> (r: (CreateChat, DbStep))
        requires
            self.expects(ev),
        ensures
            r.0.name@ == self.name@,
            r.1 is Finish <==> r.0.phase == CreateChatPhase::Finished,
            (self.phase, ev) matches (
                CreateChatPhase::CreatingAuthor,
                DbEvent::Created(Ok(Some(_))),
            ) ==> {
                &&& r.0.readings().len() == self.readings().len() + 1
                &&& r.0.readings().drop_last() == self.readings()
            },
            !((self.phase, ev) matches (
                CreateChatPhase::CreatingAuthor,
                DbEvent::Created(Ok(Some(_))),
            )) ==> r.0.readings() == self.readings(),
            match (self.phase, ev) {
                (CreateChatPhase::Connecting, DbEvent::Connected(Ok(()))) => {
                    &&& r.0.phase == CreateChatPhase::CreatingAuthor
                    &&& r.1 matches DbStep::CreateAuthor(a) && {
                        &&& a@.id is None
                        &&& a@.kind == AuthorType::User
                        &&& a@.name.len() == 13
                        &&& a@.name.take(5) == "User-"@
                        &&& forall|i: int| 5 <= i < 13 ==> is_lower_hex(#[trigger] a@.name[i])
                    }
                },
                (CreateChatPhase::Connecting, DbEvent::Connected(Err(e))) => r.1@
                    == DbStepView::Finish(Err(e@)),
                (CreateChatPhase::CreatingAuthor, DbEvent::Created(Ok(created))) => match created {
                    Some(author_id) => {
                        &&& r.1@ == chat_step_after_author(
                            self.name@,
                            crate::db::schema::opt_text(author_id),
                            r.0.readings().last(),
                        )
                        &&& r.1 is CreateChat ==> r.0.phase == CreateChatPhase::CreatingChat
                    },
                    None => r.1@ == DbStepView::Finish(Err("Failed to create author record"@)),
                },
                (CreateChatPhase::CreatingAuthor, DbEvent::Created(Err(e))) => r.1@
                    == DbStepView::Finish(Err(e@)),
                (CreateChatPhase::CreatingChat, DbEvent::Created(Ok(created))) => r.1@
                    == DbStepView::Finish(
                    record_id_outcome(created, "Failed to create chat: No record returned"@),
                ),
                (CreateChatPhase::CreatingChat, DbEvent::Created(Err(e))) => r.1@
                    == DbStepView::Finish(Err(e@)),
                _ => false,
            },
    {
        let name = self.name;
        let readings = self.clock_readings;
        match (self.phase, ev) {
            (CreateChatPhase::Connecting, DbEvent::Connected(Ok(()))) => {
                let author = new_user_author(new_author_name());
                (
                    CreateChat { phase: CreateChatPhase::CreatingAuthor, name, clock_readings: readings },
                    DbStep::CreateAuthor(author),
                )
            },
            (CreateChatPhase::Connecting, DbEvent::Connected(Err(e))) => {
                (
                    CreateChat { phase: CreateChatPhase::Finished, name, clock_readings: readings },
                    DbStep::Finish(Err(e)),
                )
            },
            (CreateChatPhase::CreatingAuthor, DbEvent::Created(Ok(created))) => {
                match created {
                    Some(author_id) => {
                        let clock = unix_time();
                        let clock_readings = Ghost(readings@.push(clock));
                        proof {
                            assert(clock_readings@.map_values(|c: ClockReading| c@).drop_last()
                                =~= readings@.map_values(|c: ClockReading| c@));
                        }
                        match timestamp_from_reading(clock.value()) {
                            Some(created_at) => {
                                let chat = Chat {
                                    id: None,
                                    name: validate_chat_name(name.clone()),
                                    author_id,
                                    created_at,
                                };
                                (
                                    CreateChat {
                                        phase: CreateChatPhase::CreatingChat,
                                        name,
                                        clock_readings,
                                    },
                                    DbStep::CreateChat(chat),
                                )
                            },
                            None => (
                                CreateChat { phase: CreateChatPhase::Finished, name, clock_readings },
                                DbStep::Finish(
                                    Err("System clock is set before the Unix epoch".to_owned()),
                                ),
                            ),
                        }
                    },
                    None => (
                        CreateChat { phase: CreateChatPhase::Finished, name, clock_readings: readings },
                        DbStep::Finish(Err("Failed to create author record".to_owned())),
                    ),
                }
            },
            (CreateChatPhase::CreatingChat, DbEvent::Created(Ok(created))) => {
                let outcome = record_id_or(created, "Failed to create chat: No record returned");
                (
                    CreateChat { phase: CreateChatPhase::Finished, name, clock_readings: readings },
                    DbStep::Finish(outcome),
                )
            },
            (_, DbEvent::Created(Err(e))) => {
                (
                    CreateChat { phase: CreateChatPhase::Finished, name, clock_readings: readings },
                    DbStep::Finish(Err(e)),
                )
            },
            _ => {
                proof {
                    assert(false);
                }
                (
                    CreateChat { phase: CreateChatPhase::Finished, name, clock_readings: readings },
                    DbStep::Connect,
                )
            },
        }
    }
}


// ---------------------------------------------------------------- add_message

#[derive(Clone, Copy, Debug, PartialEq, Eq, Structural)]
pub enum AddMessagePhase {
    Connecting,
    ParsingRecord,
    CheckingChat,
    CountingMessages,
    CreatingAuthor,
    CreatingMessage,
    Finished,
}

/// The flow of `add_message`: connect, check that the chat exists, count its
/// messages, create the sender as a user author, and create the message with
/// the next sequence number.
pub struct AddMessage {
    pub phase: AddMessagePhase,
    pub chat_id: String,
    pub text: String,
    pub sender_name: String,
    pub record: String,
    pub sequence_number: u64,
    /// The readings of the clock this flow has taken, in order.
    pub clock_readings: Ghost<Seq<ClockReading>>,
}

/// What follows the creation of a new message's author, given the clock
/// reading taken then: the clock error when the reading gives no instant; else
/// the message to create, with no id, in the chat of `record`, numbered
/// `sequence_number`, holding `text`, pointing at the author, and created at
/// that instant.
pub open spec fn message_step_after_author(
    record: Seq<char>,
    text: Seq<char>,
    author_id: Option<Seq<char>>,
    sequence_number: u64,
    reading: Option<(u64, u32)>,
) -> DbStepView {
    match timestamp_of_reading(reading) {
        None => DbStepView::Finish(Err(clock_error())),
        Some(t) => DbStepView::CreateMessage(
            MessageView {
                id: None,
                chat_id: Some(record),
                sequence_number,
                text,
                author_id,
                created_at: t,
            },
        ),
    }
}

/// Once the sender of a new message exists, the flow ends with the clock
/// error exactly when the clock could not be read (or read a second past what
/// an instant holds); the text of the message plays no part.
pub proof fn lemma_message_clock_error_only_when_unreadable(
    record: Seq<char>,
    text: Seq<char>,
    author_id: Option<Seq<char>>,
    sequence_number: u64,
    reading: Option<(u64, u32)>,
)
    ensures
        (message_step_after_author(record, text, author_id, sequence_number, reading)
            == DbStepView::Finish(Err(clock_error()))) <==> (reading is None || reading.unwrap().0
            > i64::MAX),
        message_step_after_author(record, text, author_id, sequence_number, reading) is CreateMessage
            || message_step_after_author(record, text, author_id, sequence_number, reading)
            == DbStepView::Finish(Err(clock_error())),
{
}

/// With a readable clock, the flow always goes on to create the message: in
/// the chat of `record`, numbered `sequence_number`, holding `text` as it is,
/// pointing at the sender's author, with no id, created at the second and
/// nanosecond read.
pub proof fn lemma_message_created_with_readable_clock(
    record: Seq<char>,
    text: Seq<char>,
    author_id: Option<Seq<char>>,
    sequence_number: u64,
    secs: u64,
    nanos: u32,
)
    requires
        secs <= i64::MAX,
    ensures
        message_step_after_author(record, text, author_id, sequence_number, Some((secs, nanos)))
            matches DbStepView::CreateMessage(m) && {
            &&& m.id is None
            &&& m.chat_id == Some(record)
            &&& m.sequence_number == sequence_number
            &&& m.text == text
            &&& m.author_id == author_id
            &&& m.created_at.secs == secs
            &&& m.created_at.nanos == nanos
        },
{
}

/// Two messages with different texts, after the same sender and the same
/// clock reading, go the same way: both are created or both end with the same
/// error.
pub proof fn lemma_message_text_never_decides_flow(
    record: Seq<char>,
    text1: Seq<char>,
    text2: Seq<char>,
    author_id: Option<Seq<char>>,
    sequence_number: u64,
    reading: Option<(u64, u32)>,
)
    ensures
        (message_step_after_author(record, text1, author_id, sequence_number, reading) is CreateMessage)
            <==> (message_step_after_author(record, text2, author_id, sequence_number, reading) is CreateMessage),
        !(message_step_after_author(record, text1, author_id, sequence_number, reading) is CreateMessage)
            ==> message_step_after_author(record, text1, author_id, sequence_number, reading)
            == message_step_after_author(record, text2, author_id, sequence_number, reading),
{
}

impl AddMessage {
    /// The clock readings the flow has taken so far, in order.
    pub open spec fn readings(&self) -> Seq<Option<(u64, u32)>> {
        self.clock_readings@.map_values(|c: ClockReading| c@)
    }

    /// Whether `ev` is what the call asked for in the current phase gives back.
    pub open spec fn expects(&self, ev: DbEvent) -> bool {
        match self.phase {
            AddMessagePhase::Connecting => ev is Connected,
            AddMessagePhase::ParsingRecord => ev is RecordParsed,
            AddMessagePhase::CheckingChat => ev is ChatSelected,
            AddMessagePhase::CountingMessages => match ev {
                DbEvent::MessagesQueried(Ok(Ok(n))) => n < u64::MAX,
                DbEvent::MessagesQueried(_) => true,
                _ => false,
            },
            AddMessagePhase::CreatingAuthor | AddMessagePhase::CreatingMessage => ev is Created,
            AddMessagePhase::Finished => false,
        }
    }

    /// The fields that a step leaves alone.
    pub open spec fn same_request(&self, other: &AddMessage) -> bool {
        &&& other.chat_id@ == self.chat_id@
        &&& other.text@ == self.text@
        &&& other.sender_name@ == self.sender_name@
    }

    /// Starts a flow that adds a message of `text` by `sender_name` to a chat.
    pub fn start(chat_id: String, text: String, sender_name: String) -> (r: (AddMessage, DbStep))
        ensures
            r.0.phase == AddMessagePhase::Connecting,
            r.0.chat_id@ == chat_id@,
            r.0.text@ == text@,
            r.0.sender_name@ == sender_name@,
            r.0.readings() == Seq::<Option<(u64, u32)>>::empty(),
            r.1@ == DbStepView::Connect,
    {
        (
            AddMessage {
                phase: AddMessagePhase::Connecting,
                chat_id,
                text,
                sender_name,
                record: String::new(),
                sequence_number: 0,
                clock_readings: Ghost(Seq::empty()),
            },
            DbStep::Connect,
        )
    }

    fn finish(self, step: DbStep) -> (r: (AddMessage, DbStep))
        ensures
            self.same_request(&r.0),
            r.0.phase == AddMessagePhase::Finished,
            r.0.readings() == self.readings(),
            r.1 == step,
    {
        (AddMessage { phase: AddMessagePhase::Finished, ..self }, step)
    }

    /// Takes what the last call gave back, and says what to do next.
    pub fn on_event(self, ev: DbEvent) -> (r: (AddMessage, DbStep))
        requires
            self.expects(ev),
        ensures
            self.same_request(&r.0),
            r.1 is Finish <==> r.0.phase == AddMessagePhase::Finished,
            (self.phase, ev) matches (
                AddMessagePhase::CreatingAuthor,
                DbEvent::Created(Ok(Some(_))),
            ) ==> {
                &&& r.0.readings().len() == self.readings().len() + 1
                &&& r.0.readings().drop_last() == self.readings()
            },
            !((self.phase, ev) matches (
                AddMessagePhase::CreatingAuthor,
                DbEvent::Created(Ok(Some(_))),
            )) ==> r.0.readings() == self.readings(),
            match (self.phase, ev) {
                (AddMessagePhase::Connecting, DbEvent::Connected(Ok(()))) => {
                    &&& r.0.phase == AddMessagePhase::ParsingRecord
                    &&& r.0.record@ == record_key(self.chat_id@)
                    &&& r.1@ == DbStepView::ParseRecordId(record_key(self.chat_id@))
                },
                (AddMessagePhase::Connecting, DbEvent::Connected(Err(e))) => r.1@
                    == DbStepView::Finish(Err(e@)),
                (AddMessagePhase::ParsingRecord, DbEvent::RecordParsed(Ok(()))) => {
                    &&& r.0.phase == AddMessagePhase::CheckingChat
                    &&& r.0.record@ == self.record@
                    &&& r.1@ == DbStepView::SelectChat(self.record@)
                },
                (AddMessagePhase::ParsingRecord, DbEvent::RecordParsed(Err(e))) => r.1@
                    == fail_with("Invalid chat ID format: "@, e@),
                (AddMessagePhase::CheckingChat, DbEvent::ChatSelected(Ok(found))) => if found {
                    &&& r.0.phase == AddMessagePhase::CountingMessages
                    &&& r.0.record@ == self.record@
                    &&& r.1@ == DbStepView::QueryMessages(self.record@)
                } else {
                    r.1@ == fail_with("Chat not found with ID "@, self.chat_id@)
                },
                (AddMessagePhase::CheckingChat, DbEvent::ChatSelected(Err(e))) => r.1@
                    == fail_with("Failed to verify chat: "@, e@),
                (AddMessagePhase::CountingMessages, DbEvent::MessagesQueried(Ok(Ok(n)))) => {
                    &&& r.0.phase == AddMessagePhase::CreatingAuthor
                    &&& r.0.record@ == self.record@
                    &&& r.0.sequence_number == n + 1
                    &&& r.1@ == DbStepView::CreateAuthor(
                        AuthorView { id: None, kind: AuthorType::User, name: self.sender_name@ },
                    )
                },
                (AddMessagePhase::CountingMessages, DbEvent::MessagesQueried(Ok(Err(e)))) => r.1@
                    == fail_with("Failed to extract messages: "@, e@),
                (AddMessagePhase::CountingMessages, DbEvent::MessagesQueried(Err(e))) => r.1@
                    == fail_with("Failed to query messages: "@, e@),
                (AddMessagePhase::CreatingAuthor, DbEvent::Created(Ok(created))) => match created {
                    Some(author_id) => {
                        &&& r.1@ == message_step_after_author(
                            self.record@,
                            self.text@,
                            crate::db::schema::opt_text(author_id),
                            self.sequence_number,
                            r.0.readings().last(),
                        )
                        &&& r.1 is CreateMessage ==> r.0.phase == AddMessagePhase::CreatingMessage
                    },
                    None => r.1@ == DbStepView::Finish(Err("Failed to create author record"@)),
                },
                (AddMessagePhase::CreatingAuthor, DbEvent::Created(Err(e))) => r.1@
                    == DbStepView::Finish(Err(e@)),
                (AddMessagePhase::CreatingMessage, DbEvent::Created(Ok(created))) => r.1@
                    == DbStepView::Finish(
                    record_id_outcome(created, "Failed to create message: No record returned"@),
                ),
                (AddMessagePhase::CreatingMessage, DbEvent::Created(Err(e))) => r.1@
                    == DbStepView::Finish(Err(e@)),
                _ => false,
            },
    {
        match (self.phase, ev) {
            (AddMessagePhase::Connecting, DbEvent::Connected(Ok(()))) => {
                let record = chat_record_key(self.chat_id.as_str());
                let step = DbStep::ParseRecordId(record.clone());
                (AddMessage { phase: AddMessagePhase::ParsingRecord, record, ..self }, step)
            },
            (AddMessagePhase::ParsingRecord, DbEvent::RecordParsed(Ok(()))) => {
                let step = DbStep::SelectChat(self.record.clone());
                (AddMessage { phase: AddMessagePhase::CheckingChat, ..self }, step)
            },
            (AddMessagePhase::ParsingRecord, DbEvent::RecordParsed(Err(e))) => {
                let step = fail("Invalid chat ID format: ", e.as_str());
                self.finish(step)
            },
            (AddMessagePhase::CheckingChat, DbEvent::ChatSelected(Ok(found))) => {
                if found {
                    let step = DbStep::QueryMessages(self.record.clone());
                    (AddMessage { phase: AddMessagePhase::CountingMessages, ..self }, step)
                } else {
                    let step = fail("Chat not found with ID ", self.chat_id.as_str());
                    self.finish(step)
                }
            },
            (AddMessagePhase::CheckingChat, DbEvent::ChatSelected(Err(e))) => {
                let step = fail("Failed to verify chat: ", e.as_str());
                self.finish(step)
            },
            (AddMessagePhase::CountingMessages, DbEvent::MessagesQueried(Ok(Ok(n)))) => {
                let sequence_number = n as u64 + 1;
                let author = new_user_author(self.sender_name.clone());
                (
                    AddMessage { phase: AddMessagePhase::CreatingAuthor, sequence_number, ..self },
                    DbStep::CreateAuthor(author),
                )
            },
            (AddMessagePhase::CountingMessages, DbEvent::MessagesQueried(Ok(Err(e)))) => {
                let step = fail("Failed to extract messages: ", e.as_str());
                self.finish(step)
            },
            (AddMessagePhase::CountingMessages, DbEvent::MessagesQueried(Err(e))) => {
                let step = fail("Failed to query messages: ", e.as_str());
                self.finish(step)
            },
            (AddMessagePhase::CreatingAuthor, DbEvent::Created(Ok(created))) => {
                match created {
                    Some(author_id) => {
                        let clock = unix_time();
                        let clock_readings = Ghost(self.clock_readings@.push(clock));
                        proof {
                            assert(clock_readings@.map_values(|c: ClockReading| c@).drop_last()
                                =~= self.readings());
                        }
                        match timestamp_from_reading(clock.value()) {
                            Some(created_at) => {
                                let m = Message {
                                    id: None,
                                    chat_id: Some(self.record.clone()),
                                    sequence_number: self.sequence_number,
                                    text: self.text.clone(),
                                    author_id,
                                    created_at,
                                };
                                (
                                    AddMessage {
                                        phase: AddMessagePhase::CreatingMessage,
                                        clock_readings,
                                        ..self
                                    },
                                    DbStep::CreateMessage(m),
                                )
                            },
                            None => AddMessage { clock_readings, ..self }.finish(
                                DbStep::Finish(
                                    Err("System clock is set before the Unix epoch".to_owned()),
                                ),
                            ),
                        }
                    },
                    None => self.finish(
                        DbStep::Finish(Err("Failed to create author record".to_owned())),
                    ),
                }
            },
            (AddMessagePhase::CreatingMessage, DbEvent::Created(Ok(created))) => {
                let outcome = record_id_or(
                    created,
                    "Failed to create message: No record returned",
                );
                self.finish(DbStep::Finish(outcome))
            },
            (AddMessagePhase::Connecting, DbEvent::Connected(Err(e))) => {
                self.finish(DbStep::Finish(Err(e)))
            },
            (_, DbEvent::Created(Err(e))) => self.finish(DbStep::Finish(Err(e))),
            _ => {
                proof {
                    assert(false);
                }
                self.finish(DbStep::Connect)
            },
        }
    }
}


// ---------------------------------------------------------------- the connection

/// A call on the connection that a flow asks its caller to make, or the end of the flow.
#[derive(Debug)]
pub enum ConnStep {
    /// Run `init_database`.
    Initialize,
    /// Look up the stored connection.
    Fetch,
    /// Run the health query on the stored connection.
    HealthCheck,
    /// Run `init_database` again, after a failed health query.
    Reinitialize,
    /// Open the store at `DB_PATH`.
    OpenStore,
    /// Select `NAMESPACE` and `DATABASE`.
    UseNamespace,
    /// Run `SCHEMA`.
    DefineSchema,
    /// Keep the opened connection as the process-wide one.
    StoreInstance,
    /// Open the channel of chat updates and start the live query on chats.
    StartUpdates,
    /// The flow is over, with this outcome.
    Finish(Result<(), String>),
}

/// What a call on the connection gave back.
pub enum ConnEvent {
    /// The call succeeded, or failed with this text.
    Done(Result<(), String>),
    /// Whether a connection is stored.
    Present(bool),
}

/// The outcome of a step, when it ends the flow.
pub open spec fn finished_with(step: ConnStep, outcome: Result<(), Seq<char>>) -> bool {
    match step {
        ConnStep::Finish(r) => match (r, outcome) {
            (Ok(()), Ok(())) => true,
            (Err(e), Err(f)) => e@ == f,
            _ => false,
        },
        _ => false,
    }
}

fn finish_err(e: &str) -> (s: ConnStep)
    ensures
        finished_with(s, Err(e@)),
{
    ConnStep::Finish(Err(e.to_owned()))
}

#[derive(Clone, Copy, Debug, PartialEq, Eq, Structural)]
pub enum GetDbPhase {
    Initializing,
    Fetching,
    Checking,
    Reinitializing,
    Refetching,
    Finished,
}

/// The flow of `get_db`: initialize the connection when there is none, check
/// that it answers, and initialize it again once when it does not.
pub struct GetDb {
    pub phase: GetDbPhase,
}

impl GetDb {
    /// Whether `ev` is what the call asked for in the current phase gives back.
    pub open spec fn expects(&self, ev: ConnEvent) -> bool {
        match self.phase {
            GetDbPhase::Initializing | GetDbPhase::Checking | GetDbPhase::Reinitializing => ev is Done,
            GetDbPhase::Fetching | GetDbPhase::Refetching => ev is Present,
            GetDbPhase::Finished => false,
        }
    }

    /// Starts the flow, knowing whether a connection was ever initialized.
    pub fn start(initialized: bool) -> (r: (GetDb, ConnStep))
        ensures
            initialized ==> r.0.phase == GetDbPhase::Fetching && r.1 is Fetch,
            !initialized ==> r.0.phase == GetDbPhase::Initializing && r.1 is Initialize,
    {
        if initialized {
            (GetDb { phase: GetDbPhase::Fetching }, ConnStep::Fetch)
        } else {
            (GetDb { phase: GetDbPhase::Initializing }, ConnStep::Initialize)
        }
    }

    /// Takes what the last call gave back, and says what to do next.
    pub fn on_event(self, ev: ConnEvent) -> (r: (GetDb, ConnStep))
        requires
            self.expects(ev),
        ensures
            r.1 is Finish <==> r.0.phase == GetDbPhase::Finished,
            match (self.phase, ev) {
                (GetDbPhase::Initializing, ConnEvent::Done(Ok(()))) => r.0.phase
                    == GetDbPhase::Fetching && r.1 is Fetch,
                (GetDbPhase::Initializing, ConnEvent::Done(Err(e))) => finished_with(r.1, Err(e@)),
                (GetDbPhase::Fetching, ConnEvent::Present(present)) => if present {
                    r.0.phase == GetDbPhase::Checking && r.1 is HealthCheck
                } else {
                    finished_with(r.1, Err("Database not initialized"@))
                },
                (GetDbPhase::Checking, ConnEvent::Done(Ok(()))) => finished_with(r.1, Ok(())),
                (GetDbPhase::Checking, ConnEvent::Done(Err(_))) => r.0.phase
                    == GetDbPhase::Reinitializing && r.1 is Reinitialize,
                (GetDbPhase::Reinitializing, ConnEvent::Done(Ok(()))) => r.0.phase
                    == GetDbPhase::Refetching && r.1 is Fetch,
                (GetDbPhase::Reinitializing, ConnEvent::Done(Err(e))) => finished_with(
                    r.1,
                    Err(e@),
                ),
                (GetDbPhase::Refetching, ConnEvent::Present(present)) => if present {
                    finished_with(r.1, Ok(()))
                } else {
                    finished_with(
                        r.1,
                        Err("Database still not available after reinitialization"@),
                    )
                },
                _ => false,
            },
    {
        let done = GetDb { phase: GetDbPhase::Finished };
        match (self.phase, ev) {
            (GetDbPhase::Initializing, ConnEvent::Done(Ok(()))) => (
                GetDb { phase: GetDbPhase::Fetching },
                ConnStep::Fetch,
            ),
            (GetDbPhase::Fetching, ConnEvent::Present(present)) => {
                if present {
                    (GetDb { phase: GetDbPhase::Checking }, ConnStep::HealthCheck)
                } else {
                    (done, finish_err("Database not initialized"))
                }
            },
            (GetDbPhase::Checking, ConnEvent::Done(Ok(()))) => (done, ConnStep::Finish(Ok(()))),
            (GetDbPhase::Checking, ConnEvent::Done(Err(_))) => (
                GetDb { phase: GetDbPhase::Reinitializing },
                ConnStep::Reinitialize,
            ),
            (GetDbPhase::Reinitializing, ConnEvent::Done(Ok(()))) => (
                GetDb { phase: GetDbPhase::Refetching },
                ConnStep::Fetch,
            ),
            (GetDbPhase::Refetching, ConnEvent::Present(present)) => {
                if present {
                    (done, ConnStep::Finish(Ok(())))
                } else {
                    (done, finish_err("Database still not available after reinitialization"))
                }
            },
            (_, ConnEvent::Done(Err(e))) => (done, ConnStep::Finish(Err(e))),
            _ => {
                proof {
                    assert(false);
                }
                (done, ConnStep::Fetch)
            },
        }
    }
}

#[derive(Clone, Copy, Debug, PartialEq, Eq, Structural)]
pub enum InitDatabasePhase {
    Fetching,
    Checking,
    Opening,
    SelectingNamespace,
    DefiningSchema,
    Storing,
    StartingUpdates,
    Finished,
}

/// The flow of `init_database`: when a connection is stored, check that it
/// answers; otherwise open the store, select the namespace and database,
/// define the schema, keep the connection, and start the chat updates.
pub struct InitDatabase {
    pub phase: InitDatabasePhase,
}

impl InitDatabase {
    /// Whether `ev` is what the call asked for in the current phase gives back.
    pub open spec fn expects(&self, ev: ConnEvent) -> bool {
        match self.phase {
            InitDatabasePhase::Fetching => ev is Present,
            InitDatabasePhase::Finished => false,
            _ => ev is Done,
        }
    }

    /// Starts the flow, knowing whether a connection was ever initialized.
    pub fn start(initialized: bool) -> (r: (InitDatabase, ConnStep))
        ensures
            initialized ==> r.0.phase == InitDatabasePhase::Fetching && r.1 is Fetch,
            !initialized ==> r.0.phase == InitDatabasePhase::Opening && r.1 is OpenStore,
    {
        if initialized {
            (InitDatabase { phase: InitDatabasePhase::Fetching }, ConnStep::Fetch)
        } else {
            (InitDatabase { phase: InitDatabasePhase::Opening }, ConnStep::OpenStore)
        }
    }

    /// Takes what the last call gave back, and says what to do next.
    pub fn on_event(self, ev: ConnEvent) -> (r: (InitDatabase, ConnStep))
        requires
            self.expects(ev),
        ensures
            r.1 is Finish <==> r.0.phase == InitDatabasePhase::Finished,
            match (self.phase, ev) {
                (InitDatabasePhase::Fetching, ConnEvent::Present(present)) => if present {
                    r.0.phase == InitDatabasePhase::Checking && r.1 is HealthCheck
                } else {
                    finished_with(r.1, Err("DB initialized but not available"@))
                },
                (InitDatabasePhase::Checking, ConnEvent::Done(Ok(()))) => finished_with(r.1, Ok(())),
                (InitDatabasePhase::Opening, ConnEvent::Done(Ok(()))) => r.0.phase
                    == InitDatabasePhase::SelectingNamespace && r.1 is UseNamespace,
                (InitDatabasePhase::SelectingNamespace, ConnEvent::Done(Ok(()))) => r.0.phase
                    == InitDatabasePhase::DefiningSchema && r.1 is DefineSchema,
                (InitDatabasePhase::DefiningSchema, ConnEvent::Done(Ok(()))) => r.0.phase
                    == InitDatabasePhase::Storing && r.1 is StoreInstance,
                (InitDatabasePhase::Storing, ConnEvent::Done(Ok(()))) => r.0.phase
                    == InitDatabasePhase::StartingUpdates && r.1 is StartUpdates,
                (InitDatabasePhase::Storing, ConnEvent::Done(Err(_))) => finished_with(
                    r.1,
                    Err(
                        "Failed to set database instance. Another initialization might be in progress."@,
                    ),
                ),
                (InitDatabasePhase::StartingUpdates, ConnEvent::Done(_)) => finished_with(
                    r.1,
                    Ok(()),
                ),
                (_, ConnEvent::Done(Err(e))) => finished_with(r.1, Err(e@)),
                _ => false,
            },
    {
        let done = InitDatabase { phase: InitDatabasePhase::Finished };
        match (self.phase, ev) {
            (InitDatabasePhase::Fetching, ConnEvent::Present(present)) => {
                if present {
                    (InitDatabase { phase: InitDatabasePhase::Checking }, ConnStep::HealthCheck)
                } else {
                    (done, finish_err("DB initialized but not available"))
                }
            },
            (InitDatabasePhase::Checking, ConnEvent::Done(Ok(()))) => (
                done,
                ConnStep::Finish(Ok(())),
            ),
            (InitDatabasePhase::Opening, ConnEvent::Done(Ok(()))) => (
                InitDatabase { phase: InitDatabasePhase::SelectingNamespace },
                ConnStep::UseNamespace,
            ),
            (InitDatabasePhase::SelectingNamespace, ConnEvent::Done(Ok(()))) => (
                InitDatabase { phase: InitDatabasePhase::DefiningSchema },
                ConnStep::DefineSchema,
            ),
            (InitDatabasePhase::DefiningSchema, ConnEvent::Done(Ok(()))) => (
                InitDatabase { phase: InitDatabasePhase::Storing },
                ConnStep::StoreInstance,
            ),
            (InitDatabasePhase::Storing, ConnEvent::Done(Ok(()))) => (
                InitDatabase { phase: InitDatabasePhase::StartingUpdates },
                ConnStep::StartUpdates,
            ),
            (InitDatabasePhase::Storing, ConnEvent::Done(Err(_))) => (
                done,
                finish_err(
                    "Failed to set database instance. Another initialization might be in progress.",
                ),
            ),
            (InitDatabasePhase::StartingUpdates, ConnEvent::Done(_)) => (
                done,
                ConnStep::Finish(Ok(())),
            ),
            (_, ConnEvent::Done(Err(e))) => (done, ConnStep::Finish(Err(e))),
            _ => {
                proof {
                    assert(false);
                }
                (done, ConnStep::Fetch)
            },
        }
    }
}

} // verus!
