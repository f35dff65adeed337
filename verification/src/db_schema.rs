//! Conversations and messages, as the reducers of the SpacetimeDB module keep
//! them: the tables, the invariants the reducers keep, and the reducers.
//!
//! The two tables are held in a `Database` of this crate, in insertion order:
//! each row is keyed by its `id`, and the store keeps, besides unique keys,
//! that every message refers to a stored conversation and that each message's
//! sequence number is one more than the number of earlier messages of its
//! conversation.
use vstd::prelude::*;
use crate::db::client::result_text;
use crate::db::schema::chat_name;
use crate::clock::{ClockReading, clock_error, unix_time};
use crate::ids::{FreshKey, is_hyphenated_uuid, new_uuid_string};

verus! {

/// The identity of a caller: a 256-bit number, as SpacetimeDB's `Identity`
/// holds it, kept as its 32 bytes in little-endian order.
#[derive(Clone, Copy, Debug, PartialEq, Eq)]
pub struct Identity {
    pub le_bytes: [u8; 32],
}

/// A row of the `conversation` table.
#[derive(Debug)]
pub struct Conversation {
    pub id: String,
    pub name: String,
    pub creator: Identity,
    pub created_at: u64,
}

pub struct ConversationView {
    pub id: Seq<char>,
    pub name: Seq<char>,
    pub creator: Identity,
    pub created_at: u64,
}

impl View for Conversation {
    type V = ConversationView;

    open spec fn view(&self) -> ConversationView {
        ConversationView {
            id: self.id@,
            name: self.name@,
            creator: self.creator,
            created_at: self.created_at,
        }
    }
}

/// A row of the `message` table.
#[derive(Debug)]
pub struct Message {
    pub id: String,
    pub conversation_id: String,
    pub sequence_number: u64,
    pub text: String,
    pub sender: Identity,
    pub timestamp: u64,
}

pub struct MessageView {
    pub id: Seq<char>,
    pub conversation_id: Seq<char>,
    pub sequence_number: u64,
    pub text: Seq<char>,
    pub sender: Identity,
    pub timestamp: u64,
}

impl View for Message {
    type V = MessageView;

    open spec fn view(&self) -> MessageView {
        MessageView {
            id: self.id@,
            conversation_id: self.conversation_id@,
            sequence_number: self.sequence_number,
            text: self.text@,
            sender: self.sender,
            timestamp: self.timestamp,
        }
    }
}

impl Message {
    /// A copy of this row.
    pub fn duplicate(&self) -> (r: Message)
        ensures
            r@ == self@,
    {
        Message {
            id: self.id.clone(),
            conversation_id: self.conversation_id.clone(),
            sequence_number: self.sequence_number,
            text: self.text.clone(),
            sender: self.sender,
            timestamp: self.timestamp,
        }
    }
}

// ---------------------------------------------------------------- the model

/// The contents of both tables, in insertion order.
pub struct DatabaseView {
    pub conversations: Seq<ConversationView>,
    pub messages: Seq<MessageView>,
}

/// Index of the conversation with key `id`, or the number of conversations when there is none.
pub open spec fn find_conv(cs: Seq<ConversationView>, id: Seq<char>) -> nat
    decreases cs.len(),
{
    if cs.len() == 0 {
        0
    } else if cs[0].id == id {
        0
    } else {
        1 + find_conv(cs.drop_first(), id)
    }
}

/// Whether a conversation with key `id` is stored.
pub open spec fn has_conversation(cs: Seq<ConversationView>, id: Seq<char>) -> bool {
    find_conv(cs, id) < cs.len()
}

/// Whether a message with key `id` is stored.
pub open spec fn has_message(ms: Seq<MessageView>, id: Seq<char>) -> bool {
    exists|i: int| 0 <= i < ms.len() && ms[i].id == id
}

/// The number of messages of conversation `c` in `ms`.
pub open spec fn count_in(ms: Seq<MessageView>, c: Seq<char>) -> nat
    decreases ms.len(),
{
    if ms.len() == 0 {
        0
    } else {
        count_in(ms.drop_last(), c) + if ms.last().conversation_id == c {
            1nat
        } else {
            0nat
        }
    }
}

/// The messages of `ms` that do not belong to conversation `c`, in order.
pub open spec fn keep_others(ms: Seq<MessageView>, c: Seq<char>) -> Seq<MessageView>
    decreases ms.len(),
{
    if ms.len() == 0 {
        seq![]
    } else {
        let before = keep_others(ms.drop_last(), c);
        if ms.last().conversation_id == c {
            before
        } else {
            before.push(ms.last())
        }
    }
}

/// Each message's sequence number is one more than the number of earlier
/// messages of its conversation.
pub open spec fn numbered(ms: Seq<MessageView>) -> bool
    decreases ms.len(),
{
    ms.len() == 0 || (numbered(ms.drop_last()) && ms.last().sequence_number == count_in(
        ms.drop_last(),
        ms.last().conversation_id,
    ) + 1)
}

impl DatabaseView {
    /// The invariant that the reducers keep.
    pub open spec fn wf(self) -> bool {
        &&& forall|i: int, j: int|
            0 <= i < j < self.conversations.len() ==> self.conversations[i].id
                != self.conversations[j].id
        &&& forall|i: int, j: int|
            0 <= i < j < self.messages.len() ==> self.messages[i].id != self.messages[j].id
        &&& forall|i: int|
            0 <= i < self.messages.len() ==> has_conversation(
                self.conversations,
                #[trigger] self.messages[i].conversation_id,
            )
        &&& numbered(self.messages)
    }

    /// The position of the conversation with key `id`.
    pub open spec fn pos(self, id: Seq<char>) -> int {
        find_conv(self.conversations, id) as int
    }

    /// Whether a conversation with key `id` is stored.
    pub open spec fn has(self, id: Seq<char>) -> bool {
        has_conversation(self.conversations, id)
    }

    /// The conversation with key `id`, when there is one.
    pub open spec fn find(self, id: Seq<char>) -> Option<ConversationView> {
        if self.has(id) {
            Some(self.conversations[self.pos(id)])
        } else {
            None
        }
    }

    /// The number of messages of conversation `id`.
    pub open spec fn count(self, id: Seq<char>) -> nat {
        count_in(self.messages, id)
    }

    /// The store after the conversation with key `id` is renamed to `name`.
    pub open spec fn renamed(self, id: Seq<char>, name: Seq<char>) -> DatabaseView {
        let c = self.conversations[self.pos(id)];
        DatabaseView {
            conversations: self.conversations.update(
                self.pos(id),
                ConversationView { name, ..c },
            ),
            messages: self.messages,
        }
    }

    /// The store after the conversation with key `id` and all its messages are deleted.
    pub open spec fn without(self, id: Seq<char>) -> DatabaseView {
        DatabaseView {
            conversations: self.conversations.remove(self.pos(id)),
            messages: keep_others(self.messages, id),
        }
    }
}

// ---------------------------------------------------------------- lemmas

proof fn lemma_find_conv(cs: Seq<ConversationView>, id: Seq<char>)
    ensures
        find_conv(cs, id) <= cs.len(),
        forall|j: int| 0 <= j < find_conv(cs, id) ==> cs[j].id != id,
        find_conv(cs, id) < cs.len() ==> cs[find_conv(cs, id) as int].id == id,
    decreases cs.len(),
{
    if cs.len() > 0 && cs[0].id != id {
        lemma_find_conv(cs.drop_first(), id);
        assert forall|j: int| 0 <= j < find_conv(cs, id) implies cs[j].id != id by {
            if j > 0 {
                assert(cs[j] == cs.drop_first()[j - 1]);
            }
        }
    }
}

proof fn lemma_find_conv_at(cs: Seq<ConversationView>, id: Seq<char>, i: int)
    requires
        0 <= i <= cs.len(),
        forall|j: int| 0 <= j < i ==> cs[j].id != id,
        i < cs.len() ==> cs[i].id == id,
    ensures
        find_conv(cs, id) == i,
    decreases cs.len(),
{
    if cs.len() > 0 && cs[0].id != id {
        assert forall|j: int| 0 <= j < i - 1 implies cs.drop_first()[j].id != id by {
            assert(cs.drop_first()[j] == cs[j + 1]);
        }
        lemma_find_conv_at(cs.drop_first(), id, i - 1);
    }
}

/// A key is stored exactly when some conversation has it.
proof fn lemma_has_conversation(cs: Seq<ConversationView>, id: Seq<char>)
    ensures
        has_conversation(cs, id) <==> exists|j: int| 0 <= j < cs.len() && cs[j].id == id,
{
    lemma_find_conv(cs, id);
}

proof fn lemma_count_push(ms: Seq<MessageView>, m: MessageView, c: Seq<char>)
    ensures
        count_in(ms.push(m), c) == count_in(ms, c) + if m.conversation_id == c {
            1nat
        } else {
            0nat
        },
{
    assert(ms.push(m).drop_last() =~= ms);
}

proof fn lemma_count_others(ms: Seq<MessageView>, x: Seq<char>, c: Seq<char>)
    requires
        c != x,
    ensures
        count_in(keep_others(ms, x), c) == count_in(ms, c),
    decreases ms.len(),
{
    if ms.len() > 0 {
        lemma_count_others(ms.drop_last(), x, c);
        if ms.last().conversation_id != x {
            lemma_count_push(keep_others(ms.drop_last(), x), ms.last(), c);
        }
    }
}

proof fn lemma_keep_others_members(ms: Seq<MessageView>, x: Seq<char>)
    ensures
        forall|k: int|
            0 <= k < keep_others(ms, x).len() ==> {
                &&& (#[trigger] keep_others(ms, x)[k]).conversation_id != x
                &&& exists|i: int| 0 <= i < ms.len() && ms[i] == keep_others(ms, x)[k]
            },
        keep_others(ms, x).len() <= ms.len(),
    decreases ms.len(),
{
    if ms.len() > 0 {
        let before = ms.drop_last();
        lemma_keep_others_members(before, x);
        let kept = keep_others(ms, x);
        assert forall|k: int| 0 <= k < kept.len() implies {
            &&& (#[trigger] kept[k]).conversation_id != x
            &&& exists|i: int| 0 <= i < ms.len() && ms[i] == kept[k]
        } by {
            if k < keep_others(before, x).len() {
                assert(kept[k] == keep_others(before, x)[k]);
                let i = choose|i: int| 0 <= i < before.len() && before[i] == keep_others(before, x)[k];
                assert(ms[i] == before[i]);
            } else {
                assert(kept[k] == ms.last());
                assert(ms[ms.len() - 1] == ms.last());
            }
        }
    }
}

proof fn lemma_keep_others_unique(ms: Seq<MessageView>, x: Seq<char>)
    requires
        forall|i: int, j: int| 0 <= i < j < ms.len() ==> ms[i].id != ms[j].id,
    ensures
        forall|i: int, j: int|
            0 <= i < j < keep_others(ms, x).len() ==> keep_others(ms, x)[i].id != keep_others(
                ms,
                x,
            )[j].id,
    decreases ms.len(),
{
    if ms.len() > 0 {
        let before = ms.drop_last();
        lemma_keep_others_unique(before, x);
        lemma_keep_others_members(before, x);
        let kb = keep_others(before, x);
        let kept = keep_others(ms, x);
        if ms.last().conversation_id != x {
            assert forall|i: int, j: int| 0 <= i < j < kept.len() implies kept[i].id
                != kept[j].id by {
                if j == kb.len() {
                    assert(kept[i] == kb[i]);
                    let a = choose|a: int| 0 <= a < before.len() && before[a] == kb[i];
                    assert(ms[a] == before[a]);
                    assert(kept[j] == ms[ms.len() - 1]);
                } else {
                    assert(kept[i] == kb[i]);
                    assert(kept[j] == kb[j]);
                }
            }
        }
    }
}

proof fn lemma_numbered_keep_others(ms: Seq<MessageView>, x: Seq<char>)
    requires
        numbered(ms),
    ensures
        numbered(keep_others(ms, x)),
    decreases ms.len(),
{
    if ms.len() > 0 {
        let before = ms.drop_last();
        lemma_numbered_keep_others(before, x);
        let m = ms.last();
        if m.conversation_id != x {
            let kb = keep_others(before, x);
            assert(kb.push(m).drop_last() =~= kb);
            lemma_count_others(before, x, m.conversation_id);
        }
    }
}

proof fn lemma_numbered_push(ms: Seq<MessageView>, m: MessageView)
    requires
        numbered(ms),
        m.sequence_number == count_in(ms, m.conversation_id) + 1,
    ensures
        numbered(ms.push(m)),
{
    assert(ms.push(m).drop_last() =~= ms);
}

proof fn lemma_count_take_mono(ms: Seq<MessageView>, c: Seq<char>, a: int, b: int)
    requires
        0 <= a <= b <= ms.len(),
    ensures
        count_in(ms.take(a), c) <= count_in(ms.take(b), c),
    decreases b - a,
{
    if a < b {
        lemma_count_take_mono(ms, c, a, b - 1);
        assert(ms.take(b).drop_last() =~= ms.take(b - 1));
    }
}

proof fn lemma_numbered_take(ms: Seq<MessageView>, i: int)
    requires
        numbered(ms),
        0 <= i < ms.len(),
    ensures
        ms[i].sequence_number == count_in(ms.take(i), ms[i].conversation_id) + 1,
    decreases ms.len(),
{
    if i == ms.len() - 1 {
        assert(ms.take(i) =~= ms.drop_last());
    } else {
        lemma_numbered_take(ms.drop_last(), i);
        assert(ms.drop_last().take(i) =~= ms.take(i));
    }
}

/// Law: in a well-formed store, every message's sequence number is one more
/// than the number of messages of its conversation stored before it, so the
/// messages of a conversation are numbered 1, 2, 3, ... in the order they
/// were added, and no two of them share a number.
pub proof fn lemma_sequence_numbers(db: DatabaseView)
    requires
        db.wf(),
    ensures
        forall|i: int|
            0 <= i < db.messages.len() ==> (#[trigger] db.messages[i]).sequence_number
                == count_in(db.messages.take(i), db.messages[i].conversation_id) + 1,
        forall|i: int, j: int|
            0 <= i < j < db.messages.len() && db.messages[i].conversation_id
                == db.messages[j].conversation_id ==> db.messages[i].sequence_number
                < db.messages[j].sequence_number,
{
    let ms = db.messages;
    assert forall|i: int| 0 <= i < ms.len() implies (#[trigger] ms[i]).sequence_number
        == count_in(ms.take(i), ms[i].conversation_id) + 1 by {
        lemma_numbered_take(ms, i);
    }
    assert forall|i: int, j: int|
        0 <= i < j < ms.len() && ms[i].conversation_id
            == ms[j].conversation_id implies ms[i].sequence_number < ms[j].sequence_number by {
        let c = ms[i].conversation_id;
        lemma_numbered_take(ms, i);
        lemma_numbered_take(ms, j);
        lemma_count_take_mono(ms, c, i + 1, j);
        assert(ms.take(i + 1).drop_last() =~= ms.take(i));
        assert(ms.take(i + 1).last() == ms[i]);
    }
}


// ---------------------------------------------------------------- the tables

/// The two tables of the module, with a record of what the reducers drew
/// from outside: the fresh keys and the clock readings, in order.
pub struct Database {
    conversation: Vec<Conversation>,
    message: Vec<Message>,
    keys_drawn: Ghost<Seq<FreshKey>>,
    clock_readings: Ghost<Seq<ClockReading>>,
}

/// The views of a list of conversations.
pub open spec fn conversation_views(cs: Seq<Conversation>) -> Seq<ConversationView> {
    cs.map_values(|c: Conversation| c@)
}

/// The views of a list of messages.
pub open spec fn message_views(ms: Seq<Message>) -> Seq<MessageView> {
    ms.map_values(|m: Message| m@)
}

impl View for Database {
    type V = DatabaseView;

    closed spec fn view(&self) -> DatabaseView {
        DatabaseView {
            conversations: conversation_views(self.conversation@),
            messages: message_views(self.message@),
        }
    }
}

impl Database {
    /// The fresh keys drawn by the reducers so far, in order.
    pub closed spec fn drawn_keys(&self) -> Seq<Seq<char>> {
        self.keys_drawn@.map_values(|k: FreshKey| k@)
    }

    /// The clock readings taken by the reducers so far, in order.
    pub closed spec fn readings(&self) -> Seq<Option<(u64, u32)>> {
        self.clock_readings@.map_values(|c: ClockReading| c@)
    }

    /// Empty tables.
    pub fn new() -> (db: Database)
        ensures
            db@.conversations.len() == 0,
            db@.messages.len() == 0,
            db@.wf(),
    {
        let db = Database {
            conversation: Vec::new(),
            message: Vec::new(),
            keys_drawn: Ghost(Seq::empty()),
            clock_readings: Ghost(Seq::empty()),
        };
        assert(db@.messages =~= seq![]);
        db
    }

    /// The rows of the `conversation` table, in insertion order.
    pub fn conversations(&self) -> (r: &Vec<Conversation>)
        ensures
            conversation_views(r@) == self@.conversations,
    {
        &self.conversation
    }

    /// The rows of the `message` table, in insertion order.
    pub fn messages(&self) -> (r: &Vec<Message>)
        ensures
            message_views(r@) == self@.messages,
    {
        &self.message
    }

    /// The position of the conversation with key `id`, or the number of
    /// conversations when there is none.
    pub fn find_conversation(&self, id: &str) -> (p: usize)
        ensures
            p == self@.pos(id@),
    {
        let wanted = id.to_owned();
        let mut i: usize = 0;
        while i < self.conversation.len()
            invariant
                i <= self.conversation@.len(),
                wanted@ == id@,
                forall|j: int| 0 <= j < i ==> self@.conversations[j].id != id@,
            decreases self.conversation@.len() - i,
        {
            if self.conversation[i].id == wanted {
                proof {
                    lemma_find_conv_at(self@.conversations, id@, i as int);
                }
                return i;
            }
            i = i + 1;
        }
        proof {
            lemma_find_conv_at(self@.conversations, id@, i as int);
        }
        i
    }

    /// Whether a message with key `id` is stored.
    pub fn contains_message(&self, id: &str) -> (r: bool)
        ensures
            r == has_message(self@.messages, id@),
    {
        let wanted = id.to_owned();
        let mut i: usize = 0;
        while i < self.message.len()
            invariant
                i <= self.message@.len(),
                wanted@ == id@,
                forall|j: int| 0 <= j < i ==> self@.messages[j].id != id@,
            decreases self.message@.len() - i,
        {
            if self.message[i].id == wanted {
                assert(self@.messages[i as int].id == id@);
                return true;
            }
            i = i + 1;
        }
        false
    }

    /// The number of messages of conversation `id`.
    pub fn count_messages(&self, id: &str) -> (n: usize)
        ensures
            n == self@.count(id@),
    {
        let wanted = id.to_owned();
        let mut n: usize = 0;
        let mut i: usize = 0;
        while i < self.message.len()
            invariant
                i <= self.message@.len(),
                wanted@ == id@,
                n == count_in(self@.messages.take(i as int), id@),
                n <= i,
            decreases self.message@.len() - i,
        {
            proof {
                assert(self@.messages.take(i + 1 as int).drop_last() =~= self@.messages.take(
                    i as int,
                ));
            }
            if self.message[i].conversation_id == wanted {
                n = n + 1;
            }
            i = i + 1;
        }
        proof {
            assert(self@.messages.take(i as int) =~= self@.messages);
        }
        n
    }

    /// Inserts a conversation; refused when its key is taken.
    pub fn insert_conversation(&mut self, c: Conversation) -> (r: Result<(), String>)
        requires
            old(self)@.wf(),
        ensures
            final(self)@.wf(),
            final(self).drawn_keys() == old(self).drawn_keys(),
            final(self).readings() == old(self).readings(),
            r is Ok <==> !old(self)@.has(c.id@),
            r is Ok ==> final(self)@ == (DatabaseView {
                conversations: old(self)@.conversations.push(c@),
                ..old(self)@
            }),
            r matches Err(e) ==> final(self)@ == old(self)@ && e@ == "Conversation already exists"@,
    {
        let p = self.find_conversation(c.id.as_str());
        if p < self.conversation.len() {
            return Err("Conversation already exists".to_owned());
        }
        let ghost before = self@;
        proof {
            lemma_find_conv(before.conversations, c.id@);
        }
        self.conversation.push(c);
        proof {
            let after = self@;
            assert(after.conversations =~= before.conversations.push(c@));
            assert(after.messages =~= before.messages);
            assert forall|i: int| 0 <= i < after.messages.len() implies has_conversation(
                after.conversations,
                #[trigger] after.messages[i].conversation_id,
            ) by {
                let cid = after.messages[i].conversation_id;
                lemma_has_conversation(before.conversations, cid);
                lemma_has_conversation(after.conversations, cid);
                let j = choose|j: int|
                    0 <= j < before.conversations.len() && before.conversations[j].id == cid;
                assert(after.conversations[j] == before.conversations[j]);
            }
        }
        Ok(())
    }

    /// Renames the conversation with key `id`; refused when there is none.
    pub fn rename_conversation(&mut self, id: &str, name: String) -> (r: Result<(), String>)
        requires
            old(self)@.wf(),
        ensures
            final(self)@.wf(),
            final(self).drawn_keys() == old(self).drawn_keys(),
            final(self).readings() == old(self).readings(),
            r is Ok <==> old(self)@.has(id@),
            r is Ok ==> final(self)@ == old(self)@.renamed(id@, name@),
            r matches Err(e) ==> final(self)@ == old(self)@ && e@ == "Conversation not found"@,
    {
        let p = self.find_conversation(id);
        if p >= self.conversation.len() {
            return Err("Conversation not found".to_owned());
        }
        let ghost before = self@;
        proof {
            lemma_find_conv(before.conversations, id@);
        }
        let old_conv = self.conversation.remove(p);
        let updated = Conversation {
            id: old_conv.id,
            name,
            creator: old_conv.creator,
            created_at: old_conv.created_at,
        };
        self.conversation.insert(p, updated);
        proof {
            let after = self@;
            assert(after.conversations =~= before.renamed(id@, name@).conversations);
            assert(after.messages =~= before.messages);
            assert forall|i: int| 0 <= i < after.messages.len() implies has_conversation(
                after.conversations,
                #[trigger] after.messages[i].conversation_id,
            ) by {
                let cid = after.messages[i].conversation_id;
                lemma_has_conversation(before.conversations, cid);
                lemma_has_conversation(after.conversations, cid);
                let j = choose|j: int|
                    0 <= j < before.conversations.len() && before.conversations[j].id == cid;
                assert(after.conversations[j].id == before.conversations[j].id);
            }
        }
        Ok(())
    }

    /// Appends a message to conversation `conversation_id`, numbered one more
    /// than the messages of that conversation so far. Refused when there is no
    /// such conversation, when the message key is taken, or when the number
    /// would not fit `u64`.
    pub fn insert_message(
        &mut self,
        id: String,
        conversation_id: String,
        text: String,
        sender: Identity,
        timestamp: u64,
    ) -> (r: Result<(), String>)
        requires
            old(self)@.wf(),
        ensures
            final(self)@.wf(),
            final(self).drawn_keys() == old(self).drawn_keys(),
            final(self).readings() == old(self).readings(),
            r is Ok <==> {
                &&& old(self)@.has(conversation_id@)
                &&& !has_message(old(self)@.messages, id@)
                &&& old(self)@.count(conversation_id@) < u64::MAX
            },
            r is Ok ==> final(self)@ == (DatabaseView {
                messages: old(self)@.messages.push(
                    MessageView {
                        id: id@,
                        conversation_id: conversation_id@,
                        sequence_number: (old(self)@.count(conversation_id@) + 1) as u64,
                        text: text@,
                        sender,
                        timestamp,
                    },
                ),
                ..old(self)@
            }),
            r matches Err(e) ==> {
                &&& final(self)@ == old(self)@
                &&& !old(self)@.has(conversation_id@) ==> e@ == "Conversation not found"@
                &&& old(self)@.has(conversation_id@) && has_message(old(self)@.messages, id@)
                    ==> e@ == "Message already exists"@
                &&& old(self)@.has(conversation_id@) && !has_message(old(self)@.messages, id@)
                    ==> e@ == "Too many messages in conversation"@ && old(self)@.count(
                    conversation_id@,
                ) == u64::MAX
            },
    {
        let p = self.find_conversation(conversation_id.as_str());
        if p >= self.conversation.len() {
            return Err("Conversation not found".to_owned());
        }
        if self.contains_message(id.as_str()) {
            return Err("Message already exists".to_owned());
        }
        let count = self.count_messages(conversation_id.as_str());
        if count as u64 == u64::MAX {
            return Err("Too many messages in conversation".to_owned());
        }
        let ghost before = self@;
        let sequence_number = count as u64 + 1;
        let m = Message { id, conversation_id, sequence_number, text, sender, timestamp };
        proof {
            lemma_find_conv(before.conversations, m.conversation_id@);
            lemma_numbered_push(before.messages, m@);
        }
        self.message.push(m);
        proof {
            let after = self@;
            assert(after.messages =~= before.messages.push(m@));
            assert(after.conversations =~= before.conversations);
            assert forall|i: int, j: int| 0 <= i < j < after.messages.len() implies after.messages[i].id
                != after.messages[j].id by {
                if j == before.messages.len() {
                    assert(after.messages[i] == before.messages[i]);
                }
            }
            assert forall|i: int| 0 <= i < after.messages.len() implies has_conversation(
                after.conversations,
                #[trigger] after.messages[i].conversation_id,
            ) by {
                if i < before.messages.len() {
                    assert(after.messages[i] == before.messages[i]);
                }
            }
        }
        Ok(())
    }

    /// Deletes the conversation with key `id` and all its messages; refused when there is none.
    pub fn remove_conversation(&mut self, id: &str) -> (r: Result<(), String>)
        requires
            old(self)@.wf(),
        ensures
            final(self)@.wf(),
            final(self).drawn_keys() == old(self).drawn_keys(),
            final(self).readings() == old(self).readings(),
            r is Ok <==> old(self)@.has(id@),
            r is Ok ==> final(self)@ == old(self)@.without(id@),
            r matches Err(e) ==> final(self)@ == old(self)@ && e@ == "Conversation not found"@,
    {
        let p = self.find_conversation(id);
        if p >= self.conversation.len() {
            return Err("Conversation not found".to_owned());
        }
        let ghost before = self@;
        let wanted = id.to_owned();
        let mut kept: Vec<Message> = Vec::new();
        let mut i: usize = 0;
        while i < self.message.len()
            invariant
                i <= self.message@.len(),
                wanted@ == id@,
                self@ == before,
                message_views(kept@) == keep_others(before.messages.take(i as int), id@),
            decreases self.message@.len() - i,
        {
            proof {
                assert(before.messages.take(i + 1 as int).drop_last() =~= before.messages.take(
                    i as int,
                ));
                assert(before.messages.take(i + 1 as int).last() == before.messages[i as int]);
            }
            if self.message[i].conversation_id != wanted {
                let m = self.message[i].duplicate();
                kept.push(m);
                proof {
                    assert(message_views(kept@) =~= keep_others(
                        before.messages.take(i as int),
                        id@,
                    ).push(m@));
                }
            }
            i = i + 1;
        }
        proof {
            assert(before.messages.take(i as int) =~= before.messages);
        }
        self.message = kept;
        self.conversation.remove(p);
        proof {
            let after = self@;
            let x = id@;
            lemma_find_conv(before.conversations, x);
            assert(after.conversations =~= before.conversations.remove(p as int));
            lemma_keep_others_unique(before.messages, x);
            lemma_keep_others_members(before.messages, x);
            lemma_numbered_keep_others(before.messages, x);
            assert forall|i: int, j: int|
                0 <= i < j < after.conversations.len() implies after.conversations[i].id
                != after.conversations[j].id by {
                let a = if i < p { i } else { i + 1 };
                let b = if j < p { j } else { j + 1 };
                assert(after.conversations[i] == before.conversations[a]);
                assert(after.conversations[j] == before.conversations[b]);
            }
            assert forall|k: int| 0 <= k < after.messages.len() implies has_conversation(
                after.conversations,
                #[trigger] after.messages[k].conversation_id,
            ) by {
                let m = after.messages[k];
                let a = choose|a: int| 0 <= a < before.messages.len() && before.messages[a] == m;
                let cid = m.conversation_id;
                assert(has_conversation(before.conversations, before.messages[a].conversation_id));
                lemma_has_conversation(before.conversations, cid);
                lemma_has_conversation(after.conversations, cid);
                let j = choose|j: int|
                    0 <= j < before.conversations.len() && before.conversations[j].id == cid;
                assert(j != p);
                if j < p {
                    assert(after.conversations[j] == before.conversations[j]);
                } else {
                    assert(after.conversations[j - 1] == before.conversations[j]);
                }
            }
        }
        Ok(())
    }
}


// ---------------------------------------------------------------- the clock

/// The current time in whole seconds since the Unix epoch; `None` when the
/// system clock is set before the epoch.
pub fn get_current_timestamp() -> Option<u64> {
    match unix_time().value() {
        Some(p) => Some(p.0),
        None => None,
    }
}

// ---------------------------------------------------------------- the reducers

/// What a reducer runs with: the identity of the caller and the tables.
pub struct ReducerContext {
    pub sender: Identity,
    pub db: Database,
}

/// Takes a name and checks and returns default name if empty.
pub fn validate_convo_name(name: String) -> (result: String)
    ensures
        result@ == chat_name(name@),
{
    if name.as_str().is_empty() {
        "No Name".to_owned()
    } else {
        name
    }
}

/// `after` is `before` with one conversation appended: key `id`, name `name`,
/// created by `creator` (at whatever time the clock gave).
pub open spec fn added_conversation(
    before: DatabaseView,
    after: DatabaseView,
    id: Seq<char>,
    name: Seq<char>,
    creator: Identity,
) -> bool {
    &&& after.messages == before.messages
    &&& after.conversations.len() == before.conversations.len() + 1
    &&& after.conversations.drop_last() == before.conversations
    &&& after.conversations.last().id == id
    &&& after.conversations.last().name == name
    &&& after.conversations.last().creator == creator
}

/// `after` is `before` with one message appended to conversation `cid`: key
/// `id`, numbered one more than the messages of `cid` in `before`, text `text`,
/// sent by `sender` (at whatever time the clock gave).
pub open spec fn added_message(
    before: DatabaseView,
    after: DatabaseView,
    id: Seq<char>,
    cid: Seq<char>,
    text: Seq<char>,
    sender: Identity,
) -> bool {
    &&& after.conversations == before.conversations
    &&& after.messages.len() == before.messages.len() + 1
    &&& after.messages.drop_last() == before.messages
    &&& after.messages.last().id == id
    &&& after.messages.last().conversation_id == cid
    &&& after.messages.last().sequence_number == before.count(cid) + 1
    &&& after.messages.last().text == text
    &&& after.messages.last().sender == sender
}

/// What a call that creates a conversation named `name` for `creator` may do:
/// append it under a fresh UUID key and answer that key; or, when the clock
/// cannot be read or the key is taken, leave the tables as they were.
pub open spec fn conversation_outcome(
    before: DatabaseView,
    after: DatabaseView,
    name: Seq<char>,
    creator: Identity,
    r: Result<Seq<char>, Seq<char>>,
) -> bool {
    match r {
        Ok(id) => is_hyphenated_uuid(id) && added_conversation(before, after, id, name, creator),
        Err(e) => after == before && (e == clock_error() || e == "Conversation already exists"@),
    }
}

/// What a call that adds a message of `text` by `sender` to conversation `cid`
/// may do: append it under a fresh UUID key with the next number of `cid` and
/// answer that key; refuse with "Conversation not found" when `cid` is not
/// stored; or, when the clock cannot be read, the key is taken, or the number
/// would not fit `u64`, refuse. A refusal leaves the tables as they were.
pub open spec fn message_outcome(
    before: DatabaseView,
    after: DatabaseView,
    cid: Seq<char>,
    text: Seq<char>,
    sender: Identity,
    r: Result<Seq<char>, Seq<char>>,
) -> bool {
    match r {
        Ok(id) => {
            &&& before.has(cid)
            &&& is_hyphenated_uuid(id)
            &&& added_message(before, after, id, cid, text, sender)
        },
        Err(e) => {
            &&& after == before
            &&& if before.has(cid) {
                ||| e == clock_error()
                ||| e == "Message already exists"@
                ||| (e == "Too many messages in conversation"@ && before.count(cid) == u64::MAX)
            } else {
                e == "Conversation not found"@
            }
        },
    }
}

/// The refusals other than "Conversation not found" carry other texts.
proof fn lemma_refusal_texts_differ()
    ensures
        clock_error() != "Conversation not found"@,
        "Message already exists"@ != "Conversation not found"@,
        "Too many messages in conversation"@ != "Conversation not found"@,
{
    reveal_strlit("Conversation not found");
    reveal_strlit("System clock is set before the Unix epoch");
    reveal_strlit("Message already exists");
    reveal_strlit("Too many messages in conversation");
    assert(clock_error()[0] != "Conversation not found"@[0]);
    assert("Message already exists"@[0] != "Conversation not found"@[0]);
    assert("Too many messages in conversation"@.len() != "Conversation not found"@.len());
}

/// Law: two calls that add the same message to the same tables agree. Both
/// refuse with "Conversation not found", or neither does; when both succeed,
/// the tables they leave differ only in the new message's key and time stamp;
/// when both refuse, both leave the tables as they were.
pub proof fn lemma_message_outcomes_agree(
    before: DatabaseView,
    after1: DatabaseView,
    after2: DatabaseView,
    cid: Seq<char>,
    text: Seq<char>,
    sender: Identity,
    r1: Result<Seq<char>, Seq<char>>,
    r2: Result<Seq<char>, Seq<char>>,
)
    requires
        message_outcome(before, after1, cid, text, sender, r1),
        message_outcome(before, after2, cid, text, sender, r2),
    ensures
        (r1 matches Err(e) && e == "Conversation not found"@) <==> (r2 matches Err(e) && e
            == "Conversation not found"@),
        r1 is Ok && r2 is Ok ==> {
            &&& after1.conversations == after2.conversations
            &&& after1.messages.len() == after2.messages.len()
            &&& after1.messages.drop_last() == after2.messages.drop_last()
            &&& after1.messages.last().conversation_id == after2.messages.last().conversation_id
            &&& after1.messages.last().sequence_number == after2.messages.last().sequence_number
            &&& after1.messages.last().text == after2.messages.last().text
            &&& after1.messages.last().sender == after2.messages.last().sender
        },
        r1 is Err && r2 is Err ==> after1 == before && after2 == before,
{
    lemma_refusal_texts_differ();
}

/// Law: two calls that create the same conversation in the same tables agree:
/// when both succeed, the tables they leave differ only in the new
/// conversation's key and creation time; when both refuse, both leave the
/// tables as they were.
pub proof fn lemma_conversation_outcomes_agree(
    before: DatabaseView,
    after1: DatabaseView,
    after2: DatabaseView,
    name: Seq<char>,
    creator: Identity,
    r1: Result<Seq<char>, Seq<char>>,
    r2: Result<Seq<char>, Seq<char>>,
)
    requires
        conversation_outcome(before, after1, name, creator, r1),
        conversation_outcome(before, after2, name, creator, r2),
    ensures
        r1 is Ok && r2 is Ok ==> {
            &&& after1.messages == after2.messages
            &&& after1.conversations.len() == after2.conversations.len()
            &&& after1.conversations.drop_last() == after2.conversations.drop_last()
            &&& after1.conversations.last().name == after2.conversations.last().name
            &&& after1.conversations.last().creator == after2.conversations.last().creator
        },
        r1 is Err && r2 is Err ==> after1 == before && after2 == before,
{
}

/// The record a reducer leaves of what it drew from outside: exactly one more
/// key and one more clock reading.
pub open spec fn drew_once(
    keys_before: Seq<Seq<char>>,
    keys_after: Seq<Seq<char>>,
    readings_before: Seq<Option<(u64, u32)>>,
    readings_after: Seq<Option<(u64, u32)>>,
) -> bool {
    &&& keys_after.len() == keys_before.len() + 1
    &&& keys_after.drop_last() == keys_before
    &&& readings_after.len() == readings_before.len() + 1
    &&& readings_after.drop_last() == readings_before
}

/// The outcome of a result with no value, given the key it was made under.
pub open spec fn keyed_unit(r: Result<(), String>, key: Seq<char>) -> Result<Seq<char>, Seq<char>> {
    match r {
        Ok(()) => Ok(key),
        Err(e) => Err(e@),
    }
}

/// What creating a conversation named `name` for `creator` does, given the
/// key drawn for it and the clock reading taken: refuse when the clock cannot
/// be read, or when the key is already stored; else store the conversation
/// under that key, created at the reading's second, and answer the key.
pub open spec fn keyed_conversation_outcome(
    before: DatabaseView,
    after: DatabaseView,
    name: Seq<char>,
    creator: Identity,
    key: Seq<char>,
    reading: Option<(u64, u32)>,
    r: Result<Seq<char>, Seq<char>>,
) -> bool {
    match reading {
        None => r == Err::<Seq<char>, Seq<char>>(clock_error()) && after == before,
        Some(p) => if before.has(key) {
            r == Err::<Seq<char>, Seq<char>>("Conversation already exists"@) && after == before
        } else {
            &&& r == Ok::<Seq<char>, Seq<char>>(key)
            &&& after == DatabaseView {
                conversations: before.conversations.push(
                    ConversationView { id: key, name, creator, created_at: p.0 },
                ),
                messages: before.messages,
            }
        },
    }
}

fn insert_new_conversation(
    ctx: &mut ReducerContext,
    name: String,
    key: String,
    reading: Option<(u64, u32)>,
) -> (r: Result<(), String>)
    requires
        old(ctx).db@.wf(),
    ensures
        final(ctx).db@.wf(),
        final(ctx).sender == old(ctx).sender,
        final(ctx).db.drawn_keys() == old(ctx).db.drawn_keys(),
        final(ctx).db.readings() == old(ctx).db.readings(),
        keyed_conversation_outcome(
            old(ctx).db@,
            final(ctx).db@,
            name@,
            old(ctx).sender,
            key@,
            reading,
            keyed_unit(r, key@),
        ),
{
    let created_at = match reading {
        Some(p) => p.0,
        None => return Err("System clock is set before the Unix epoch".to_owned()),
    };
    let c = Conversation { id: key, name, creator: ctx.sender, created_at };
    ctx.db.insert_conversation(c)
}

/// Creates a conversation named `name` (or "No Name"), created by the caller,
/// under a fresh UUID key, and returns the key. Fails, leaving the tables as
/// they were, only when the clock cannot be read or the key drawn is already
/// stored; the names stored play no part.
pub fn create_conversation_with_id(ctx: &mut ReducerContext, name: String) -> (r: Result<
    String,
    String,
>)
    requires
        old(ctx).db@.wf(),
    ensures
        final(ctx).db@.wf(),
        final(ctx).sender == old(ctx).sender,
        drew_once(
            old(ctx).db.drawn_keys(),
            final(ctx).db.drawn_keys(),
            old(ctx).db.readings(),
            final(ctx).db.readings(),
        ),
        is_hyphenated_uuid(final(ctx).db.drawn_keys().last()),
        keyed_conversation_outcome(
            old(ctx).db@,
            final(ctx).db@,
            chat_name(name@),
            old(ctx).sender,
            final(ctx).db.drawn_keys().last(),
            final(ctx).db.readings().last(),
            result_text(r),
        ),
        conversation_outcome(
            old(ctx).db@,
            final(ctx).db@,
            chat_name(name@),
            old(ctx).sender,
            result_text(r),
        ),
{
    let name = validate_convo_name(name);
    let key = new_uuid_string();
    let clock = unix_time();
    ctx.db.keys_drawn = Ghost(ctx.db.keys_drawn@.push(key));
    ctx.db.clock_readings = Ghost(ctx.db.clock_readings@.push(clock));
    let conversation_id = key.into_string();
    let reading = clock.value();
    let ghost before = ctx.db@;
    let ghost keys = ctx.db.drawn_keys();
    let ghost readings = ctx.db.readings();
    proof {
        assert(keys.drop_last() =~= old(ctx).db.drawn_keys());
        assert(readings.drop_last() =~= old(ctx).db.readings());
    }
    match insert_new_conversation(ctx, name, conversation_id.clone(), reading) {
        Ok(()) => {
            proof {
                assert(ctx.db@.conversations.drop_last() =~= before.conversations);
            }
            Ok(conversation_id)
        },
        Err(e) => Err(e),
    }
}

/// Creates a conversation named `name` (or "No Name"), created by the caller.
pub fn create_conversation(ctx: &mut ReducerContext, name: String) -> (r: Result<(), String>)
    requires
        old(ctx).db@.wf(),
    ensures
        final(ctx).db@.wf(),
        final(ctx).sender == old(ctx).sender,
        drew_once(
            old(ctx).db.drawn_keys(),
            final(ctx).db.drawn_keys(),
            old(ctx).db.readings(),
            final(ctx).db.readings(),
        ),
        is_hyphenated_uuid(final(ctx).db.drawn_keys().last()),
        keyed_conversation_outcome(
            old(ctx).db@,
            final(ctx).db@,
            chat_name(name@),
            old(ctx).sender,
            final(ctx).db.drawn_keys().last(),
            final(ctx).db.readings().last(),
            keyed_unit(r, final(ctx).db.drawn_keys().last()),
        ),
        r is Ok ==> exists|id: Seq<char>|
            conversation_outcome(
                old(ctx).db@,
                final(ctx).db@,
                chat_name(name@),
                old(ctx).sender,
                Ok(id),
            ),
        r matches Err(e) ==> conversation_outcome(
            old(ctx).db@,
            final(ctx).db@,
            chat_name(name@),
            old(ctx).sender,
            Err(e@),
        ),
{
    match create_conversation_with_id(ctx, name) {
        Ok(_) => Ok(()),
        Err(e) => Err(e),
    }
}

/// Renames the conversation `conversation_id` to `name` (or "No Name").
pub fn set_conversation_name(ctx: &mut ReducerContext, conversation_id: String, name: String) -> (r:
    Result<(), String>)
    requires
        old(ctx).db@.wf(),
    ensures
        final(ctx).db@.wf(),
        final(ctx).sender == old(ctx).sender,
        r is Ok <==> old(ctx).db@.has(conversation_id@),
        r is Ok ==> final(ctx).db@ == old(ctx).db@.renamed(conversation_id@, chat_name(name@)),
        r matches Err(e) ==> final(ctx).db@ == old(ctx).db@ && e@ == "Conversation not found"@,
{
    let name = validate_convo_name(name);
    ctx.db.rename_conversation(conversation_id.as_str(), name)
}

/// What adding a message of `text` by `sender` to stored conversation `cid`
/// does, given the key drawn for it and the clock reading taken: refuse when
/// the clock cannot be read, when the key is already stored, or when the
/// conversation's count is full; else store the message under that key,
/// numbered one more than the conversation's messages, stamped with the
/// reading's second, and answer the key.
pub open spec fn keyed_message_outcome(
    before: DatabaseView,
    after: DatabaseView,
    cid: Seq<char>,
    text: Seq<char>,
    sender: Identity,
    key: Seq<char>,
    reading: Option<(u64, u32)>,
    r: Result<Seq<char>, Seq<char>>,
) -> bool {
    match reading {
        None => r == Err::<Seq<char>, Seq<char>>(clock_error()) && after == before,
        Some(p) => if has_message(before.messages, key) {
            r == Err::<Seq<char>, Seq<char>>("Message already exists"@) && after == before
        } else if before.count(cid) == u64::MAX {
            r == Err::<Seq<char>, Seq<char>>("Too many messages in conversation"@) && after
                == before
        } else {
            &&& r == Ok::<Seq<char>, Seq<char>>(key)
            &&& after == DatabaseView {
                conversations: before.conversations,
                messages: before.messages.push(
                    MessageView {
                        id: key,
                        conversation_id: cid,
                        sequence_number: (before.count(cid) + 1) as u64,
                        text,
                        sender,
                        timestamp: p.0,
                    },
                ),
            }
        },
    }
}

fn insert_new_message(
    ctx: &mut ReducerContext,
    conversation_id: String,
    text: String,
    key: String,
    reading: Option<(u64, u32)>,
) -> (r: Result<(), String>)
    requires
        old(ctx).db@.wf(),
        old(ctx).db@.has(conversation_id@),
    ensures
        final(ctx).db@.wf(),
        final(ctx).sender == old(ctx).sender,
        final(ctx).db.drawn_keys() == old(ctx).db.drawn_keys(),
        final(ctx).db.readings() == old(ctx).db.readings(),
        keyed_message_outcome(
            old(ctx).db@,
            final(ctx).db@,
            conversation_id@,
            text@,
            old(ctx).sender,
            key@,
            reading,
            keyed_unit(r, key@),
        ),
{
    let timestamp = match reading {
        Some(p) => p.0,
        None => return Err("System clock is set before the Unix epoch".to_owned()),
    };
    ctx.db.insert_message(key, conversation_id, text, ctx.sender, timestamp)
}

/// Adds a message of `text` by the caller to conversation `conversation_id`,
/// under a fresh UUID key, numbered one more than the messages of that
/// conversation so far, and returns the key. A missing conversation is
/// refused before anything is drawn; otherwise the text plays no part in
/// whether the message is stored.
pub fn add_message_with_id(ctx: &mut ReducerContext, conversation_id: String, text: String) -> (r:
    Result<String, String>)
    requires
        old(ctx).db@.wf(),
    ensures
        final(ctx).db@.wf(),
        final(ctx).sender == old(ctx).sender,
        (r matches Err(e) && e@ == "Conversation not found"@) <==> !old(ctx).db@.has(
            conversation_id@,
        ),
        !old(ctx).db@.has(conversation_id@) ==> {
            &&& final(ctx).db.drawn_keys() == old(ctx).db.drawn_keys()
            &&& final(ctx).db.readings() == old(ctx).db.readings()
        },
        old(ctx).db@.has(conversation_id@) ==> {
            &&& drew_once(
                old(ctx).db.drawn_keys(),
                final(ctx).db.drawn_keys(),
                old(ctx).db.readings(),
                final(ctx).db.readings(),
            )
            &&& is_hyphenated_uuid(final(ctx).db.drawn_keys().last())
            &&& keyed_message_outcome(
                old(ctx).db@,
                final(ctx).db@,
                conversation_id@,
                text@,
                old(ctx).sender,
                final(ctx).db.drawn_keys().last(),
                final(ctx).db.readings().last(),
                result_text(r),
            )
        },
        message_outcome(
            old(ctx).db@,
            final(ctx).db@,
            conversation_id@,
            text@,
            old(ctx).sender,
            result_text(r),
        ),
{
    let p = ctx.db.find_conversation(conversation_id.as_str());
    if p >= ctx.db.conversations().len() {
        return Err("Conversation not found".to_owned());
    }
    let key = new_uuid_string();
    let clock = unix_time();
    ctx.db.keys_drawn = Ghost(ctx.db.keys_drawn@.push(key));
    ctx.db.clock_readings = Ghost(ctx.db.clock_readings@.push(clock));
    let message_id = key.into_string();
    let reading = clock.value();
    let ghost before = ctx.db@;
    let ghost keys = ctx.db.drawn_keys();
    let ghost readings = ctx.db.readings();
    proof {
        assert(keys.drop_last() =~= old(ctx).db.drawn_keys());
        assert(readings.drop_last() =~= old(ctx).db.readings());
        lemma_refusal_texts_differ();
        lemma_find_conv(before.conversations, conversation_id@);
    }
    match insert_new_message(ctx, conversation_id, text, message_id.clone(), reading) {
        Ok(()) => {
            proof {
                assert(ctx.db@.messages.drop_last() =~= before.messages);
            }
            Ok(message_id)
        },
        Err(e) => Err(e),
    }
}

/// Adds a message of `text` by the caller to conversation `conversation_id`.
pub fn add_message(ctx: &mut ReducerContext, conversation_id: String, text: String) -> (r: Result<
    (),
    String,
>)
    requires
        old(ctx).db@.wf(),
    ensures
        final(ctx).db@.wf(),
        final(ctx).sender == old(ctx).sender,
        (r matches Err(e) && e@ == "Conversation not found"@) <==> !old(ctx).db@.has(
            conversation_id@,
        ),
        !old(ctx).db@.has(conversation_id@) ==> {
            &&& final(ctx).db.drawn_keys() == old(ctx).db.drawn_keys()
            &&& final(ctx).db.readings() == old(ctx).db.readings()
        },
        old(ctx).db@.has(conversation_id@) ==> {
            &&& drew_once(
                old(ctx).db.drawn_keys(),
                final(ctx).db.drawn_keys(),
                old(ctx).db.readings(),
                final(ctx).db.readings(),
            )
            &&& is_hyphenated_uuid(final(ctx).db.drawn_keys().last())
            &&& keyed_message_outcome(
                old(ctx).db@,
                final(ctx).db@,
                conversation_id@,
                text@,
                old(ctx).sender,
                final(ctx).db.drawn_keys().last(),
                final(ctx).db.readings().last(),
                keyed_unit(r, final(ctx).db.drawn_keys().last()),
            )
        },
        r is Ok ==> exists|id: Seq<char>|
            message_outcome(
                old(ctx).db@,
                final(ctx).db@,
                conversation_id@,
                text@,
                old(ctx).sender,
                Ok(id),
            ),
        r matches Err(e) ==> message_outcome(
            old(ctx).db@,
            final(ctx).db@,
            conversation_id@,
            text@,
            old(ctx).sender,
            Err(e@),
        ),
{
    proof {
        lemma_refusal_texts_differ();
    }
    match add_message_with_id(ctx, conversation_id, text) {
        Ok(_) => Ok(()),
        Err(e) => Err(e),
    }
}

/// Law: the text of a message never decides whether it is stored. Two adds
/// to the same tables that draw the same key and the same clock reading, with
/// any two texts, are both stored or both refused with the same error.
pub proof fn lemma_message_text_never_decides(
    before: DatabaseView,
    after1: DatabaseView,
    after2: DatabaseView,
    cid: Seq<char>,
    text1: Seq<char>,
    text2: Seq<char>,
    sender: Identity,
    key: Seq<char>,
    reading: Option<(u64, u32)>,
    r1: Result<Seq<char>, Seq<char>>,
    r2: Result<Seq<char>, Seq<char>>,
)
    requires
        keyed_message_outcome(before, after1, cid, text1, sender, key, reading, r1),
        keyed_message_outcome(before, after2, cid, text2, sender, key, reading, r2),
    ensures
        r1 == r2,
        after1.conversations == after2.conversations,
        after1.messages.len() == after2.messages.len(),
{
}

/// Law: with a readable clock, a key that no stored message has, and room in
/// the count, a message is stored under that key, numbered one more than its
/// conversation's messages, whatever its text and whatever the texts already
/// stored (a repeated text included).
pub proof fn lemma_fresh_message_is_stored(
    before: DatabaseView,
    after: DatabaseView,
    cid: Seq<char>,
    text: Seq<char>,
    sender: Identity,
    key: Seq<char>,
    p: (u64, u32),
    r: Result<Seq<char>, Seq<char>>,
)
    requires
        !has_message(before.messages, key),
        before.count(cid) < u64::MAX,
        keyed_message_outcome(before, after, cid, text, sender, key, Some(p), r),
    ensures
        r == Ok::<Seq<char>, Seq<char>>(key),
        after.messages.len() == before.messages.len() + 1,
        after.messages.drop_last() == before.messages,
        after.messages.last().id == key,
        after.messages.last().conversation_id == cid,
        after.messages.last().text == text,
        after.messages.last().sequence_number == before.count(cid) + 1,
        after.count(cid) == before.count(cid) + 1,
{
    assert(after.messages.drop_last() =~= before.messages);
    lemma_count_push(before.messages, after.messages.last(), cid);
}

/// Law: a refusal with "Message already exists" happens only when the key
/// drawn for the new message is already stored.
pub proof fn lemma_message_exists_only_on_taken_key(
    before: DatabaseView,
    after: DatabaseView,
    cid: Seq<char>,
    text: Seq<char>,
    sender: Identity,
    key: Seq<char>,
    reading: Option<(u64, u32)>,
    r: Result<Seq<char>, Seq<char>>,
)
    requires
        keyed_message_outcome(before, after, cid, text, sender, key, reading, r),
        r == Err::<Seq<char>, Seq<char>>("Message already exists"@),
    ensures
        has_message(before.messages, key),
        after == before,
{
    reveal_strlit("Message already exists");
    reveal_strlit("Too many messages in conversation");
    reveal_strlit("System clock is set before the Unix epoch");
    assert("Message already exists"@[0] != clock_error()[0]);
    assert("Message already exists"@.len() != "Too many messages in conversation"@.len());
}

/// Law: the name of a conversation never decides whether it is created. Two
/// creations in the same tables that draw the same key and the same clock
/// reading, with any two names, are both stored or both refused alike.
pub proof fn lemma_conversation_name_never_decides(
    before: DatabaseView,
    after1: DatabaseView,
    after2: DatabaseView,
    name1: Seq<char>,
    name2: Seq<char>,
    creator: Identity,
    key: Seq<char>,
    reading: Option<(u64, u32)>,
    r1: Result<Seq<char>, Seq<char>>,
    r2: Result<Seq<char>, Seq<char>>,
)
    requires
        keyed_conversation_outcome(before, after1, name1, creator, key, reading, r1),
        keyed_conversation_outcome(before, after2, name2, creator, key, reading, r2),
    ensures
        r1 == r2,
        after1.messages == after2.messages,
        after1.conversations.len() == after2.conversations.len(),
{
}

/// Law: with a readable clock and a key that no stored conversation has, a
/// conversation is created under that key with the name given, whatever the
/// names already stored (the same name included).
pub proof fn lemma_fresh_conversation_is_stored(
    before: DatabaseView,
    after: DatabaseView,
    name: Seq<char>,
    creator: Identity,
    key: Seq<char>,
    p: (u64, u32),
    r: Result<Seq<char>, Seq<char>>,
)
    requires
        before.wf(),
        !before.has(key),
        keyed_conversation_outcome(before, after, name, creator, key, Some(p), r),
    ensures
        r == Ok::<Seq<char>, Seq<char>>(key),
        after.messages == before.messages,
        after.conversations.len() == before.conversations.len() + 1,
        after.conversations.drop_last() == before.conversations,
        after.conversations.last().id == key,
        after.conversations.last().name == name,
        after.conversations.last().creator == creator,
{
    assert(after.conversations.drop_last() =~= before.conversations);
}

/// Law: a refusal with "Conversation already exists" happens only when the key
/// drawn for the new conversation is already stored.
pub proof fn lemma_conversation_exists_only_on_taken_key(
    before: DatabaseView,
    after: DatabaseView,
    name: Seq<char>,
    creator: Identity,
    key: Seq<char>,
    reading: Option<(u64, u32)>,
    r: Result<Seq<char>, Seq<char>>,
)
    requires
        keyed_conversation_outcome(before, after, name, creator, key, reading, r),
        r == Err::<Seq<char>, Seq<char>>("Conversation already exists"@),
    ensures
        before.has(key),
        after == before,
{
    reveal_strlit("Conversation already exists");
    reveal_strlit("System clock is set before the Unix epoch");
    assert("Conversation already exists"@[0] != clock_error()[0]);
}

/// Deletes the conversation `conversation_id` and all its messages.
pub fn delete_conversation(ctx: &mut ReducerContext, conversation_id: String) -> (r: Result<
    (),
    String,
>)
    requires
        old(ctx).db@.wf(),
    ensures
        final(ctx).db@.wf(),
        final(ctx).sender == old(ctx).sender,
        r is Ok <==> old(ctx).db@.has(conversation_id@),
        r is Ok ==> final(ctx).db@ == old(ctx).db@.without(conversation_id@),
        r matches Err(e) ==> final(ctx).db@ == old(ctx).db@ && e@ == "Conversation not found"@,
{
    ctx.db.remove_conversation(conversation_id.as_str())
}


// ---------------------------------------------------------------- laws

/// Law: after a conversation is deleted, it is no longer found, none of its
/// messages is left, and every other conversation keeps all its messages.
pub proof fn lemma_delete_removes_exactly(db: DatabaseView, id: Seq<char>, other: Seq<char>)
    requires
        db.wf(),
        db.has(id),
        other != id,
    ensures
        !db.without(id).has(id),
        db.without(id).count(id) == 0,
        db.without(id).count(other) == db.count(other),
        db.without(id).has(other) == db.has(other),
{
    let cs = db.conversations;
    let p = db.pos(id);
    lemma_find_conv(cs, id);
    let after = cs.remove(p);
    lemma_has_conversation(after, id);
    if db.without(id).has(id) {
        let j = choose|j: int| 0 <= j < after.len() && after[j].id == id;
        if j < p {
            assert(after[j] == cs[j]);
        } else {
            assert(after[j] == cs[j + 1]);
        }
    }
    lemma_count_none(db.messages, id);
    lemma_count_others(db.messages, id, other);
    lemma_has_conversation(cs, other);
    lemma_has_conversation(after, other);
    if db.has(other) {
        let j = choose|j: int| 0 <= j < cs.len() && cs[j].id == other;
        if j < p {
            assert(after[j] == cs[j]);
        } else {
            assert(after[j - 1] == cs[j]);
        }
    }
    if db.without(id).has(other) {
        let j = choose|j: int| 0 <= j < after.len() && after[j].id == other;
        if j < p {
            assert(after[j] == cs[j]);
        } else {
            assert(after[j] == cs[j + 1]);
        }
    }
}

proof fn lemma_count_none(ms: Seq<MessageView>, x: Seq<char>)
    ensures
        count_in(keep_others(ms, x), x) == 0,
    decreases ms.len(),
{
    if ms.len() > 0 {
        lemma_count_none(ms.drop_last(), x);
        if ms.last().conversation_id != x {
            lemma_count_push(keep_others(ms.drop_last(), x), ms.last(), x);
        }
    }
}

/// Law: after a conversation is renamed, it is found under its key with the
/// new name and everything else it held; every other key finds what it found before.
pub proof fn lemma_rename_then_find(db: DatabaseView, id: Seq<char>, name: Seq<char>, other: Seq<char>)
    requires
        db.wf(),
        db.has(id),
        other != id,
    ensures
        db.renamed(id, name).find(id) == Some(
            ConversationView { name, ..db.find(id)->0 },
        ),
        db.renamed(id, name).find(other) == db.find(other),
{
    let cs = db.conversations;
    let p = db.pos(id);
    lemma_find_conv(cs, id);
    let after = db.renamed(id, name).conversations;
    assert forall|j: int| 0 <= j < p implies after[j].id != id by {
        assert(after[j] == cs[j]);
    }
    lemma_find_conv_at(after, id, p);
    let q = find_conv(cs, other) as int;
    lemma_find_conv(cs, other);
    assert forall|j: int| 0 <= j < q implies after[j].id != other by {
        if j != p {
            assert(after[j] == cs[j]);
        }
    }
    if q < cs.len() {
        assert(q != p);
        assert(after[q] == cs[q]);
    }
    lemma_find_conv_at(after, other, q);
}

/// Law: a conversation just created is found under its key, as created; the
/// keys stored before find what they found before.
pub proof fn lemma_created_then_find(
    before: DatabaseView,
    after: DatabaseView,
    id: Seq<char>,
    name: Seq<char>,
    creator: Identity,
    other: Seq<char>,
)
    requires
        before.wf(),
        after.wf(),
        added_conversation(before, after, id, name, creator),
        other != id,
    ensures
        after.find(id) == Some(after.conversations.last()),
        after.find(id)->0.name == name,
        after.find(id)->0.creator == creator,
        after.find(other) == before.find(other),
{
    let cs = before.conversations;
    let ac = after.conversations;
    let n = cs.len() as int;
    assert forall|j: int| 0 <= j < n implies ac[j] == cs[j] by {
        assert(ac.drop_last()[j] == ac[j]);
    }
    assert forall|j: int| 0 <= j < n implies ac[j].id != id by {
        assert(ac[j].id != ac[n].id);
    }
    lemma_find_conv_at(ac, id, n);
    let q = find_conv(cs, other) as int;
    lemma_find_conv(cs, other);
    if q < n {
        lemma_find_conv_at(ac, other, q);
    } else {
        assert(ac[n].id != other);
        lemma_find_conv_at(ac, other, n + 1);
    }
}


/// Law: a message just added counts once more in its conversation and leaves
/// the count of every other conversation as it was; its number is the new count.
pub proof fn lemma_added_message_counts(
    before: DatabaseView,
    after: DatabaseView,
    id: Seq<char>,
    cid: Seq<char>,
    text: Seq<char>,
    sender: Identity,
    other: Seq<char>,
)
    requires
        added_message(before, after, id, cid, text, sender),
        other != cid,
    ensures
        after.count(cid) == before.count(cid) + 1,
        after.count(other) == before.count(other),
        after.messages.last().sequence_number == after.count(cid),
{
    assert(after.messages =~= before.messages.push(after.messages.last()));
    lemma_count_push(before.messages, after.messages.last(), cid);
    lemma_count_push(before.messages, after.messages.last(), other);
}

// ---------------------------------------------------------------- loading and storing rows

proof fn lemma_numbered_from_counts(ms: Seq<MessageView>)
    requires
        forall|i: int|
            0 <= i < ms.len() ==> (#[trigger] ms[i]).sequence_number == count_in(
                ms.take(i),
                ms[i].conversation_id,
            ) + 1,
    ensures
        numbered(ms),
    decreases ms.len(),
{
    if ms.len() > 0 {
        let before = ms.drop_last();
        assert forall|i: int| 0 <= i < before.len() implies (#[trigger] before[i]).sequence_number
            == count_in(before.take(i), before[i].conversation_id) + 1 by {
            assert(before[i] == ms[i]);
            assert(before.take(i) =~= ms.take(i));
        }
        lemma_numbered_from_counts(before);
        let last = ms.len() - 1;
        assert(ms[last] == ms.last());
        assert(ms.take(last) =~= before);
    }
}

fn distinct_texts(ids: &Vec<&String>) -> (r: bool)
    ensures
        r == forall|i: int, j: int| 0 <= i < j < ids@.len() ==> ids@[i]@ != ids@[j]@,
{
    let mut i: usize = 0;
    while i < ids.len()
        invariant
            i <= ids@.len(),
            forall|a: int, b: int| 0 <= a < b < i ==> ids@[a]@ != ids@[b]@,
        decreases ids@.len() - i,
    {
        let mut j: usize = 0;
        while j < i
            invariant
                j <= i < ids@.len(),
                forall|a: int| 0 <= a < j ==> ids@[a]@ != ids@[i as int]@,
            decreases i - j,
        {
            if *ids[j] == *ids[i] {
                return false;
            }
            j = j + 1;
        }
        i = i + 1;
    }
    true
}

fn conversation_keys(cs: &Vec<Conversation>) -> (ids: Vec<&String>)
    ensures
        ids@.len() == cs@.len(),
        forall|k: int| 0 <= k < cs@.len() ==> #[trigger] ids@[k]@ == cs@[k].id@,
{
    let mut ids: Vec<&String> = Vec::new();
    let mut i: usize = 0;
    while i < cs.len()
        invariant
            i <= cs@.len(),
            ids@.len() == i,
            forall|k: int| 0 <= k < i ==> #[trigger] ids@[k]@ == cs@[k].id@,
        decreases cs@.len() - i,
    {
        ids.push(&cs[i].id);
        i = i + 1;
    }
    ids
}

fn message_keys(ms: &Vec<Message>) -> (ids: Vec<&String>)
    ensures
        ids@.len() == ms@.len(),
        forall|k: int| 0 <= k < ms@.len() ==> #[trigger] ids@[k]@ == ms@[k].id@,
{
    let mut ids: Vec<&String> = Vec::new();
    let mut i: usize = 0;
    while i < ms.len()
        invariant
            i <= ms@.len(),
            ids@.len() == i,
            forall|k: int| 0 <= k < i ==> #[trigger] ids@[k]@ == ms@[k].id@,
        decreases ms@.len() - i,
    {
        ids.push(&ms[i].id);
        i = i + 1;
    }
    ids
}

fn conversation_listed(cs: &Vec<Conversation>, id: &String) -> (r: bool)
    ensures
        r == exists|j: int| 0 <= j < cs@.len() && cs@[j].id@ == id@,
{
    let mut j: usize = 0;
    while j < cs.len()
        invariant
            j <= cs@.len(),
            forall|a: int| 0 <= a < j ==> cs@[a].id@ != id@,
        decreases cs@.len() - j,
    {
        if cs[j].id == *id {
            return true;
        }
        j = j + 1;
    }
    false
}

fn earlier_in_conversation(ms: &Vec<Message>, i: usize) -> (n: usize)
    requires
        i < ms@.len(),
    ensures
        n == count_in(message_views(ms@).take(i as int), ms@[i as int].conversation_id@),
        n <= i,
{
    let ghost v = message_views(ms@);
    let ghost c = ms@[i as int].conversation_id@;
    let mut n: usize = 0;
    let mut j: usize = 0;
    while j < i
        invariant
            j <= i < ms@.len(),
            v == message_views(ms@),
            c == ms@[i as int].conversation_id@,
            n == count_in(v.take(j as int), c),
            n <= j,
        decreases i - j,
    {
        proof {
            assert(v.take(j + 1 as int).drop_last() =~= v.take(j as int));
            assert(v.take(j + 1 as int).last() == v[j as int]);
        }
        if ms[j].conversation_id == ms[i].conversation_id {
            n = n + 1;
        }
        j = j + 1;
    }
    n
}

impl Database {
    /// Tables holding the given rows, in that order; `None` when the rows
    /// break the store's invariant (a key used twice, a message of a
    /// conversation that is not stored, or a message misnumbered).
    pub fn from_rows(conversations: Vec<Conversation>, messages: Vec<Message>) -> (r: Option<
        Database,
    >)
        ensures
            r is Some <==> (DatabaseView {
                conversations: conversation_views(conversations@),
                messages: message_views(messages@),
            }).wf(),
            r matches Some(db) ==> db@ == (DatabaseView {
                conversations: conversation_views(conversations@),
                messages: message_views(messages@),
            }),
    {
        let ghost v = DatabaseView {
            conversations: conversation_views(conversations@),
            messages: message_views(messages@),
        };
        let ckeys = conversation_keys(&conversations);
        let mkeys = message_keys(&messages);
        let unique_c = distinct_texts(&ckeys);
        let unique_m = distinct_texts(&mkeys);
        if !unique_c || !unique_m {
            proof {
                if !unique_c {
                    let (a, b) = choose|a: int, b: int|
                        0 <= a < b < ckeys@.len() && ckeys@[a]@ == ckeys@[b]@;
                    assert(v.conversations[a].id == ckeys@[a]@);
                    assert(v.conversations[b].id == ckeys@[b]@);
                } else {
                    let (a, b) = choose|a: int, b: int|
                        0 <= a < b < mkeys@.len() && mkeys@[a]@ == mkeys@[b]@;
                    assert(v.messages[a].id == mkeys@[a]@);
                    assert(v.messages[b].id == mkeys@[b]@);
                }
            }
            return None;
        }
        proof {
            assert forall|a: int, b: int|
                0 <= a < b < v.conversations.len() implies v.conversations[a].id
                != v.conversations[b].id by {
                assert(v.conversations[a].id == ckeys@[a]@);
                assert(v.conversations[b].id == ckeys@[b]@);
            }
            assert forall|a: int, b: int| 0 <= a < b < v.messages.len() implies v.messages[a].id
                != v.messages[b].id by {
                assert(v.messages[a].id == mkeys@[a]@);
                assert(v.messages[b].id == mkeys@[b]@);
            }
        }
        let mut i: usize = 0;
        while i < messages.len()
            invariant
                i <= messages@.len(),
                v == (DatabaseView {
                    conversations: conversation_views(conversations@),
                    messages: message_views(messages@),
                }),
                forall|a: int, b: int|
                    0 <= a < b < v.conversations.len() ==> v.conversations[a].id
                        != v.conversations[b].id,
                forall|a: int, b: int|
                    0 <= a < b < v.messages.len() ==> v.messages[a].id != v.messages[b].id,
                forall|k: int|
                    0 <= k < i ==> has_conversation(
                        v.conversations,
                        #[trigger] v.messages[k].conversation_id,
                    ),
                forall|k: int|
                    0 <= k < i ==> (#[trigger] v.messages[k]).sequence_number == count_in(
                        v.messages.take(k),
                        v.messages[k].conversation_id,
                    ) + 1,
            decreases messages@.len() - i,
        {
            let listed = conversation_listed(&conversations, &messages[i].conversation_id);
            proof {
                lemma_has_conversation(v.conversations, v.messages[i as int].conversation_id);
                if listed {
                    let j = choose|j: int|
                        0 <= j < conversations@.len() && conversations@[j].id@
                            == messages@[i as int].conversation_id@;
                    assert(v.conversations[j].id == v.messages[i as int].conversation_id);
                } else {
                    assert forall|j: int| 0 <= j < v.conversations.len() implies v.conversations[j].id
                        != v.messages[i as int].conversation_id by {
                        assert(v.conversations[j].id == conversations@[j].id@);
                    }
                }
            }
            if !listed {
                return None;
            }
            let n = earlier_in_conversation(&messages, i);
            let seq_no = messages[i].sequence_number;
            if !(seq_no >= 1 && seq_no - 1 == n as u64) {
                proof {
                    if v.wf() {
                        lemma_numbered_take(v.messages, i as int);
                    }
                }
                return None;
            }
            i = i + 1;
        }
        proof {
            lemma_numbered_from_counts(v.messages);
        }
        Some(
            Database {
                conversation: conversations,
                message: messages,
                keys_drawn: Ghost(Seq::empty()),
                clock_readings: Ghost(Seq::empty()),
            },
        )
    }

    /// The rows of both tables, in order.
    pub fn into_rows(self) -> (r: (Vec<Conversation>, Vec<Message>))
        ensures
            conversation_views(r.0@) == self@.conversations,
            message_views(r.1@) == self@.messages,
    {
        (self.conversation, self.message)
    }
}

} // verus!
