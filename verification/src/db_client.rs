//! The client side of the SpacetimeDB store, as a simulation: a connection
//! that is set up once, and queries that answer with fixed rows.
use vstd::prelude::*;
use std::sync::Arc;
use crate::clock::clock_error;
use crate::db_schema::{Conversation, Identity, Message, get_current_timestamp};
use crate::ids::{is_hyphenated_uuid, new_uuid_string};

verus! {

/// Mock connection type for simulation.
#[derive(Debug)]
pub struct MockConnection;

/// The client slot: empty until the connection is set up.
pub struct ClientState {
    client: Option<Arc<MockConnection>>,
}

impl ClientState {
    /// Whether the connection has been set up.
    pub closed spec fn is_initialized(&self) -> bool {
        self.client is Some
    }

    /// A slot with no connection yet.
    pub fn new() -> (s: ClientState)
        ensures
            !s.is_initialized(),
    {
        ClientState { client: None }
    }

    /// Whether the connection has been set up.
    pub fn initialized(&self) -> (r: bool)
        ensures
            r == self.is_initialized(),
    {
        self.client.is_some()
    }
}

/// Sets up the connection: the simulation stores a mock connection.
pub fn init_connection(state: &mut ClientState)
    ensures
        final(state).is_initialized(),
{
    state.client = Some(Arc::new(MockConnection));
}

/// Initialize the database client: the connection is set up on the first call
/// only; later calls leave it as it is.
pub fn init_database(state: &mut ClientState) -> (r: Result<(), String>)
    ensures
        r is Ok,
        final(state).is_initialized(),
        old(state).is_initialized() ==> *final(state) == *old(state),
{
    if !state.initialized() {
        init_connection(state);
    }
    Ok(())
}

/// The client instance; the slot must have been initialized.
pub fn get_client(state: &ClientState) -> Arc<MockConnection>
    requires
        state.is_initialized(),
{
    match &state.client {
        Some(c) => c.clone(),
        None => {
            proof {
                assert(false);
            }
            Arc::new(MockConnection)
        },
    }
}

/// Whether `id` is the zero identity, the one that SpacetimeDB's
/// `Identity::__dummy` gives.
pub open spec fn is_zero_identity(id: Identity) -> bool {
    forall|i: int| 0 <= i < 32 ==> #[trigger] id.le_bytes@[i] == 0u8
}

/// The identity that stands for the sender in simulated rows: the zero identity.
pub fn dummy_identity() -> (r: Identity)
    ensures
        is_zero_identity(r),
{
    Identity { le_bytes: [0u8; 32] }
}

/// Query all conversations: the simulation answers with one conversation, key
/// `"1"`, named `"General Chat"`, created now. Fails only when the clock
/// cannot be read.
pub fn query_conversations() -> (r: Result<Vec<Conversation>, String>)
    ensures
        match r {
            Ok(v) => {
                &&& v@.len() == 1
                &&& v@[0].id@ == "1"@
                &&& v@[0].name@ == "General Chat"@
                &&& is_zero_identity(v@[0].creator)
            },
            Err(e) => e@ == clock_error(),
        },
{
    let created_at = match get_current_timestamp() {
        Some(t) => t,
        None => return Err("System clock is set before the Unix epoch".to_owned()),
    };
    let mut v: Vec<Conversation> = Vec::new();
    v.push(
        Conversation {
            id: "1".to_owned(),
            name: "General Chat".to_owned(),
            creator: dummy_identity(),
            created_at,
        },
    );
    Ok(v)
}

/// Query the messages of a conversation: the simulation answers with one
/// message, key `"1"`, number 1, text `"Welcome to the chat!"`, sent now.
/// Fails only when the clock cannot be read.
pub fn query_messages(conversation_id: String) -> (r: Result<Vec<Message>, String>)
    ensures
        match r {
            Ok(v) => {
                &&& v@.len() == 1
                &&& v@[0].id@ == "1"@
                &&& v@[0].conversation_id@ == conversation_id@
                &&& v@[0].sequence_number == 1
                &&& v@[0].text@ == "Welcome to the chat!"@
                &&& is_zero_identity(v@[0].sender)
            },
            Err(e) => e@ == clock_error(),
        },
{
    let timestamp = match get_current_timestamp() {
        Some(t) => t,
        None => return Err("System clock is set before the Unix epoch".to_owned()),
    };
    let mut v: Vec<Message> = Vec::new();
    v.push(
        Message {
            id: "1".to_owned(),
            conversation_id,
            sequence_number: 1,
            text: "Welcome to the chat!".to_owned(),
            sender: dummy_identity(),
            timestamp,
        },
    );
    Ok(v)
}

/// Create a new conversation: the simulation stores nothing and answers with a
/// fresh UUID key.
pub fn create_conversation(name: String) -> (r: Result<String, String>)
    ensures
        r matches Ok(id) && is_hyphenated_uuid(id@),
{
    Ok(new_uuid_string().into_string())
}

/// Add a new message: the simulation stores nothing and answers with a fresh UUID key.
pub fn add_message(conversation_id: String, text: String) -> (r: Result<String, String>)
    ensures
        r matches Ok(id) && is_hyphenated_uuid(id@),
{
    Ok(new_uuid_string().into_string())
}

} // verus!
