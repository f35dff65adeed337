//! Chat, message and model logic of the Focus chat application.
use vstd::prelude::*;
use crate::text::concat;

pub mod clock;
pub mod db;
pub mod db_client;
pub mod db_schema;
pub mod ids;
pub mod json;
pub mod llm;
pub mod model_manager;
pub mod text;

verus! {

/// The `test` command: the message given, behind `Message: `.
pub fn test(msg: String) -> (r: Result<String, String>)
    ensures
        r matches Ok(s) && s@ == "Message: "@ + msg@,
{
    Ok(concat("Message: ", msg.as_str()))
}

} // verus!
