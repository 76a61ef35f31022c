//! The MCP server's own tools.
use vstd::prelude::*;

use crate::text::join2;

verus! {

/// The answer of the `ping` tool: `pong`, followed by the message where
/// one was given.
pub fn ping_reply(message: Option<&str>) -> (r: String)
    ensures
        r@ == match message {
            Some(m) => "pong: "@ + m@,
            None => "pong"@,
        },
{
    match message {
        Some(m) => join2("pong: ", m),
        None => String::from_str("pong"),
    }
}

} // verus!
