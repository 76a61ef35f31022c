//! What the HTTP auth layer decides about a request: the bearer token it
//! carries, and whether a JSON-RPC tool call is refused.
use vstd::prelude::*;

use crate::auth::denial_message;
use crate::auth::missing_scope_message;
use crate::auth::scopes::required_scope;
use crate::auth::scopes::tool_required_scope;
use crate::auth::GrantedScopes;
use crate::text::chars_of;
use crate::text::range_eq;
use crate::text::str_eq;

verus! {

/// The JSON-RPC error code of a call refused for want of a scope.
pub const MISSING_SCOPE_CODE: i32 = -32001;

/// The token of an `Authorization` header value of the form
/// `Bearer <token>`.
pub open spec fn bearer_of(header: Seq<char>) -> Option<Seq<char>> {
    let p = "Bearer "@;
    if p.len() <= header.len() && header.subrange(0, p.len() as int) == p {
        Some(header.subrange(p.len() as int, header.len() as int))
    } else {
        None
    }
}

/// The bearer token that an `Authorization` header value carries.
pub fn bearer_token(header: &str) -> (r: Option<String>)
    ensures
        match r {
            Some(t) => bearer_of(header@) == Some(t@),
            None => bearer_of(header@) is None,
        },
{
    let v = chars_of(header);
    let p = chars_of("Bearer ");
    if p.len() <= v.len() && range_eq(&v, 0, p.len(), &p) {
        Some(String::from_str(header.substring_char(p.len(), v.len())))
    } else {
        None
    }
}

/// A refused tool call: the JSON-RPC error to answer with.
pub struct ToolCallDenial {
    pub code: i32,
    pub message: String,
}

/// Whether a JSON-RPC request with method `method` and tool name
/// `tool_name` is refused for the scopes `granted`: only a `tools/call`
/// of a named tool whose scope is missing is, and the message names the
/// scope and the tool.
pub open spec fn call_denied(
    method: Option<Seq<char>>,
    tool_name: Option<Seq<char>>,
    granted: Set<crate::auth::scopes::Scope>,
) -> Option<Seq<char>> {
    match (method, tool_name) {
        (Some(m), Some(t)) => if m == "tools/call"@ {
            match required_scope(t) {
                Some(s) => if granted.contains(s) {
                    None
                } else {
                    Some(denial_message(s, t))
                },
                None => None,
            }
        } else {
            None
        },
        _ => None,
    }
}

/// Decides whether a JSON-RPC request is refused: `method` is its
/// `method` member and `tool_name` the `name` member of its `params`, each
/// where it is a string.
pub fn check_tool_call_auth(method: Option<&str>, tool_name: Option<&str>, scopes: &GrantedScopes) -> (r: Option<ToolCallDenial>)
    ensures
        match r {
            Some(d) => d.code == MISSING_SCOPE_CODE && call_denied(
                crate::auth::opt_str_view(method),
                crate::auth::opt_str_view(tool_name),
                scopes@,
            ) == Some(d.message@),
            None => call_denied(
                crate::auth::opt_str_view(method),
                crate::auth::opt_str_view(tool_name),
                scopes@,
            ) is None,
        },
{
    let m = match method {
        Some(m) => m,
        None => return None,
    };
    if !str_eq(m, "tools/call") {
        return None;
    }
    let t = match tool_name {
        Some(t) => t,
        None => return None,
    };
    let required = match tool_required_scope(t) {
        Some(s) => s,
        None => return None,
    };
    if scopes.has(&required) {
        return None;
    }
    Some(ToolCallDenial { code: MISSING_SCOPE_CODE, message: missing_scope_message(required, t) })
}

/// The HTTP layer refuses a tool call exactly where the granted scopes
/// refuse the tool, and with the same message.
pub proof fn law_layer_agrees_with_check_tool(granted: Set<crate::auth::scopes::Scope>, tool: Seq<char>)
    ensures
        call_denied(Some("tools/call"@), Some(tool), granted) == match crate::auth::tool_check(
            granted,
            tool,
        ) {
            Ok(()) => None,
            Err(m) => Some(m),
        },
{
}

/// Requests that are not tool calls are never refused by the layer.
pub proof fn law_only_tool_calls_refused(
    method: Seq<char>,
    tool: Option<Seq<char>>,
    granted: Set<crate::auth::scopes::Scope>,
)
    requires
        method != "tools/call"@,
    ensures
        call_denied(Some(method), tool, granted) is None,
{
}

} // verus!
