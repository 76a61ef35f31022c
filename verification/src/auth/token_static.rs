//! The static-token rule: bearer tokens written in the configuration.
use vstd::prelude::*;

use crate::auth::scopes::parse_scopes;
use crate::auth::scopes::scopes_granted;
use crate::auth::scopes::Scope;
use crate::auth::scopes::ScopeSet;
use crate::config::AuthConfig;
use crate::config::AuthRules;
use crate::config::TokenRule;
use crate::text::str_eq;

verus! {

/// The index of the first token rule at or after `i` whose token is `bearer`.
pub open spec fn first_token_from(rules: Seq<TokenRule>, bearer: Seq<char>, i: int) -> Option<int>
    decreases rules.len() - i,
{
    if i < 0 || i >= rules.len() {
        None
    } else if rules[i].token == bearer {
        Some(i)
    } else {
        first_token_from(rules, bearer, i + 1)
    }
}

/// The scopes that the static tokens grant to `bearer`: those of the first
/// entry with that token, or `None` where no entry has it.
pub open spec fn token_grant(auth: AuthRules, bearer: Seq<char>) -> Option<Set<Scope>> {
    match first_token_from(auth.tokens, bearer, 0) {
        Some(k) => Some(scopes_granted(auth.tokens[k].scopes)),
        None => None,
    }
}

/// The scopes of the first configured token equal to `bearer`, or `None`
/// where no configured token is.
pub fn check_static_token(auth: &AuthConfig, bearer: &str) -> (r: Option<ScopeSet>)
    ensures
        r is Some <==> token_grant(auth@, bearer@) is Some,
        r matches Some(s) ==> Some(s@) == token_grant(auth@, bearer@),
{
    let ghost rules = auth@.tokens;
    let mut i: usize = 0;
    while i < auth.tokens.len()
        invariant
            i <= auth.tokens.len(),
            rules == auth@.tokens,
            first_token_from(rules, bearer@, 0) == first_token_from(rules, bearer@, i as int),
        decreases auth.tokens.len() - i,
    {
        if str_eq(auth.tokens[i].token.as_str(), bearer) {
            return Some(parse_scopes(auth.tokens[i].scopes.as_slice()));
        }
        i = i + 1;
    }
    None
}

} // verus!
