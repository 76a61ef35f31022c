//! Who may call which tool: the scopes a request is granted, and the
//! order in which the auth rules are tried.
pub mod ip_whitelist;
pub mod middleware;
pub mod scopes;
pub mod token_proxy;
pub mod token_static;

use vstd::prelude::*;

use crate::config::auth_view;
use crate::config::AuthConfig;
use crate::config::AuthRules;
use crate::config::Config;
use ip_whitelist::check_whitelist;
use ip_whitelist::whitelist_grant;
use ip_whitelist::IpAddress;
use scopes::every_scope;
use scopes::parse_scopes;
use scopes::required_scope;
use scopes::scope_name;
use scopes::tool_required_scope;
use scopes::Scope;
use scopes::ScopeSet;
use token_proxy::proxy_check;
use token_proxy::ProxyCheck;
use token_proxy::ProxyCheckModel;
use token_proxy::ProxyModel;
use token_proxy::ProxyValidator;
use token_static::check_static_token;
use token_static::token_grant;

verus! {

/// The scopes that a request was granted.
#[derive(Debug, Clone, Copy)]
pub struct GrantedScopes(pub ScopeSet);

impl View for GrantedScopes {
    type V = Set<Scope>;

    open spec fn view(&self) -> Set<Scope> {
        self.0@
    }
}

/// The message that refuses `tool` for want of scope `s`.
pub open spec fn denial_message(s: Scope, tool: Seq<char>) -> Seq<char> {
    "missing scope '"@ + scope_name(s) + "' required for tool '"@ + tool + "'"@
}

/// Whether holding `granted` allows calling `tool`: a tool that no scope
/// guards is always allowed; another is allowed where its scope is held,
/// and otherwise refused with a message naming scope and tool.
pub open spec fn tool_check(granted: Set<Scope>, tool: Seq<char>) -> Result<(), Seq<char>> {
    match required_scope(tool) {
        None => Ok(()),
        Some(s) => if granted.contains(s) {
            Ok(())
        } else {
            Err(denial_message(s, tool))
        },
    }
}

/// The message refusing `tool` for want of `required`.
pub fn missing_scope_message(required: Scope, tool_name: &str) -> (r: String)
    ensures
        r@ == denial_message(required, tool_name@),
{
    let mut m = String::from_str("missing scope '");
    m.append(required.as_str());
    m.append("' required for tool '");
    m.append(tool_name);
    m.append("'");
    m
}

impl GrantedScopes {
    /// Every scope, as the wildcard grants.
    pub fn all() -> (r: GrantedScopes)
        ensures
            r@ == every_scope(),
    {
        let mut names: Vec<String> = Vec::new();
        names.push(String::from_str("*"));
        proof {
            let v = scopes::string_views(names@);
            assert(v[0] == "*"@);
            assert(v.contains("*"@));
        }
        GrantedScopes(parse_scopes(names.as_slice()))
    }

    /// No scope at all.
    pub fn none() -> (r: GrantedScopes)
        ensures
            r@ == Set::<Scope>::empty(),
    {
        GrantedScopes(ScopeSet::new())
    }

    /// Whether `scope` was granted.
    pub fn has(&self, scope: &Scope) -> (r: bool)
        ensures
            r == self@.contains(*scope),
    {
        self.0.contains(scope)
    }

    /// Whether the granted scopes allow calling `tool_name`; the error
    /// names the missing scope and the tool.
    pub fn check_tool(&self, tool_name: &str) -> (r: Result<(), String>)
        ensures
            match r {
                Ok(()) => tool_check(self@, tool_name@) is Ok,
                Err(m) => tool_check(self@, tool_name@) == Err::<(), Seq<char>>(m@),
            },
    {
        match tool_required_scope(tool_name) {
            Some(required) => {
                if self.has(&required) {
                    Ok(())
                } else {
                    Err(missing_scope_message(required, tool_name))
                }
            },
            None => Ok(()),
        }
    }
}

/// What the auth rules decide about a request before any outside check.
pub enum AuthDecision {
    /// The request holds these scopes.
    Granted(GrantedScopes),
    /// The bearer token is to be validated by the proxy rule.
    CheckProxy,
}

/// The model of [`AuthDecision`].
pub enum DecisionModel {
    Granted(Set<Scope>),
    CheckProxy,
}

impl View for AuthDecision {
    type V = DecisionModel;

    open spec fn view(&self) -> DecisionModel {
        match self {
            AuthDecision::Granted(g) => DecisionModel::Granted(g@),
            AuthDecision::CheckProxy => DecisionModel::CheckProxy,
        }
    }
}

/// The model of an auth resolver.
pub struct ResolverModel {
    pub auth: Option<AuthRules>,
    pub proxy: Option<ProxyModel>,
}

/// The rules tried in order, first match winning: no auth section grants
/// everything; then the IP whitelist; then, for a request with a bearer
/// token, the static tokens and then the proxy; anything else is granted
/// nothing.
pub open spec fn decide(m: ResolverModel, ip: IpAddress, bearer: Option<Seq<char>>) -> DecisionModel {
    match m.auth {
        None => DecisionModel::Granted(every_scope()),
        Some(a) => match whitelist_grant(a, ip) {
            Some(s) => DecisionModel::Granted(s),
            None => match bearer {
                None => DecisionModel::Granted(Set::empty()),
                Some(b) => match token_grant(a, b) {
                    Some(s) => DecisionModel::Granted(s),
                    None => if m.proxy is Some {
                        DecisionModel::CheckProxy
                    } else {
                        DecisionModel::Granted(Set::empty())
                    },
                },
            },
        },
    }
}

/// The view of an optional string.
pub open spec fn opt_str_view(s: Option<&str>) -> Option<Seq<char>> {
    match s {
        Some(x) => Some(x@),
        None => None,
    }
}

/// Resolves the scopes of requests from the configured auth rules.
pub struct AuthResolver {
    config: Option<AuthConfig>,
    proxy: Option<ProxyValidator>,
}

impl View for AuthResolver {
    type V = ResolverModel;

    closed spec fn view(&self) -> ResolverModel {
        ResolverModel {
            auth: auth_view(self.config),
            proxy: match self.proxy {
                Some(p) => Some(p@),
                None => None,
            },
        }
    }
}

impl AuthResolver {
    /// A resolver for the auth rules of `config`, whose proxy rule checks
    /// Home Assistant tokens at the configured Home Assistant URL.
    pub fn new(config: &Config) -> (r: AuthResolver)
        ensures
            r@.auth == auth_view(config.auth),
            match (r@.proxy, config.auth) {
                (None, None) => true,
                (None, Some(a)) => a.proxy is None,
                (Some(p), Some(a)) => a.proxy matches Some(pc) && p.rule == pc@
                    && p.cache.len() == 0 && p.ha_url == (match config.ha {
                    Some(h) => Some(h.url@),
                    None => None::<Seq<char>>,
                }),
                (Some(_), None) => false,
            },
    {
        let proxy = match &config.auth {
            Some(auth) => match &auth.proxy {
                Some(proxy_config) => {
                    let ha_url = match &config.ha {
                        Some(ha) => Some(ha.url.clone()),
                        None => None,
                    };
                    Some(ProxyValidator::new(proxy_config.clone(), ha_url))
                },
                None => None,
            },
            None => None,
        };
        let auth = match &config.auth {
            Some(a) => Some(a.clone()),
            None => None,
        };
        AuthResolver { config: auth, proxy }
    }

    /// What the rules decide about a request from `ip` bearing `bearer`.
    pub fn resolve(&self, ip: &IpAddress, bearer: Option<&str>) -> (r: AuthDecision)
        ensures
            r@ == decide(self@, *ip, opt_str_view(bearer)),
    {
        let auth_config = match &self.config {
            None => {
                return AuthDecision::Granted(GrantedScopes::all());
            },
            Some(a) => a,
        };
        if let Some(scopes) = check_whitelist(auth_config, ip) {
            return AuthDecision::Granted(GrantedScopes(scopes));
        }
        if let Some(b) = bearer {
            if let Some(scopes) = check_static_token(auth_config, b) {
                return AuthDecision::Granted(GrantedScopes(scopes));
            }
            if self.proxy.is_some() {
                return AuthDecision::CheckProxy;
            }
        }
        AuthDecision::Granted(GrantedScopes::none())
    }

    /// The first half of the proxy rule for `bearer` at `now`; where no
    /// proxy is configured the token is rejected.
    pub fn proxy_validate(&self, bearer: &str, now: u64) -> (r: ProxyCheck)
        ensures
            r@ == match self@.proxy {
                Some(p) => proxy_check(p, bearer@, now),
                None => ProxyCheckModel::Reject,
            },
            r@ matches ProxyCheckModel::Cached(g) ==> (self@.proxy matches Some(p) && g
                == scopes::scopes_granted(p.rule.scopes)),
            self@.proxy matches Some(p) ==> token_proxy::cache_consistent(p),
    {
        match &self.proxy {
            Some(p) => p.validate(bearer, now),
            None => ProxyCheck::Reject,
        }
    }

    /// The second half of the proxy rule: the scopes of a token whose
    /// outside check at `now` came out `valid`.
    pub fn proxy_conclude(&mut self, bearer: &str, valid: bool, now: u64) -> (r: GrantedScopes)
        requires
            old(self)@.proxy matches Some(p) ==> (valid && p.rule.cache_ttl > 0 ==> now
                + token_proxy::ttl_ms(p) <= u64::MAX),
        ensures
            final(self)@.auth == old(self)@.auth,
            final(self)@.proxy == (match old(self)@.proxy {
                Some(p) => Some(
                    ProxyModel {
                        cache: if valid && p.rule.cache_ttl > 0 {
                            token_proxy::cache_insert(
                                p.cache,
                                bearer@,
                                scopes::scopes_granted(p.rule.scopes),
                                now,
                                (now + token_proxy::ttl_ms(p)) as u64,
                            )
                        } else {
                            p.cache
                        },
                        ..p
                    },
                ),
                None => None,
            }),
            final(self)@.proxy matches Some(p) ==> token_proxy::cache_consistent(p),
            r@ == (match old(self)@.proxy {
                Some(p) => if valid {
                    scopes::scopes_granted(p.rule.scopes)
                } else {
                    Set::empty()
                },
                None => Set::<Scope>::empty(),
            }),
    {
        match &mut self.proxy {
            Some(p) => match p.conclude(bearer, valid, now) {
                Some(s) => GrantedScopes(s),
                None => GrantedScopes::none(),
            },
            None => GrantedScopes::none(),
        }
    }
}

/// Without an auth section every request holds every scope.
pub proof fn law_open_mode_grants_everything(m: ResolverModel, ip: IpAddress, bearer: Option<Seq<char>>)
    requires
        m.auth is None,
    ensures
        decide(m, ip, bearer) == DecisionModel::Granted(every_scope()),
{
}

/// A whitelisted address is granted the same whatever token it bears:
/// the whitelist is tried first.
pub proof fn law_whitelist_ignores_token(
    m: ResolverModel,
    ip: IpAddress,
    b1: Option<Seq<char>>,
    b2: Option<Seq<char>>,
)
    requires
        m.auth matches Some(a) && whitelist_grant(a, ip) is Some,
    ensures
        decide(m, ip, b1) == decide(m, ip, b2),
{
}

/// With auth on, a request from an address outside the whitelist that
/// bears no token holds no scope.
pub proof fn law_anonymous_outsider_holds_nothing(m: ResolverModel, ip: IpAddress)
    requires
        m.auth matches Some(a) && whitelist_grant(a, ip) is None,
    ensures
        decide(m, ip, None) == DecisionModel::Granted(Set::<Scope>::empty()),
{
}

/// A configured token is granted its own scopes, and the proxy is not
/// asked about it.
pub proof fn law_static_token_before_proxy(m: ResolverModel, ip: IpAddress, b: Seq<char>)
    requires
        m.auth matches Some(a) && whitelist_grant(a, ip) is None && token_grant(a, b) is Some,
    ensures
        decide(m, ip, Some(b)) == DecisionModel::Granted(token_grant(m.auth.unwrap(), b).unwrap()),
{
}

/// Holding every scope allows every tool.
pub proof fn law_every_scope_allows_every_tool(tool: Seq<char>)
    ensures
        tool_check(every_scope(), tool) is Ok,
{
}

/// Holding no scope refuses exactly the tools that a scope guards.
pub proof fn law_no_scope_refuses_guarded_tools(tool: Seq<char>)
    ensures
        tool_check(Set::<Scope>::empty(), tool) is Err <==> required_scope(tool) is Some,
{
}

/// A refusal names the scope that is missing and the tool.
pub proof fn law_refusal_names_scope_and_tool(granted: Set<Scope>, tool: Seq<char>)
    requires
        tool_check(granted, tool) is Err,
    ensures
        required_scope(tool) matches Some(s) && !granted.contains(s) && tool_check(granted, tool)
            == Err::<(), Seq<char>>(denial_message(s, tool)),
{
}

} // verus!
