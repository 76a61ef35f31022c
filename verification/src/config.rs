//! The server's configuration: its shape, its defaults, the overrides that
//! environment variables make, and the whitelist lookup.
use vstd::prelude::*;

use crate::auth::ip_whitelist::find_whitelist_entry;
use crate::auth::ip_whitelist::first_whitelist_match;
use crate::auth::ip_whitelist::Cidr;
use crate::auth::ip_whitelist::IpAddress;
use crate::auth::scopes::string_views;
use crate::text::chars_of;
use crate::text::parse_u16_range;
use crate::text::parse_u16_spec;

verus! {

/// The whole configuration.
#[derive(Debug)]
pub struct Config {
    pub server: ServerConfig,
    pub ha: Option<HaConfig>,
    pub z2m: Option<Z2mConfig>,
    pub auth: Option<AuthConfig>,
}

/// Settings of the HTTP server.
#[derive(Debug, Clone, Copy, PartialEq, Eq, Structural)]
pub struct ServerConfig {
    pub port: u16,
}

/// How to reach Home Assistant.
#[derive(Debug)]
pub struct HaConfig {
    pub url: String,
    pub token: String,
}

/// How to reach Zigbee2MQTT.
#[derive(Debug)]
pub struct Z2mConfig {
    pub mqtt_host: String,
    pub mqtt_user: Option<String>,
    pub mqtt_pass: Option<String>,
    pub base_topic: String,
}

/// The auth rules; their presence turns auth on.
#[derive(Debug)]
pub struct AuthConfig {
    pub whitelist: Vec<WhitelistEntry>,
    pub tokens: Vec<TokenEntry>,
    pub proxy: Option<ProxyAuthConfig>,
}

/// Scopes granted to the clients whose address lies in one of `cidrs`.
#[derive(Debug)]
pub struct WhitelistEntry {
    pub cidrs: Vec<Cidr>,
    pub scopes: Vec<String>,
}

/// Scopes granted to the clients that present `token`.
#[derive(Debug)]
pub struct TokenEntry {
    pub token: String,
    pub scopes: Vec<String>,
}

/// Validation of bearer tokens by an outside system.
#[derive(Debug)]
pub struct ProxyAuthConfig {
    pub backend: ProxyBackend,
    pub scopes: Vec<String>,
    pub cache_ttl: u64,
}

/// The system that a proxied token is checked against.
#[derive(Debug, Clone, Copy, PartialEq, Eq, Structural)]
pub enum ProxyBackend {
    Ha,
    Mqtt,
}

/// The model of a whitelist entry.
pub struct WhitelistRule {
    pub cidrs: Seq<Cidr>,
    pub scopes: Seq<Seq<char>>,
}

/// The model of a token entry.
pub struct TokenRule {
    pub token: Seq<char>,
    pub scopes: Seq<Seq<char>>,
}

/// The model of the proxy settings.
pub struct ProxyRule {
    pub backend: ProxyBackend,
    pub scopes: Seq<Seq<char>>,
    pub cache_ttl: u64,
}

/// The model of the auth section.
pub struct AuthRules {
    pub whitelist: Seq<WhitelistRule>,
    pub tokens: Seq<TokenRule>,
    pub proxy: Option<ProxyRule>,
}

impl View for WhitelistEntry {
    type V = WhitelistRule;

    open spec fn view(&self) -> WhitelistRule {
        WhitelistRule { cidrs: self.cidrs@, scopes: string_views(self.scopes@) }
    }
}

impl View for TokenEntry {
    type V = TokenRule;

    open spec fn view(&self) -> TokenRule {
        TokenRule { token: self.token@, scopes: string_views(self.scopes@) }
    }
}

impl View for ProxyAuthConfig {
    type V = ProxyRule;

    open spec fn view(&self) -> ProxyRule {
        ProxyRule { backend: self.backend, scopes: string_views(self.scopes@), cache_ttl: self.cache_ttl }
    }
}

/// The model of optional proxy settings.
pub open spec fn proxy_view(p: Option<ProxyAuthConfig>) -> Option<ProxyRule> {
    match p {
        Some(c) => Some(c@),
        None => None,
    }
}

impl View for AuthConfig {
    type V = AuthRules;

    open spec fn view(&self) -> AuthRules {
        AuthRules {
            whitelist: self.whitelist@.map_values(|e: WhitelistEntry| e@),
            tokens: self.tokens@.map_values(|e: TokenEntry| e@),
            proxy: proxy_view(self.proxy),
        }
    }
}

/// The model of an optional auth section.
pub open spec fn auth_view(a: Option<AuthConfig>) -> Option<AuthRules> {
    match a {
        Some(c) => Some(c@),
        None => None,
    }
}

impl Default for ServerConfig {
    fn default() -> (r: ServerConfig)
        ensures
            r.port == 3000,
    {
        ServerConfig { port: 3000 }
    }
}

impl Default for Config {
    fn default() -> (r: Config)
        ensures
            r.server.port == 3000,
            r.ha is None,
            r.z2m is None,
            r.auth is None,
    {
        Config { server: ServerConfig { port: 3000 }, ha: None, z2m: None, auth: None }
    }
}

/// A copy of `v`, string by string.
pub fn copy_strings(v: &Vec<String>) -> (r: Vec<String>)
    ensures
        r@ == v@,
{
    let mut r: Vec<String> = Vec::new();
    let mut i: usize = 0;
    while i < v.len()
        invariant
            i <= v.len(),
            r@ == v@.take(i as int),
        decreases v.len() - i,
    {
        r.push(v[i].clone());
        assert(r@ =~= v@.take(i + 1));
        i = i + 1;
    }
    assert(v@.take(v.len() as int) =~= v@);
    r
}

/// A copy of an optional string.
pub fn copy_opt_string(v: &Option<String>) -> (r: Option<String>)
    ensures
        r == *v,
{
    match v {
        Some(s) => Some(s.clone()),
        None => None,
    }
}

impl Clone for HaConfig {
    fn clone(&self) -> (r: HaConfig)
        ensures
            r == *self,
    {
        HaConfig { url: self.url.clone(), token: self.token.clone() }
    }
}

impl Clone for Z2mConfig {
    fn clone(&self) -> (r: Z2mConfig)
        ensures
            r == *self,
    {
        Z2mConfig {
            mqtt_host: self.mqtt_host.clone(),
            mqtt_user: copy_opt_string(&self.mqtt_user),
            mqtt_pass: copy_opt_string(&self.mqtt_pass),
            base_topic: self.base_topic.clone(),
        }
    }
}

impl Clone for WhitelistEntry {
    fn clone(&self) -> (r: WhitelistEntry)
        ensures
            r@ == self@,
    {
        let mut cidrs: Vec<Cidr> = Vec::new();
        let mut i: usize = 0;
        while i < self.cidrs.len()
            invariant
                i <= self.cidrs.len(),
                cidrs@ == self.cidrs@.take(i as int),
            decreases self.cidrs.len() - i,
        {
            cidrs.push(self.cidrs[i]);
            assert(cidrs@ =~= self.cidrs@.take(i + 1));
            i = i + 1;
        }
        assert(self.cidrs@.take(self.cidrs.len() as int) =~= self.cidrs@);
        assert(cidrs@ == self.cidrs@);
        let scopes = copy_strings(&self.scopes);
        WhitelistEntry { cidrs, scopes }
    }
}

impl Clone for TokenEntry {
    fn clone(&self) -> (r: TokenEntry)
        ensures
            r@ == self@,
    {
        TokenEntry { token: self.token.clone(), scopes: copy_strings(&self.scopes) }
    }
}

impl Clone for ProxyAuthConfig {
    fn clone(&self) -> (r: ProxyAuthConfig)
        ensures
            r@ == self@,
    {
        ProxyAuthConfig {
            backend: self.backend,
            scopes: copy_strings(&self.scopes),
            cache_ttl: self.cache_ttl,
        }
    }
}

impl Clone for AuthConfig {
    fn clone(&self) -> (r: AuthConfig)
        ensures
            r@ == self@,
    {
        let mut whitelist: Vec<WhitelistEntry> = Vec::new();
        let mut i: usize = 0;
        while i < self.whitelist.len()
            invariant
                i <= self.whitelist.len(),
                whitelist@.len() == i,
                forall|k: int| 0 <= k < i ==> (#[trigger] whitelist@[k])@ == self.whitelist@[k]@,
            decreases self.whitelist.len() - i,
        {
            whitelist.push(self.whitelist[i].clone());
            i = i + 1;
        }
        let mut tokens: Vec<TokenEntry> = Vec::new();
        let mut j: usize = 0;
        while j < self.tokens.len()
            invariant
                j <= self.tokens.len(),
                tokens@.len() == j,
                forall|k: int| 0 <= k < j ==> (#[trigger] tokens@[k])@ == self.tokens@[k]@,
            decreases self.tokens.len() - j,
        {
            tokens.push(self.tokens[j].clone());
            j = j + 1;
        }
        let proxy = match &self.proxy {
            Some(p) => Some(p.clone()),
            None => None,
        };
        let r = AuthConfig { whitelist, tokens, proxy };
        assert(r@.whitelist =~= self@.whitelist);
        assert(r@.tokens =~= self@.tokens);
        r
    }
}

/// The default base topic of Zigbee2MQTT.
pub fn default_base_topic() -> (r: String)
    ensures
        r@ == "zigbee2mqtt"@,
{
    String::from_str("zigbee2mqtt")
}

/// The scopes that proxy validation grants unless configured: the
/// wildcard alone.
pub fn default_all_scopes() -> (r: Vec<String>)
    ensures
        r@.len() == 1,
        r@[0]@ == "*"@,
{
    let mut v: Vec<String> = Vec::new();
    v.push(String::from_str("*"));
    v
}

/// The environment variables that override the configuration, each as
/// read, `None` where unset.
pub struct EnvOverrides {
    pub port: Option<String>,
    pub ha_url: Option<String>,
    pub ha_token: Option<String>,
    pub z2m_mqtt_host: Option<String>,
    pub z2m_mqtt_user: Option<String>,
    pub z2m_mqtt_pass: Option<String>,
    pub z2m_base_topic: Option<String>,
}

/// The value of an optional string.
pub open spec fn opt_view(s: Option<String>) -> Option<Seq<char>> {
    match s {
        Some(x) => Some(x@),
        None => None,
    }
}

/// The port after the `PORT` override: replaced where the variable holds a
/// valid port number.
pub open spec fn port_after(old: u16, env: Option<Seq<char>>) -> u16 {
    match env {
        Some(s) => match parse_u16_spec(s) {
            Some(p) => p,
            None => old,
        },
        None => old,
    }
}

/// What the overrides make of the Home Assistant section: both URL and
/// token must be set to change anything.
pub open spec fn ha_after(old: Option<HaConfig>, env: EnvOverrides) -> Option<(Seq<char>, Seq<char>)> {
    match (env.ha_url, env.ha_token) {
        (Some(u), Some(t)) => Some((u@, t@)),
        _ => match old {
            Some(h) => Some((h.url@, h.token@)),
            None => None,
        },
    }
}

/// The view of a Zigbee2MQTT section: host, user, password, base topic.
pub open spec fn z2m_view(c: Z2mConfig) -> (Seq<char>, Option<Seq<char>>, Option<Seq<char>>, Seq<char>) {
    (c.mqtt_host@, opt_view(c.mqtt_user), opt_view(c.mqtt_pass), c.base_topic@)
}

/// What the overrides make of the Zigbee2MQTT section: nothing changes
/// unless the host is set; then a missing section is created with no
/// credentials and the default base topic, and each set variable replaces
/// its field.
pub open spec fn z2m_after(old: Option<Z2mConfig>, env: EnvOverrides) -> Option<
    (Seq<char>, Option<Seq<char>>, Option<Seq<char>>, Seq<char>),
> {
    match env.z2m_mqtt_host {
        None => match old {
            Some(c) => Some(z2m_view(c)),
            None => None,
        },
        Some(host) => {
            let base = match old {
                Some(c) => z2m_view(c),
                None => (host@, None, None, "zigbee2mqtt"@),
            };
            Some(
                (
                    host@,
                    match env.z2m_mqtt_user {
                        Some(u) => Some(u@),
                        None => base.1,
                    },
                    match env.z2m_mqtt_pass {
                        Some(p) => Some(p@),
                        None => base.2,
                    },
                    match env.z2m_base_topic {
                        Some(t) => t@,
                        None => base.3,
                    },
                ),
            )
        },
    }
}

/// The view of an optional Home Assistant section.
pub open spec fn ha_view(c: Option<HaConfig>) -> Option<(Seq<char>, Seq<char>)> {
    match c {
        Some(h) => Some((h.url@, h.token@)),
        None => None,
    }
}

/// The view of an optional Zigbee2MQTT section.
pub open spec fn z2m_opt_view(c: Option<Z2mConfig>) -> Option<
    (Seq<char>, Option<Seq<char>>, Option<Seq<char>>, Seq<char>),
> {
    match c {
        Some(z) => Some(z2m_view(z)),
        None => None,
    }
}

/// Parses a port number as `str::parse::<u16>` does.
pub fn parse_port(s: &str) -> (r: Option<u16>)
    ensures
        r == parse_u16_spec(s@),
{
    let v = chars_of(s);
    assert(v@.subrange(0, v@.len() as int) =~= v@);
    parse_u16_range(&v, 0, v.len())
}

impl Config {
    /// Whether no auth rules are configured, so that every request is
    /// allowed.
    pub fn is_open_auth(&self) -> (r: bool)
        ensures
            r == self.auth is None,
    {
        self.auth.is_none()
    }

    /// The scope names of the first whitelist entry whose networks hold
    /// `ip`; `None` where auth is off or no entry holds it.
    pub fn matches_whitelist(&self, ip: &IpAddress) -> (r: Option<&[String]>)
        ensures
            match auth_view(self.auth) {
                None => r is None,
                Some(a) => match first_whitelist_match(a.whitelist, *ip) {
                    None => r is None,
                    Some(k) => r matches Some(s) && string_views(s@) == a.whitelist[k].scopes,
                },
            },
    {
        match &self.auth {
            None => None,
            Some(auth) => match find_whitelist_entry(&auth.whitelist, ip) {
                Some(k) => Some(auth.whitelist[k].scopes.as_slice()),
                None => None,
            },
        }
    }

    /// Applies the environment overrides: `PORT` where it parses,
    /// `HA_URL` with `HA_TOKEN` together, and `Z2M_MQTT_HOST` with the
    /// optional `Z2M_MQTT_USER`, `Z2M_MQTT_PASS` and `Z2M_BASE_TOPIC`.
    /// The auth section is left alone.
    pub fn apply_env_overrides(&mut self, env: EnvOverrides)
        ensures
            final(self).server.port == port_after(old(self).server.port, opt_view(env.port)),
            ha_view(final(self).ha) == ha_after(old(self).ha, env),
            z2m_opt_view(final(self).z2m) == z2m_after(old(self).z2m, env),
            final(self).auth == old(self).auth,
    {
        let ghost env0 = env;
        let EnvOverrides {
            port,
            ha_url,
            ha_token,
            z2m_mqtt_host,
            z2m_mqtt_user,
            z2m_mqtt_pass,
            z2m_base_topic,
        } = env;
        if let Some(p) = &port {
            if let Some(n) = parse_port(p.as_str()) {
                self.server.port = n;
            }
        }
        match (ha_url, ha_token) {
            (Some(url), Some(token)) => {
                self.ha = Some(HaConfig { url, token });
            },
            _ => {},
        }
        if let Some(host) = z2m_mqtt_host {
            let old_z2m = self.z2m.take();
            let mut z = match old_z2m {
                Some(c) => c,
                None => Z2mConfig {
                    mqtt_host: host.clone(),
                    mqtt_user: None,
                    mqtt_pass: None,
                    base_topic: default_base_topic(),
                },
            };
            z.mqtt_host = host;
            if let Some(u) = z2m_mqtt_user {
                z.mqtt_user = Some(u);
            }
            if let Some(p) = z2m_mqtt_pass {
                z.mqtt_pass = Some(p);
            }
            if let Some(t) = z2m_base_topic {
                z.base_topic = t;
            }
            self.z2m = Some(z);
        }
    }
}

/// With `Z2M_MQTT_HOST` set, the Zigbee2MQTT section exists afterwards
/// with that host, and each of `Z2M_MQTT_USER`, `Z2M_MQTT_PASS` and
/// `Z2M_BASE_TOPIC` that is set replaces its field; one that is unset
/// keeps the section's value, or for a new section, no credentials and
/// the default base topic.
pub proof fn law_z2m_variables_override(old: Option<Z2mConfig>, env: EnvOverrides)
    requires
        env.z2m_mqtt_host is Some,
    ensures
        z2m_after(old, env) matches Some((host, user, pass, topic)) && host
            == env.z2m_mqtt_host.unwrap()@ && (env.z2m_mqtt_user matches Some(u) ==> user == Some(
            u@,
        )) && (env.z2m_mqtt_pass matches Some(p) ==> pass == Some(p@)) && (
        env.z2m_base_topic matches Some(t) ==> topic == t@) && (env.z2m_mqtt_user is None
            ==> user == (match old {
            Some(c) => opt_view(c.mqtt_user),
            None => None,
        })) && (env.z2m_mqtt_pass is None ==> pass == (match old {
            Some(c) => opt_view(c.mqtt_pass),
            None => None,
        })) && (env.z2m_base_topic is None ==> topic == (match old {
            Some(c) => c.base_topic@,
            None => "zigbee2mqtt"@,
        })),
{
}

/// Without `Z2M_MQTT_HOST` the Zigbee2MQTT section is left as it was,
/// whatever the other Zigbee2MQTT variables hold.
pub proof fn law_z2m_untouched_without_host(old: Option<Z2mConfig>, env: EnvOverrides)
    requires
        env.z2m_mqtt_host is None,
    ensures
        z2m_after(old, env) == z2m_opt_view(old),
{
}

/// `PORT` replaces the port exactly when it is a valid port number, and
/// the Home Assistant section is replaced only when both `HA_URL` and `HA_TOKEN`
/// are set.
pub proof fn law_port_and_ha_overrides(port: u16, old_ha: Option<HaConfig>, env: EnvOverrides)
    ensures
        env.port matches Some(s) ==> (parse_u16_spec(s@) is Some ==> port_after(
            port,
            opt_view(env.port),
        ) == parse_u16_spec(s@).unwrap()),
        !(env.port matches Some(s) && parse_u16_spec(s@) is Some) ==> port_after(
            port,
            opt_view(env.port),
        ) == port,
        env.ha_url matches Some(u) ==> (env.ha_token matches Some(t) ==> ha_after(old_ha, env)
            == Some((u@, t@))),
        (env.ha_url is None || env.ha_token is None) ==> ha_after(old_ha, env) == ha_view(old_ha),
{
}

} // verus!
