//! The proxy rule: bearer tokens checked by an outside system, with a cache
//! of the tokens found valid.
//!
//! Time is a count of milliseconds on a monotonic clock that the caller
//! reads; the outside check itself is the caller's to make, between
//! [`ProxyValidator::validate`] and [`ProxyValidator::conclude`].
use vstd::prelude::*;

use crate::auth::scopes::parse_scopes;
use crate::auth::scopes::scopes_granted;
use crate::auth::scopes::Scope;
use crate::auth::scopes::ScopeSet;
use crate::config::ProxyAuthConfig;
use crate::config::ProxyBackend;
use crate::config::ProxyRule;
use crate::text::str_eq;
use crate::text::trim_end;
use crate::text::trim_trailing_slashes;
use crate::text::CharClass;

verus! {

/// A token found valid, the scopes it was granted, and the time at which
/// that stops counting.
pub struct CachedToken {
    token: String,
    scopes: ScopeSet,
    expires_at: u64,
}

/// The model of a cached token.
pub struct CacheEntry {
    pub token: Seq<char>,
    pub scopes: Set<Scope>,
    pub expires_at: u64,
}

impl View for CachedToken {
    type V = CacheEntry;

    closed spec fn view(&self) -> CacheEntry {
        CacheEntry { token: self.token@, scopes: self.scopes@, expires_at: self.expires_at }
    }
}

/// The tokens found valid, oldest first.
pub struct TokenCache {
    entries: Vec<CachedToken>,
}

/// Whether a cached entry still counts at time `now`.
pub open spec fn is_live(e: CacheEntry, now: u64) -> bool {
    e.expires_at > now
}

/// The index of the first entry at or after `i` for `bearer` that still
/// counts at `now`.
pub open spec fn first_live_from(entries: Seq<CacheEntry>, bearer: Seq<char>, now: u64, i: int) -> Option<
    int,
>
    decreases entries.len() - i,
{
    if i < 0 || i >= entries.len() {
        None
    } else if entries[i].token == bearer && is_live(entries[i], now) {
        Some(i)
    } else {
        first_live_from(entries, bearer, now, i + 1)
    }
}

/// The scopes that the cache holds for `bearer` at `now`: those of its
/// oldest entry for that token that still counts.
pub open spec fn cache_lookup(entries: Seq<CacheEntry>, bearer: Seq<char>, now: u64) -> Option<
    Set<Scope>,
> {
    match first_live_from(entries, bearer, now, 0) {
        Some(k) => Some(entries[k].scopes),
        None => None,
    }
}

/// The cache after recording `bearer` at `now`: the entries that no longer
/// count are dropped, and the new one is appended.
pub open spec fn cache_insert(
    entries: Seq<CacheEntry>,
    bearer: Seq<char>,
    scopes: Set<Scope>,
    now: u64,
    expires_at: u64,
) -> Seq<CacheEntry> {
    entries.filter(|e: CacheEntry| is_live(e, now)).push(
        CacheEntry { token: bearer, scopes, expires_at },
    )
}

impl View for TokenCache {
    type V = Seq<CacheEntry>;

    closed spec fn view(&self) -> Seq<CacheEntry> {
        self.entries@.map_values(|e: CachedToken| e@)
    }
}

impl TokenCache {
    /// An empty cache.
    pub fn new() -> (r: TokenCache)
        ensures
            r@ == Seq::<CacheEntry>::empty(),
    {
        let r = TokenCache { entries: Vec::new() };
        assert(r@ =~= Seq::<CacheEntry>::empty());
        r
    }

    /// The number of entries held.
    pub fn len(&self) -> (r: usize)
        ensures
            r == self@.len(),
    {
        self.entries.len()
    }

    /// The scopes cached for `bearer` that still count at `now`.
    pub fn lookup(&self, bearer: &str, now: u64) -> (r: Option<ScopeSet>)
        ensures
            r is Some <==> cache_lookup(self@, bearer@, now) is Some,
            r matches Some(s) ==> Some(s@) == cache_lookup(self@, bearer@, now),
    {
        let mut i: usize = 0;
        while i < self.entries.len()
            invariant
                i <= self.entries.len(),
                first_live_from(self@, bearer@, now, 0) == first_live_from(
                    self@,
                    bearer@,
                    now,
                    i as int,
                ),
            decreases self.entries.len() - i,
        {
            let e = &self.entries[i];
            assert(self@[i as int] == e@);
            if e.expires_at > now && str_eq(e.token.as_str(), bearer) {
                return Some(e.scopes);
            }
            i = i + 1;
        }
        None
    }

    /// Records `bearer` with `scopes` until `expires_at`, dropping the
    /// entries that no longer count at `now`.
    pub fn insert(&mut self, bearer: &str, scopes: ScopeSet, now: u64, expires_at: u64)
        ensures
            final(self)@ == cache_insert(old(self)@, bearer@, scopes@, now, expires_at),
    {
        let ghost old_view = self@;
        let mut kept: Vec<CachedToken> = Vec::new();
        let mut i: usize = 0;
        while i < self.entries.len()
            invariant
                i <= self.entries.len(),
                old_view == self@,
                kept@.map_values(|e: CachedToken| e@) == old_view.take(i as int).filter(
                    |e: CacheEntry| is_live(e, now),
                ),
            decreases self.entries.len() - i,
        {
            let e = &self.entries[i];
            assert(old_view.take(i + 1) =~= old_view.take(i as int).push(old_view[i as int]));
            proof {
                old_view.take(i as int).lemma_filter_push(
                    old_view[i as int],
                    |e: CacheEntry| is_live(e, now),
                );
            }
            if e.expires_at > now {
                let c = CachedToken { token: e.token.clone(), scopes: e.scopes, expires_at: e.expires_at };
                kept.push(c);
                assert(kept@.map_values(|e: CachedToken| e@) =~= old_view.take(i + 1).filter(
                    |e: CacheEntry| is_live(e, now),
                ));
            }
            i = i + 1;
        }
        assert(old_view.take(old_view.len() as int) =~= old_view);
        let ghost kept_view = kept@.map_values(|e: CachedToken| e@);
        kept.push(CachedToken { token: String::from_str(bearer), scopes, expires_at });
        assert(kept@.map_values(|e: CachedToken| e@) =~= kept_view.push(
            CacheEntry { token: bearer@, scopes: scopes@, expires_at },
        ));
        self.entries = kept;
    }
}

/// What the first half of proxy validation decides.
pub enum ProxyCheck {
    /// The token is cached as valid with these scopes.
    Cached(ScopeSet),
    /// The token must be checked by a GET of this Home Assistant URL, and
    /// is valid where that succeeds.
    CheckHa(String),
    /// The token cannot be checked, so it is not valid.
    Reject,
}

/// The model of [`ProxyCheck`].
pub enum ProxyCheckModel {
    Cached(Set<Scope>),
    CheckHa(Seq<char>),
    Reject,
}

impl View for ProxyCheck {
    type V = ProxyCheckModel;

    open spec fn view(&self) -> ProxyCheckModel {
        match self {
            ProxyCheck::Cached(s) => ProxyCheckModel::Cached(s@),
            ProxyCheck::CheckHa(u) => ProxyCheckModel::CheckHa(u@),
            ProxyCheck::Reject => ProxyCheckModel::Reject,
        }
    }
}

/// The verdict of Home Assistant's check of a token: the token is valid
/// exactly when the request was answered with a success status (2xx);
/// `None` stands for a request that got no answer.
pub fn ha_token_valid(status: Option<u16>) -> (r: bool)
    ensures
        r == (status matches Some(s) && 200 <= s < 300),
{
    match status {
        Some(s) => 200 <= s && s < 300,
        None => false,
    }
}

/// Validates bearer tokens against an outside system, remembering the
/// valid ones for the configured time.
pub struct ProxyValidator {
    config: ProxyAuthConfig,
    cache: TokenCache,
    ha_url: Option<String>,
}

/// The model of a proxy validator.
pub struct ProxyModel {
    pub rule: ProxyRule,
    pub cache: Seq<CacheEntry>,
    pub ha_url: Option<Seq<char>>,
}

/// The URL of Home Assistant's API root under the base URL `base`.
pub open spec fn ha_api_url(base: Seq<char>) -> Seq<char> {
    trim_end(base, CharClass::Only('/')) + "/api/"@
}

/// The first half of validating `bearer` at `now`: a cached answer where
/// caching is on and the cache has one, else what the backend calls for.
pub open spec fn proxy_check(m: ProxyModel, bearer: Seq<char>, now: u64) -> ProxyCheckModel {
    if m.rule.cache_ttl > 0 && cache_lookup(m.cache, bearer, now) is Some {
        ProxyCheckModel::Cached(cache_lookup(m.cache, bearer, now).unwrap())
    } else {
        match m.rule.backend {
            ProxyBackend::Ha => match m.ha_url {
                Some(u) => ProxyCheckModel::CheckHa(ha_api_url(u)),
                None => ProxyCheckModel::Reject,
            },
            ProxyBackend::Mqtt => ProxyCheckModel::Reject,
        }
    }
}

/// The milliseconds for which a valid token stays cached.
pub open spec fn ttl_ms(m: ProxyModel) -> int {
    m.rule.cache_ttl * 1000
}

impl View for ProxyValidator {
    type V = ProxyModel;

    closed spec fn view(&self) -> ProxyModel {
        ProxyModel {
            rule: self.config@,
            cache: self.cache@,
            ha_url: match self.ha_url {
                Some(u) => Some(u@),
                None => None,
            },
        }
    }
}

/// Every cached token carries the scopes that the configuration grants.
pub open spec fn cache_consistent(m: ProxyModel) -> bool {
    forall|i: int| 0 <= i < m.cache.len() ==> (#[trigger] m.cache[i]).scopes == scopes_granted(
        m.rule.scopes,
    )
}

impl ProxyValidator {
    #[verifier::type_invariant]
    spec fn inv(self) -> bool {
        cache_consistent(self@)
    }

    /// A validator for `config`, checking Home Assistant tokens at
    /// `ha_url`, with an empty cache.
    pub fn new(config: ProxyAuthConfig, ha_url: Option<String>) -> (r: ProxyValidator)
        ensures
            r@.rule == config@,
            r@.ha_url == (match ha_url {
                Some(u) => Some(u@),
                None => None::<Seq<char>>,
            }),
            r@.cache == Seq::<CacheEntry>::empty(),
            cache_consistent(r@),
    {
        ProxyValidator { config, cache: TokenCache::new(), ha_url }
    }

    /// The first half of validating `bearer` at time `now`. Every cached
    /// token carries the configured scopes, so a cached answer grants
    /// those.
    pub fn validate(&self, bearer: &str, now: u64) -> (r: ProxyCheck)
        ensures
            r@ == proxy_check(self@, bearer@, now),
            cache_consistent(self@),
            r@ matches ProxyCheckModel::Cached(s) ==> s == scopes_granted(self@.rule.scopes),
    {
        proof {
            use_type_invariant(self);
        }
        if self.config.cache_ttl > 0 {
            if let Some(scopes) = self.cache.lookup(bearer, now) {
                proof {
                    lemma_first_live_sound(self@.cache, bearer@, now, 0);
                }
                return ProxyCheck::Cached(scopes);
            }
        }
        match self.config.backend {
            ProxyBackend::Ha => match &self.ha_url {
                Some(u) => {
                    let mut url = trim_trailing_slashes(u.as_str());
                    url.append("/api/");
                    ProxyCheck::CheckHa(url)
                },
                None => ProxyCheck::Reject,
            },
            ProxyBackend::Mqtt => ProxyCheck::Reject,
        }
    }

    /// The second half: the outcome `valid` of the outside check of
    /// `bearer` made at `now`. A valid token is granted the configured
    /// scopes, and cached for `cache_ttl` seconds where that is not zero.
    pub fn conclude(&mut self, bearer: &str, valid: bool, now: u64) -> (r: Option<ScopeSet>)
        requires
            valid && old(self)@.rule.cache_ttl > 0 ==> now + ttl_ms(old(self)@) <= u64::MAX,
        ensures
            valid ==> (r matches Some(s) && s@ == scopes_granted(old(self)@.rule.scopes)),
            !valid ==> r is None,
            final(self)@.rule == old(self)@.rule,
            final(self)@.ha_url == old(self)@.ha_url,
            cache_consistent(final(self)@),
            final(self)@.cache == (if valid && old(self)@.rule.cache_ttl > 0 {
                cache_insert(
                    old(self)@.cache,
                    bearer@,
                    scopes_granted(old(self)@.rule.scopes),
                    now,
                    (now + ttl_ms(old(self)@)) as u64,
                )
            } else {
                old(self)@.cache
            }),
    {
        proof {
            use_type_invariant(&*self);
        }
        if !valid {
            return None;
        }
        let scopes = parse_scopes(self.config.scopes.as_slice());
        if self.config.cache_ttl > 0 {
            proof {
                use_type_invariant(&*self);
            }
            let ghost m0 = self@;
            let expires_at = now + self.config.cache_ttl * 1000;
            let mut cache = TokenCache::new();
            std::mem::swap(&mut cache, &mut self.cache);
            let ghost before = cache@;
            assert(before == m0.cache);
            cache.insert(bearer, scopes, now, expires_at);
            proof {
                let pred = |e: CacheEntry| is_live(e, now);
                assert forall|i: int| 0 <= i < cache@.len() implies (#[trigger] cache@[i]).scopes
                    == scopes_granted(self@.rule.scopes) by {
                    if i < cache@.len() - 1 {
                        let f = before.filter(pred);
                        assert(f[i] == cache@[i]);
                        assert(f.contains(f[i]));
                        before.lemma_filter_contains_rev(pred, f[i]);
                        let j = choose|j: int| 0 <= j < before.len() && before[j] == f[i];
                        assert(m0.cache[j].scopes == scopes_granted(m0.rule.scopes));
                    }
                };
            }
            std::mem::swap(&mut cache, &mut self.cache);
        }
        proof {
            use_type_invariant(&*self);
        }
        Some(scopes)
    }
}

proof fn lemma_first_live_found(entries: Seq<CacheEntry>, bearer: Seq<char>, now: u64, i: int, j: int)
    requires
        0 <= i <= j < entries.len(),
        entries[j].token == bearer,
        is_live(entries[j], now),
    ensures
        first_live_from(entries, bearer, now, i) matches Some(k) && i <= k <= j
            && entries[k].token == bearer && is_live(entries[k], now),
    decreases j - i,
{
    if !(entries[i].token == bearer && is_live(entries[i], now)) {
        lemma_first_live_found(entries, bearer, now, i + 1, j);
    }
}

proof fn lemma_first_live_sound(entries: Seq<CacheEntry>, bearer: Seq<char>, now: u64, i: int)
    requires
        0 <= i,
    ensures
        first_live_from(entries, bearer, now, i) matches Some(k) ==> i <= k < entries.len()
            && entries[k].token == bearer && is_live(entries[k], now),
    decreases entries.len() - i,
{
    if i < entries.len() && !(entries[i].token == bearer && is_live(entries[i], now)) {
        lemma_first_live_sound(entries, bearer, now, i + 1);
    }
}

/// A token found valid is answered from the cache, with the configured
/// scopes, until its time to live has passed.
pub proof fn law_valid_token_served_from_cache(m: ProxyModel, bearer: Seq<char>, now: u64, later: u64)
    requires
        cache_consistent(m),
        m.rule.cache_ttl > 0,
        now + ttl_ms(m) <= u64::MAX,
        now <= later < now + ttl_ms(m),
    ensures
        proxy_check(
            ProxyModel {
                cache: cache_insert(
                    m.cache,
                    bearer,
                    scopes_granted(m.rule.scopes),
                    now,
                    (now + ttl_ms(m)) as u64,
                ),
                ..m
            },
            bearer,
            later,
        ) == ProxyCheckModel::Cached(scopes_granted(m.rule.scopes)),
{
    let granted = scopes_granted(m.rule.scopes);
    let pred = |e: CacheEntry| is_live(e, now);
    let kept = m.cache.filter(pred);
    let c = cache_insert(m.cache, bearer, granted, now, (now + ttl_ms(m)) as u64);
    let n = c.len() - 1;
    assert(c[n].token == bearer && is_live(c[n], later));
    lemma_first_live_found(c, bearer, later, 0, n);
    let k = first_live_from(c, bearer, later, 0).unwrap();
    if k < n {
        assert(c[k] == kept[k]);
        assert(kept.contains(kept[k]));
        m.cache.lemma_filter_contains_rev(pred, kept[k]);
        let j = choose|j: int| 0 <= j < m.cache.len() && m.cache[j] == kept[k];
        assert(m.cache[j].scopes == granted);
    }
}

/// A token whose cached entries have all run out is not answered from the
/// cache.
pub proof fn law_expired_entries_not_served(entries: Seq<CacheEntry>, bearer: Seq<char>, now: u64)
    requires
        forall|k: int| 0 <= k < entries.len() && (#[trigger] entries[k]).token == bearer ==> entries[k].expires_at
            <= now,
    ensures
        cache_lookup(entries, bearer, now) is None,
{
    lemma_first_live_sound(entries, bearer, now, 0);
}

/// With a time to live of zero nothing is answered from the cache.
pub proof fn law_zero_ttl_never_cached(m: ProxyModel, bearer: Seq<char>, now: u64)
    requires
        m.rule.cache_ttl == 0,
    ensures
        !(proxy_check(m, bearer, now) is Cached),
{
}

} // verus!
