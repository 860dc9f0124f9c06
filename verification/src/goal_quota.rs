//! Passive acquisition of provider quota for goal accounting: whose quota is observed, how long an
//! observation counts, and what is kept of it.

use crate::lists::{
    lemma_models_of, lemma_position, lemma_position_skip, lemma_push_deep_view, position, shifted,
};
use crate::protocol::{
    clone_snapshots, GoalQuotaSnapshot, LimitModel, QuotaModel, RateLimitSnapshot,
};
use crate::rate_limit_resets::RateLimitsWithResetCredits;
use crate::schedule::{saturated, saturating_difference};
use crate::text::{
    chars_of, copy_range, ends_with, has_suffix, same_text, text_of, trim_end_char,
    trim_end_matches_char,
};
use vstd::prelude::*;
use vstd::utf8::*;

verus! {

/// How long a read counts, in nanoseconds.
pub const CACHE_TTL_NANOS: i64 = 60_000_000_000;

/// How long an observation counts, in seconds.
pub const CACHE_TTL_SECONDS: i64 = 60;

/// The SHA-1 digest of bytes in lower-case hexadecimal digits.
pub uninterp spec fn sha1_hex(bytes: Seq<u8>) -> Seq<char>;

/// Calls `sha1::Sha1::digest`, and writes the digest in lower-case hexadecimal digits. The digest
/// is named, not described.
#[verifier::external_body]
fn sha1_text(bytes: &[u8]) -> (hex: String)
    ensures
        hex@ == sha1_hex(bytes@),
{
    format!("{:x}", <sha1::Sha1 as sha1::Digest>::digest(bytes))
}

/// The digest of an endpoint, without the slashes at its end.
pub open spec fn endpoint_digest(endpoint: Seq<char>) -> Seq<char> {
    sha1_hex(encode_utf8(trim_end_char(endpoint, '/')))
}

/// The digest of an endpoint, without the slashes at its end.
pub fn normalize_endpoint(base_url: &str) -> (digest: String)
    ensures
        digest@ == endpoint_digest(base_url@),
{
    let endpoint = trim_end_matches_char(base_url, '/');
    sha1_text(endpoint.as_str().as_bytes())
}

/// What a session knows of its model provider.
#[derive(Debug, PartialEq, Eq)]
pub struct ModelProviderInfo {
    pub base_url: Option<String>,
    /// An endpoint from which usage can be read.
    pub usage_url: Option<String>,
    pub is_openai: bool,
}

/// What the knowledge of a provider stands for.
pub struct InfoModel {
    pub base_url: Option<Seq<char>>,
    pub usage_url: Option<Seq<char>>,
    pub is_openai: bool,
}

impl DeepView for ModelProviderInfo {
    type V = InfoModel;

    open spec fn deep_view(&self) -> InfoModel {
        InfoModel {
            base_url: self.base_url.deep_view(),
            usage_url: self.usage_url.deep_view(),
            is_openai: self.is_openai,
        }
    }
}

impl Clone for ModelProviderInfo {
    fn clone(&self) -> (copy: Self)
        ensures
            copy.deep_view() == self.deep_view(),
    {
        ModelProviderInfo {
            base_url: self.base_url.clone(),
            usage_url: self.usage_url.clone(),
            is_openai: self.is_openai,
        }
    }
}

/// A header of an authenticated request.
#[derive(Debug, PartialEq, Eq)]
pub struct AuthHeader {
    pub name: Vec<u8>,
    pub value: Vec<u8>,
}

/// The authentication of a session as it stands.
#[derive(Debug, PartialEq, Eq)]
pub struct RuntimeAuth {
    pub account_id: Option<String>,
    /// The name of the mode; none where the session is not authenticated.
    pub mode: Option<String>,
    /// The headers of a request, in their order; none where they cannot be had.
    pub headers: Option<Vec<AuthHeader>>,
}

/// The bytes of the first `count` headers, names and values in turn.
pub open spec fn header_bytes(headers: Seq<AuthHeader>, count: nat) -> Seq<u8>
    decreases count,
{
    if count == 0 {
        Seq::empty()
    } else {
        header_bytes(headers, (count - 1) as nat) + headers[count - 1].name@ + headers[count
            - 1].value@
    }
}

/// A text, or else another.
pub open spec fn or_else(text: Option<Seq<char>>, other: Seq<char>) -> Seq<char> {
    match text {
        Some(text) => text,
        None => other,
    }
}

/// What tells one authentication from another.
pub open spec fn fingerprint(auth: RuntimeAuth) -> Seq<char> {
    match auth.headers {
        Some(headers) => sha1_hex(header_bytes(headers@, headers@.len())),
        None => "auth-error"@,
    }
}

/// What tells one session identity from another: endpoint, account, mode and authentication.
pub open spec fn runtime_identity(info: InfoModel, auth: RuntimeAuth) -> Seq<char> {
    endpoint_digest(or_else(info.base_url, ""@)) + "|"@ + or_else(
        auth.account_id.deep_view(),
        "unknown"@,
    ) + "|"@ + or_else(auth.mode.deep_view(), "none"@) + "|"@ + fingerprint(auth)
}

fn auth_fingerprint(auth: &RuntimeAuth) -> (text: String)
    ensures
        text@ == fingerprint(*auth),
{
    match &auth.headers {
        Some(headers) => {
            let mut bytes: Vec<u8> = Vec::new();
            let mut i: usize = 0;
            while i < headers.len()
                invariant
                    i <= headers@.len(),
                    bytes@ == header_bytes(headers@, i as nat),
                decreases headers@.len() - i,
            {
                let header = &headers[i];
                bytes.extend_from_slice(header.name.as_slice());
                bytes.extend_from_slice(header.value.as_slice());
                i = i + 1;
            }
            sha1_text(bytes.as_slice())
        },
        None => "auth-error".to_owned(),
    }
}

fn text_or(text: &Option<String>, other: &str) -> (chosen: String)
    ensures
        chosen@ == or_else(text.deep_view(), other@),
{
    match text {
        Some(text) => text.clone(),
        None => other.to_owned(),
    }
}

/// Whether limits say anything of quota. The name of a plan alone does not.
pub open spec fn has_quota(limit: LimitModel) -> bool {
    ||| limit.primary is Some
    ||| limit.secondary is Some
    ||| limit.credits is Some
    ||| limit.individual_limit is Some
    ||| limit.spend_control_reached is Some
    ||| limit.rate_limit_reached_type is Some
}

/// Whether limits say anything of quota. The name of a plan alone does not.
pub fn has_quota_data(limit: &RateLimitSnapshot) -> (data: bool)
    ensures
        data == has_quota(limit.deep_view()),
{
    limit.primary.is_some() || limit.secondary.is_some() || limit.credits.is_some()
        || limit.individual_limit.is_some() || limit.spend_control_reached.is_some()
        || limit.rate_limit_reached_type.is_some()
}

/// What was read of quota, for one identity.
#[derive(Debug, PartialEq)]
pub struct CachedSnapshot {
    /// When it was read, in nanoseconds of a clock that never goes back.
    pub fetched: i128,
    pub identity: String,
    pub result: Result<Vec<GoalQuotaSnapshot>, String>,
}

/// What a read stands for.
pub struct CacheModel {
    pub fetched: i128,
    pub identity: Seq<char>,
    pub result: Result<Seq<QuotaModel>, Seq<char>>,
}

/// What the result of a read stands for.
pub open spec fn read_model(result: Result<Vec<GoalQuotaSnapshot>, String>) -> Result<
    Seq<QuotaModel>,
    Seq<char>,
> {
    match result {
        Ok(snapshots) => Ok(snapshots.deep_view()),
        Err(message) => Err(message@),
    }
}

impl DeepView for CachedSnapshot {
    type V = CacheModel;

    open spec fn deep_view(&self) -> CacheModel {
        CacheModel {
            fetched: self.fetched,
            identity: self.identity@,
            result: read_model(self.result),
        }
    }
}

/// The observer of the quota of a session.
#[derive(Debug, PartialEq)]
pub struct GoalQuotaProvider {
    /// The endpoint of the client, where the session does not say otherwise.
    pub base_url: String,
    /// The provider of the session, where endpoint and authentication are resolved anew for each
    /// read.
    pub runtime_provider: Option<ModelProviderInfo>,
    pub source: String,
    pub scope_hint: String,
    pub usage_url: Option<String>,
    pub pool_scope: String,
    pub cache: Option<CachedSnapshot>,
}

/// What an observer of quota stands for.
pub struct ProviderModel {
    pub base_url: Seq<char>,
    pub runtime_provider: Option<InfoModel>,
    pub source: Seq<char>,
    pub scope_hint: Seq<char>,
    pub usage_url: Option<Seq<char>>,
    pub pool_scope: Seq<char>,
    pub cache: Option<CacheModel>,
}

impl DeepView for GoalQuotaProvider {
    type V = ProviderModel;

    open spec fn deep_view(&self) -> ProviderModel {
        ProviderModel {
            base_url: self.base_url@,
            runtime_provider: self.runtime_provider.deep_view(),
            source: self.source@,
            scope_hint: self.scope_hint@,
            usage_url: self.usage_url.deep_view(),
            pool_scope: self.pool_scope@,
            cache: self.cache.deep_view(),
        }
    }
}

/// Whose quota the usage of a provider speaks of: that of a key, or that of an account.
pub open spec fn source_of(usage_url: Option<Seq<char>>) -> Seq<char> {
    if usage_url is Some {
        "provider-key"@
    } else {
        "chatgpt-account"@
    }
}

/// The scope of the pool behind an endpoint.
pub open spec fn pool_scope_of(base_url: Seq<char>) -> Seq<char> {
    "pool@"@ + endpoint_digest(base_url)
}

/// An observer that has read nothing yet.
pub open spec fn new_provider(
    usage_url: Option<Seq<char>>,
    base_url: Seq<char>,
    scope_hint: Seq<char>,
    runtime_provider: Option<InfoModel>,
) -> ProviderModel {
    ProviderModel {
        base_url,
        runtime_provider,
        source: source_of(usage_url),
        scope_hint,
        usage_url,
        pool_scope: pool_scope_of(base_url),
        cache: None,
    }
}

impl ProviderModel {
    /// Whether usage can be read without a request to a model.
    pub open spec fn reads_usage(self) -> bool {
        match self.runtime_provider {
            Some(info) => info.usage_url is Some || (info.is_openai && info.base_url is None),
            None => self.usage_url is Some,
        }
    }

    /// The identity of the session.
    pub open spec fn identity(self, auth: RuntimeAuth) -> Seq<char> {
        match self.runtime_provider {
            Some(info) => runtime_identity(info, auth),
            None => self.scope_hint,
        }
    }

    /// The scope of what responses tell an identity.
    pub open spec fn response_scope(self, identity: Seq<char>) -> Seq<char> {
        self.pool_scope + "#"@ + endpoint_digest(identity)
    }
}

/// The observation of limits in a response.
pub open spec fn pool_snapshot(limit: LimitModel, scope: Seq<char>, at: i64) -> QuotaModel {
    QuotaModel {
        captured_at: at,
        source: "provider-pool"@,
        scope_id: scope,
        limits: seq![limit],
    }
}

/// Limits with those of one feature brought up to date.
pub open spec fn with_limit(limits: Seq<LimitModel>, limit: LimitModel) -> Seq<LimitModel> {
    match position(limits, |existing: LimitModel| existing.limit_id == limit.limit_id) {
        Some(at) => limits.update(at, limit),
        None => limits.push(limit),
    }
}

/// Snapshots with the pool brought up to date.
pub open spec fn with_observation(
    snapshots: Seq<QuotaModel>,
    limit: LimitModel,
    scope: Seq<char>,
    at: i64,
) -> Seq<QuotaModel> {
    match position(snapshots, |snapshot: QuotaModel| snapshot.source == "provider-pool"@) {
        Some(i) => snapshots.update(
            i,
            QuotaModel {
                captured_at: at,
                limits: with_limit(snapshots[i].limits, limit),
                ..snapshots[i]
            },
        ),
        None => snapshots.push(pool_snapshot(limit, scope, at)),
    }
}

/// What is kept once a response brought limits: for another identity, they alone; for the same,
/// what was kept with the pool brought up to date. Where usage can be read, a response does not put
/// off the next read.
pub open spec fn observed(
    provider: ProviderModel,
    limit: LimitModel,
    identity: Seq<char>,
    now: i64,
    at: i64,
) -> Option<CacheModel> {
    let scope = provider.response_scope(identity);
    if !has_quota(limit) {
        provider.cache
    } else {
        match provider.cache {
            Some(cached) if cached.identity == identity => Some(
                CacheModel {
                    fetched: if provider.reads_usage() {
                        cached.fetched
                    } else {
                        now as i128
                    },
                    identity,
                    result: Ok(
                        with_observation(
                            match cached.result {
                                Ok(snapshots) => snapshots,
                                Err(_) => Seq::empty(),
                            },
                            limit,
                            scope,
                            at,
                        ),
                    ),
                },
            ),
            _ => Some(
                CacheModel {
                    fetched: if provider.reads_usage() {
                        (now - CACHE_TTL_NANOS) as i128
                    } else {
                        now as i128
                    },
                    identity,
                    result: Ok(seq![pool_snapshot(limit, scope, at)]),
                },
            ),
        }
    }
}

/// Whether a read for an identity still counts.
pub open spec fn is_fresh(cached: CacheModel, identity: Seq<char>, now: i64) -> bool {
    now - cached.fetched < CACHE_TTL_NANOS && cached.identity == identity
}

/// Whether a snapshot is an observation in a response that still counts.
pub open spec fn is_fresh_observation(snapshot: QuotaModel, at: i64) -> bool {
    snapshot.source == "provider-pool"@ && saturated(at - snapshot.captured_at)
        < CACHE_TTL_SECONDS
}

/// Whether some snapshot is of the same source and scope.
pub open spec fn has_same_scope(snapshots: Seq<QuotaModel>, other: QuotaModel) -> bool {
    exists|i: int|
        0 <= i < snapshots.len() && (#[trigger] snapshots[i]).source == other.source
            && snapshots[i].scope_id == other.scope_id
}

/// A read, with an observation added where it still counts and the read says nothing of its scope.
/// An observation stands in for a read that failed.
pub open spec fn with_earlier(
    read: Result<Seq<QuotaModel>, Seq<char>>,
    earlier: QuotaModel,
    at: i64,
) -> Result<Seq<QuotaModel>, Seq<char>> {
    if is_fresh_observation(earlier, at) {
        let snapshots = match read {
            Ok(snapshots) => snapshots,
            Err(_) => Seq::empty(),
        };
        if has_same_scope(snapshots, earlier) {
            Ok(snapshots)
        } else {
            Ok(snapshots.push(earlier))
        }
    } else {
        read
    }
}

/// A read, with the first `count` earlier observations added.
pub open spec fn with_all_earlier(
    read: Result<Seq<QuotaModel>, Seq<char>>,
    earlier: Seq<QuotaModel>,
    count: nat,
    at: i64,
) -> Result<Seq<QuotaModel>, Seq<char>>
    decreases count,
{
    if count == 0 {
        read
    } else {
        with_earlier(
            with_all_earlier(read, earlier, (count - 1) as nat, at),
            earlier[count - 1],
            at,
        )
    }
}

/// A read, with the observations added that are kept for the identity.
pub open spec fn merged(
    read: Result<Seq<QuotaModel>, Seq<char>>,
    cache: Option<CacheModel>,
    identity: Seq<char>,
    at: i64,
) -> Result<Seq<QuotaModel>, Seq<char>> {
    match cache {
        Some(cached) if cached.identity == identity => match cached.result {
            Ok(earlier) => with_all_earlier(read, earlier, earlier.len(), at),
            Err(_) => read,
        },
        _ => read,
    }
}

/// How current quota is to be had.
#[derive(Debug, PartialEq)]
pub enum SnapshotPlan {
    /// It is known.
    Known(Result<Vec<GoalQuotaSnapshot>, String>),
    /// Usage has to be read for this identity, where `read` says so, and brought together with
    /// what is kept.
    Refresh { identity: String, read: bool },
}

fn copy_read(result: &Result<Vec<GoalQuotaSnapshot>, String>) -> (copy: Result<
    Vec<GoalQuotaSnapshot>,
    String,
>)
    ensures
        read_model(copy) == read_model(*result),
{
    match result {
        Ok(snapshots) => Ok(clone_snapshots(snapshots)),
        Err(message) => Err(message.clone()),
    }
}

impl GoalQuotaProvider {
    /// An observer for a provider, or none where the provider has no endpoint.
    pub fn new(provider: &ModelProviderInfo, account_id: Option<String>) -> (observer: Option<Self>)
        ensures
            observer.deep_view() == match provider.base_url {
                Some(base_url) => Some(
                    new_provider(
                        provider.usage_url.deep_view(),
                        base_url@,
                        or_else(account_id.deep_view(), "unknown"@),
                        None,
                    ),
                ),
                None => None,
            },
    {
        match &provider.base_url {
            Some(base_url) => Self::new_with_base_url(provider, base_url.clone(), account_id),
            None => None,
        }
    }

    /// An observer for a provider at an endpoint, for an account.
    pub fn new_with_base_url(
        provider: &ModelProviderInfo,
        base_url: String,
        account_id: Option<String>,
    ) -> (observer: Option<Self>)
        ensures
            observer.deep_view() == Some(
                new_provider(
                    provider.usage_url.deep_view(),
                    base_url@,
                    or_else(account_id.deep_view(), "unknown"@),
                    None,
                ),
            ),
    {
        let scope_hint = text_or(&account_id, "unknown");
        Some(Self::new_with_auth_provider(provider, base_url, scope_hint))
    }

    /// An observer for a provider at an endpoint, for a scope.
    pub fn new_with_auth_provider(
        provider: &ModelProviderInfo,
        base_url: String,
        scope_hint: String,
    ) -> (observer: Self)
        ensures
            observer.deep_view() == new_provider(
                provider.usage_url.deep_view(),
                base_url@,
                scope_hint@,
                None,
            ),
    {
        let mut pool_scope = "pool@".to_owned();
        pool_scope.append(normalize_endpoint(base_url.as_str()).as_str());
        GoalQuotaProvider {
            base_url,
            runtime_provider: None,
            source: if provider.usage_url.is_some() {
                "provider-key".to_owned()
            } else {
                "chatgpt-account".to_owned()
            },
            scope_hint,
            usage_url: provider.usage_url.clone(),
            pool_scope,
            cache: None,
        }
    }

    /// An observer that resolves endpoint and authentication of the session anew for each read, so
    /// that quota keeps to the account in use.
    pub fn new_with_model_provider(info: ModelProviderInfo) -> (observer: Self)
        ensures
            observer.deep_view() == new_provider(
                info.usage_url.deep_view(),
                or_else(info.base_url.deep_view(), ""@),
                "unknown"@,
                Some(info.deep_view()),
            ),
    {
        let base_url = text_or(&info.base_url, "");
        let mut observer = Self::new_with_auth_provider(&info, base_url, "unknown".to_owned());
        observer.runtime_provider = Some(info);
        observer
    }

    /// Whether usage can be read without a request to a model.
    pub fn passive_usage_enabled(&self) -> (enabled: bool)
        ensures
            enabled == self.deep_view().reads_usage(),
    {
        match &self.runtime_provider {
            Some(info) => info.usage_url.is_some() || (info.is_openai && info.base_url.is_none()),
            None => self.usage_url.is_some(),
        }
    }

    /// The scope of what responses tell an identity.
    pub fn response_scope_id(&self, identity: &str) -> (scope: String)
        ensures
            scope@ == self.deep_view().response_scope(identity@),
    {
        let mut scope = self.pool_scope.clone();
        scope.append("#");
        scope.append(normalize_endpoint(identity).as_str());
        scope
    }

    /// The identity of the session, with its authentication as it stands.
    pub fn current_identity(&self, auth: &RuntimeAuth) -> (identity: String)
        ensures
            identity@ == self.deep_view().identity(*auth),
    {
        match &self.runtime_provider {
            Some(info) => {
                let base_url = text_or(&info.base_url, "");
                let mut identity = normalize_endpoint(base_url.as_str());
                identity.append("|");
                identity.append(text_or(&auth.account_id, "unknown").as_str());
                identity.append("|");
                identity.append(text_or(&auth.mode, "none").as_str());
                identity.append("|");
                identity.append(auth_fingerprint(auth).as_str());
                identity
            },
            None => self.scope_hint.clone(),
        }
    }

    /// Drops what is kept, once the identity of the session changed.
    pub fn invalidate_cache(&mut self)
        ensures
            final(self).deep_view() == (ProviderModel { cache: None, ..old(self).deep_view() }),
    {
        self.cache = None;
    }
}

/// The snapshots of a read; none where it failed.
fn snapshots_or_none(read: Result<Vec<GoalQuotaSnapshot>, String>) -> (snapshots: Vec<
    GoalQuotaSnapshot,
>)
    ensures
        snapshots.deep_view() == match read_model(read) {
            Ok(list) => list,
            Err(_) => Seq::empty(),
        },
{
    match read {
        Ok(list) => list,
        Err(_) => {
            let none: Vec<GoalQuotaSnapshot> = Vec::new();
            proof {
                assert(none.deep_view() =~= Seq::empty());
            }
            none
        },
    }
}

fn same_limit_id(a: &Option<String>, b: &Option<String>) -> (same: bool)
    ensures
        same == (a.deep_view() == b.deep_view()),
{
    match (a, b) {
        (Some(a), Some(b)) => same_text(a.as_str(), b.as_str()),
        (None, None) => true,
        _ => false,
    }
}

/// Brings the limits of one feature up to date.
fn put_limit(limits: &mut Vec<RateLimitSnapshot>, limit: RateLimitSnapshot)
    ensures
        final(limits).deep_view() == with_limit(old(limits).deep_view(), limit.deep_view()),
{
    let ghost all = limits.deep_view();
    let ghost meets = |existing: LimitModel| existing.limit_id == limit.deep_view().limit_id;
    let mut i: usize = 0;
    proof {
        assert(all.skip(0) =~= all);
    }
    while i < limits.len()
        invariant
            i <= limits@.len(),
            limits@ == old(limits)@,
            all == old(limits).deep_view(),
            meets == (|existing: LimitModel| existing.limit_id == limit.deep_view().limit_id),
            position(all, meets) == shifted(position(all.skip(i as int), meets), i as int),
        decreases limits@.len() - i,
    {
        proof {
            lemma_position_skip(all, meets, i as int);
        }
        if same_limit_id(&limits[i].limit_id, &limit.limit_id) {
            limits.set(i, limit);
            proof {
                assert(limits.deep_view() =~= all.update(i as int, limit.deep_view()));
            }
            return;
        }
        i = i + 1;
    }
    limits.push(limit);
    proof {
        assert(limits.deep_view() =~= all.push(limit.deep_view()));
    }
}

fn single_limit(limit: RateLimitSnapshot) -> (limits: Vec<RateLimitSnapshot>)
    ensures
        limits.deep_view() == seq![limit.deep_view()],
{
    let mut limits: Vec<RateLimitSnapshot> = Vec::new();
    limits.push(limit);
    proof {
        assert(limits.deep_view() =~= seq![limit.deep_view()]);
    }
    limits
}

/// Brings the pool up to date.
fn put_observation(
    snapshots: &mut Vec<GoalQuotaSnapshot>,
    limit: RateLimitSnapshot,
    scope_id: String,
    captured_at: i64,
)
    ensures
        final(snapshots).deep_view() == with_observation(
            old(snapshots).deep_view(),
            limit.deep_view(),
            scope_id@,
            captured_at,
        ),
{
    let ghost all = snapshots.deep_view();
    let ghost meets = |snapshot: QuotaModel| snapshot.source == "provider-pool"@;
    let mut i: usize = 0;
    proof {
        assert(all.skip(0) =~= all);
    }
    while i < snapshots.len()
        invariant
            i <= snapshots@.len(),
            snapshots@ == old(snapshots)@,
            all == old(snapshots).deep_view(),
            meets == (|snapshot: QuotaModel| snapshot.source == "provider-pool"@),
            position(all, meets) == shifted(position(all.skip(i as int), meets), i as int),
        decreases snapshots@.len() - i,
    {
        proof {
            lemma_position_skip(all, meets, i as int);
        }
        if same_text(snapshots[i].source.as_str(), "provider-pool") {
            let mut snapshot = snapshots[i].clone();
            put_limit(&mut snapshot.limits, limit);
            snapshot.captured_at = captured_at;
            snapshots.set(i, snapshot);
            proof {
                assert(snapshots.deep_view() =~= all.update(i as int, snapshot.deep_view()));
            }
            return;
        }
        i = i + 1;
    }
    let snapshot = GoalQuotaSnapshot {
        captured_at,
        source: "provider-pool".to_owned(),
        scope_id,
        limits: single_limit(limit),
    };
    snapshots.push(snapshot);
    proof {
        assert(snapshots.deep_view() =~= all.push(snapshot.deep_view()));
    }
}

fn holds_scope(snapshots: &Vec<GoalQuotaSnapshot>, other: &GoalQuotaSnapshot) -> (found: bool)
    ensures
        found == has_same_scope(snapshots.deep_view(), other.deep_view()),
{
    let ghost all = snapshots.deep_view();
    let mut i: usize = 0;
    while i < snapshots.len()
        invariant
            i <= snapshots@.len(),
            all == snapshots.deep_view(),
            forall|j: int|
                0 <= j < i ==> (#[trigger] all[j]).source != other.source@ || all[j].scope_id
                    != other.scope_id@,
        decreases snapshots@.len() - i,
    {
        if snapshots[i].source == other.source && snapshots[i].scope_id == other.scope_id {
            proof {
                assert(all[i as int].source == other.source@);
            }
            return true;
        }
        i = i + 1;
    }
    false
}

/// Adds the observations that are kept for the identity to a read.
fn merge_earlier(
    read: Result<Vec<GoalQuotaSnapshot>, String>,
    cache: &Option<CachedSnapshot>,
    identity: &String,
    at: i64,
) -> (result: Result<Vec<GoalQuotaSnapshot>, String>)
    ensures
        read_model(result) == merged(read_model(read), cache.deep_view(), identity@, at),
{
    let mut result = read;
    let ghost given = read_model(read);
    if let Some(cached) = cache {
        if cached.identity == *identity {
            if let Ok(earlier) = &cached.result {
                let ghost all = earlier.deep_view();
                let mut i: usize = 0;
                while i < earlier.len()
                    invariant
                        i <= earlier@.len(),
                        all == earlier.deep_view(),
                        read_model(result) == with_all_earlier(given, all, i as nat, at),
                    decreases earlier@.len() - i,
                {
                    let snapshot = &earlier[i];
                    if same_text(snapshot.source.as_str(), "provider-pool")
                        && saturating_difference(at, snapshot.captured_at) < CACHE_TTL_SECONDS {
                        let mut snapshots = snapshots_or_none(result);
                        if !holds_scope(&snapshots, snapshot) {
                            let copy = snapshot.clone();
                            let ghost before = snapshots@;
                            snapshots.push(copy);
                            proof {
                                lemma_push_deep_view(before, snapshots, copy);
                                lemma_models_of(before);
                            }
                        }
                        result = Ok(snapshots);
                    }
                    i = i + 1;
                }
            }
        }
    }
    result
}

impl GoalQuotaProvider {
    /// Keeps what a response says of limits. `now` reads the clock of the cache, and `at` the Unix
    /// seconds.
    pub fn observe_response(
        &mut self,
        limit: RateLimitSnapshot,
        auth: &RuntimeAuth,
        now: i64,
        at: i64,
    )
        ensures
            final(self).deep_view() == (ProviderModel {
                cache: observed(
                    old(self).deep_view(),
                    limit.deep_view(),
                    old(self).deep_view().identity(*auth),
                    now,
                    at,
                ),
                ..old(self).deep_view()
            }),
    {
        let identity = self.current_identity(auth);
        if !has_quota_data(&limit) {
            return;
        }
        let scope_id = self.response_scope_id(identity.as_str());
        let passive = self.passive_usage_enabled();
        match self.cache.take() {
            Some(cached) => {
                if cached.identity == identity {
                    let mut snapshots = snapshots_or_none(cached.result);
                    put_observation(&mut snapshots, limit, scope_id, at);
                    self.cache = Some(
                        CachedSnapshot {
                            fetched: if passive {
                                cached.fetched
                            } else {
                                now as i128
                            },
                            identity,
                            result: Ok(snapshots),
                        },
                    );
                    return;
                }
            },
            None => {},
        }
        let mut snapshots: Vec<GoalQuotaSnapshot> = Vec::new();
        let snapshot = GoalQuotaSnapshot {
            captured_at: at,
            source: "provider-pool".to_owned(),
            scope_id,
            limits: single_limit(limit),
        };
        snapshots.push(snapshot);
        proof {
            assert(snapshots.deep_view() =~= seq![snapshot.deep_view()]);
        }
        self.cache = Some(
            CachedSnapshot {
                fetched: if passive {
                    now as i128 - CACHE_TTL_NANOS as i128
                } else {
                    now as i128
                },
                identity,
                result: Ok(snapshots),
            },
        );
    }

    /// Says how current quota is to be had: from a read that still counts, or by a refresh.
    pub fn snapshot_many(&self, auth: &RuntimeAuth, now: i64) -> (plan: SnapshotPlan)
        ensures
            match plan {
                SnapshotPlan::Known(result) => {
                    &&& self.cache is Some
                    &&& is_fresh(
                        self.cache->0.deep_view(),
                        self.deep_view().identity(*auth),
                        now,
                    )
                    &&& read_model(result) == self.cache->0.deep_view().result
                },
                SnapshotPlan::Refresh { identity, read } => {
                    &&& self.cache matches Some(cached) ==> !is_fresh(
                        cached.deep_view(),
                        self.deep_view().identity(*auth),
                        now,
                    )
                    &&& identity@ == self.deep_view().identity(*auth)
                    &&& read == self.deep_view().reads_usage()
                },
            },
    {
        let identity = self.current_identity(auth);
        if let Some(cached) = &self.cache {
            if now as i128 - (CACHE_TTL_NANOS as i128) < cached.fetched && cached.identity
                == identity {
                return SnapshotPlan::Known(copy_read(&cached.result));
            }
        }
        SnapshotPlan::Refresh { identity, read: self.passive_usage_enabled() }
    }

    /// Ends a refresh: what was read is brought together with the observations that are kept for
    /// the identity, and kept. Where nothing had to be read, `read` is none.
    pub fn finish_refresh(
        &mut self,
        identity: String,
        read: Option<Result<Vec<GoalQuotaSnapshot>, String>>,
        now: i64,
        at: i64,
    ) -> (result: Result<Vec<GoalQuotaSnapshot>, String>)
        ensures
            read_model(result) == merged(
                match read {
                    Some(result) => read_model(result),
                    None => Ok(Seq::empty()),
                },
                old(self).cache.deep_view(),
                identity@,
                at,
            ),
            final(self).deep_view() == (ProviderModel {
                cache: Some(
                    CacheModel {
                        fetched: now as i128,
                        identity: identity@,
                        result: read_model(result),
                    },
                ),
                ..old(self).deep_view()
            }),
    {
        let fetched = match read {
            Some(result) => result,
            None => {
                let none: Vec<GoalQuotaSnapshot> = Vec::new();
                proof {
                    assert(none.deep_view() =~= Seq::empty());
                }
                Ok(none)
            },
        };
        let result = merge_earlier(fetched, &self.cache, &identity, at);
        self.cache = Some(
            CachedSnapshot { fetched: now as i128, identity, result: copy_read(&result) },
        );
        result
    }
}

/// A text without the repetitions of `suffix` at its end.
pub open spec fn trim_end_text(s: Seq<char>, suffix: Seq<char>) -> Seq<char>
    decreases s.len(),
{
    if suffix.len() > 0 && has_suffix(s, suffix) {
        trim_end_text(s.take(s.len() - suffix.len()), suffix)
    } else {
        s
    }
}

fn trim_end_matches(text: &str, suffix: &str) -> (trim: String)
    ensures
        trim@ == trim_end_text(text@, suffix@),
{
    let mut chars = chars_of(text);
    let end = chars_of(suffix);
    if end.len() > 0 {
        while ends_with(&chars, &end)
            invariant
                end@ == suffix@,
                end@.len() > 0,
                trim_end_text(text@, suffix@) == trim_end_text(chars@, suffix@),
            decreases chars@.len(),
        {
            let keep: usize = chars.len() - end.len();
            proof {
                assert(chars@.take(chars@.len() - suffix@.len()) =~= chars@.subrange(
                    0,
                    keep as int,
                ));
            }
            chars = copy_range(&chars, 0, keep);
        }
    }
    text_of(&chars)
}

/// A quota snapshot, where there is one, or why none could be had.
pub type GoalQuotaSnapshotResult = Result<Option<GoalQuotaSnapshot>, String>;

/// From where usage is read, and for whom.
#[derive(Debug, PartialEq, Eq)]
pub struct FetchPlan {
    /// The endpoint of the client.
    pub base_url: String,
    /// The endpoint of the usage, where it is not that of the client.
    pub usage_url: Option<String>,
    pub source: String,
    /// The scope to name where the usage names none.
    pub scope_hint: String,
}

/// What a plan stands for.
pub struct PlanModel {
    pub base_url: Seq<char>,
    pub usage_url: Option<Seq<char>>,
    pub source: Seq<char>,
    pub scope_hint: Seq<char>,
}

impl DeepView for FetchPlan {
    type V = PlanModel;

    open spec fn deep_view(&self) -> PlanModel {
        PlanModel {
            base_url: self.base_url@,
            usage_url: self.usage_url.deep_view(),
            source: self.source@,
            scope_hint: self.scope_hint@,
        }
    }
}

/// What the session resolves anew for each read, each with the text of its error.
#[derive(Debug, PartialEq, Eq)]
pub struct RuntimeResolution {
    pub base_url: Result<Option<String>, String>,
    pub api_auth: Result<(), String>,
    pub account_id: Option<String>,
}

/// The endpoint of the session: the one that it resolved, or else the one of its provider.
pub open spec fn resolved_base_url(info: InfoModel, resolution: RuntimeResolution) -> Result<
    Seq<char>,
    Seq<char>,
> {
    match resolution.base_url {
        Err(message) => Err(message@),
        Ok(Some(base_url)) => Ok(base_url@),
        Ok(None) => match info.base_url {
            Some(base_url) => Ok(base_url),
            None => Err("provider has no base URL"@),
        },
    }
}

/// How usage is read: for a session, as it resolved; else as the observer was made.
pub open spec fn fetch_plan(provider: ProviderModel, resolution: RuntimeResolution) -> Result<
    PlanModel,
    Seq<char>,
> {
    match provider.runtime_provider {
        None => Ok(
            PlanModel {
                base_url: provider.base_url,
                usage_url: provider.usage_url,
                source: provider.source,
                scope_hint: provider.scope_hint,
            },
        ),
        Some(info) => match resolved_base_url(info, resolution) {
            Err(message) => Err(message),
            Ok(base_url) => match resolution.api_auth {
                Err(message) => Err(message@),
                Ok(_) => Ok(
                    PlanModel {
                        base_url: if info.usage_url is None {
                            trim_end_text(base_url, "/codex"@)
                        } else {
                            base_url
                        },
                        usage_url: info.usage_url,
                        source: source_of(info.usage_url),
                        scope_hint: or_else(resolution.account_id.deep_view(), "unknown"@),
                    },
                ),
            },
        },
    }
}

/// The limits that say something of quota, in their order.
pub open spec fn with_data(limits: Seq<LimitModel>) -> Seq<LimitModel>
    decreases limits.len(),
{
    if limits.len() == 0 {
        Seq::empty()
    } else {
        let kept = with_data(limits.drop_last());
        if has_quota(limits.last()) {
            kept.push(limits.last())
        } else {
            kept
        }
    }
}

/// A snapshot of limits, where any say something of quota.
pub open spec fn snapshot_of(
    limits: Seq<LimitModel>,
    source: Seq<char>,
    scope_id: Seq<char>,
    at: i64,
) -> Seq<QuotaModel> {
    let kept = with_data(limits);
    if kept.len() == 0 {
        Seq::empty()
    } else {
        seq![QuotaModel { captured_at: at, source, scope_id, limits: kept }]
    }
}

/// The scope of usage: the account or the user that it names, or else the hint.
pub open spec fn usage_scope(limits: RateLimitsWithResetCredits, hint: Seq<char>) -> Seq<char> {
    match (limits.account_id, limits.user_id) {
        (Some(account), _) => account@,
        (None, Some(user)) => user@,
        (None, None) => hint,
    }
}

/// What a read of usage says: of the key or account, and of the pool, each where there is
/// something to say.
pub open spec fn snapshots_of_usage(
    provider: ProviderModel,
    plan: PlanModel,
    limits: RateLimitsWithResetCredits,
    identity: Seq<char>,
    at: i64,
) -> Seq<QuotaModel> {
    snapshot_of(
        limits.rate_limits.deep_view(),
        plan.source,
        usage_scope(limits, plan.scope_hint),
        at,
    ) + snapshot_of(
        limits.header_rate_limits.deep_view(),
        "provider-pool"@,
        provider.response_scope(identity),
        at,
    )
}

fn keep_with_data(limits: &Vec<RateLimitSnapshot>) -> (kept: Vec<RateLimitSnapshot>)
    ensures
        kept.deep_view() == with_data(limits.deep_view()),
{
    let ghost all = limits.deep_view();
    let mut kept: Vec<RateLimitSnapshot> = Vec::new();
    let mut i: usize = 0;
    proof {
        assert(all.take(0) =~= Seq::empty());
        assert(kept.deep_view() =~= Seq::empty());
    }
    while i < limits.len()
        invariant
            i <= limits@.len(),
            all == limits.deep_view(),
            kept.deep_view() == with_data(all.take(i as int)),
        decreases limits@.len() - i,
    {
        proof {
            assert(all.take(i + 1).drop_last() =~= all.take(i as int));
        }
        if has_quota_data(&limits[i]) {
            let limit = limits[i].clone();
            let ghost before = kept@;
            kept.push(limit);
            proof {
                lemma_push_deep_view(before, kept, limit);
                lemma_models_of(before);
            }
        }
        i = i + 1;
    }
    proof {
        assert(all.take(all.len() as int) =~= all);
    }
    kept
}

impl GoalQuotaProvider {
    /// Plans a read of usage. An observer that was not made for a session needs no resolution.
    pub fn plan_fetch(&self, resolution: &RuntimeResolution) -> (plan: Result<FetchPlan, String>)
        ensures
            match plan {
                Ok(plan) => fetch_plan(self.deep_view(), *resolution) == Ok::<
                    PlanModel,
                    Seq<char>,
                >(plan.deep_view()),
                Err(message) => fetch_plan(self.deep_view(), *resolution) == Err::<
                    PlanModel,
                    Seq<char>,
                >(message@),
            },
    {
        let info = match &self.runtime_provider {
            Some(info) => info,
            None => {
                return Ok(
                    FetchPlan {
                        base_url: self.base_url.clone(),
                        usage_url: self.usage_url.clone(),
                        source: self.source.clone(),
                        scope_hint: self.scope_hint.clone(),
                    },
                );
            },
        };
        let base_url = match &resolution.base_url {
            Err(message) => {
                return Err(message.clone());
            },
            Ok(Some(base_url)) => base_url.clone(),
            Ok(None) => match &info.base_url {
                Some(base_url) => base_url.clone(),
                None => {
                    return Err("provider has no base URL".to_owned());
                },
            },
        };
        if let Err(message) = &resolution.api_auth {
            return Err(message.clone());
        }
        Ok(
            FetchPlan {
                base_url: if info.usage_url.is_none() {
                    trim_end_matches(base_url.as_str(), "/codex")
                } else {
                    base_url
                },
                usage_url: info.usage_url.clone(),
                source: if info.usage_url.is_some() {
                    "provider-key".to_owned()
                } else {
                    "chatgpt-account".to_owned()
                },
                scope_hint: text_or(&resolution.account_id, "unknown"),
            },
        )
    }

    /// What a read of usage says.
    pub fn fetch_many(
        &self,
        plan: FetchPlan,
        limits: RateLimitsWithResetCredits,
        auth: &RuntimeAuth,
        at: i64,
    ) -> (snapshots: Vec<GoalQuotaSnapshot>)
        ensures
            snapshots.deep_view() == snapshots_of_usage(
                self.deep_view(),
                plan.deep_view(),
                limits,
                self.deep_view().identity(*auth),
                at,
            ),
    {
        let scope_id = match (limits.account_id, limits.user_id) {
            (Some(account), _) => account,
            (None, Some(user)) => user,
            (None, None) => plan.scope_hint,
        };
        let key_limits = keep_with_data(&limits.rate_limits);
        let pool_limits = keep_with_data(&limits.header_rate_limits);
        let ghost key = snapshot_of(
            limits.rate_limits.deep_view(),
            plan.source@,
            usage_scope(limits, plan.scope_hint@),
            at,
        );
        let mut snapshots: Vec<GoalQuotaSnapshot> = Vec::new();
        if key_limits.len() > 0 {
            snapshots.push(
                GoalQuotaSnapshot {
                    captured_at: at,
                    source: plan.source,
                    scope_id,
                    limits: key_limits,
                },
            );
        }
        proof {
            assert(snapshots.deep_view() =~= key);
        }
        let ghost before = snapshots@;
        if pool_limits.len() > 0 {
            let identity = self.current_identity(auth);
            let snapshot = GoalQuotaSnapshot {
                captured_at: at,
                source: "provider-pool".to_owned(),
                scope_id: self.response_scope_id(identity.as_str()),
                limits: pool_limits,
            };
            snapshots.push(snapshot);
            proof {
                lemma_push_deep_view(before, snapshots, snapshot);
                lemma_models_of(before);
            }
        }
        proof {
            assert(snapshots.deep_view() =~= snapshots_of_usage(
                self.deep_view(),
                plan.deep_view(),
                limits,
                self.deep_view().identity(*auth),
                at,
            ));
        }
        snapshots
    }

    /// The first snapshot of a result.
    pub fn snapshot(result: Result<Vec<GoalQuotaSnapshot>, String>) -> (first:
        GoalQuotaSnapshotResult)
        ensures
            match (result, first) {
                (Ok(snapshots), Ok(first)) => first.deep_view() == (if snapshots@.len() > 0 {
                    Some(snapshots@[0].deep_view())
                } else {
                    None
                }),
                (Err(message), Err(same)) => same == message,
                _ => false,
            },
    {
        match result {
            Ok(snapshots) => if snapshots.len() > 0 {
                Ok(Some(snapshots[0].clone()))
            } else {
                Ok(None)
            },
            Err(message) => Err(message),
        }
    }
}

/// Whether every limit of every snapshot says something of quota, and every snapshot has limits.
pub open spec fn all_have_data(snapshots: Seq<QuotaModel>) -> bool {
    forall|i: int|
        0 <= i < snapshots.len() ==> (#[trigger] snapshots[i]).limits.len() > 0 && forall|j: int|
            0 <= j < snapshots[i].limits.len() ==> has_quota(#[trigger] snapshots[i].limits[j])
}

/// Whether no limit says anything of quota.
pub open spec fn none_has_data(limits: Seq<LimitModel>) -> bool {
    forall|i: int| 0 <= i < limits.len() ==> !has_quota(#[trigger] limits[i])
}

proof fn lemma_with_data(limits: Seq<LimitModel>)
    ensures
        none_has_data(limits) ==> with_data(limits).len() == 0,
        forall|i: int| 0 <= i < with_data(limits).len() ==> has_quota(#[trigger] with_data(limits)[i]),
    decreases limits.len(),
{
    if limits.len() > 0 {
        let kept = with_data(limits.drop_last());
        lemma_with_data(limits.drop_last());
        assert(limits[limits.len() - 1] == limits.last());
        assert(forall|i: int|
            0 <= i < limits.len() - 1 ==> #[trigger] limits.drop_last()[i] == limits[i]);
        assert forall|i: int| 0 <= i < with_data(limits).len() implies has_quota(
            #[trigger] with_data(limits)[i],
        ) by {
            if i < kept.len() {
                assert(with_data(limits)[i] == kept[i]);
            }
        }
    }
}

/// No snapshot is made up: where an answer says nothing of quota there is none, and every snapshot
/// of a read holds limits that say something of quota.
pub proof fn lemma_usage_is_not_made_up(
    provider: ProviderModel,
    plan: PlanModel,
    limits: RateLimitsWithResetCredits,
    identity: Seq<char>,
    at: i64,
)
    ensures
        all_have_data(snapshots_of_usage(provider, plan, limits, identity, at)),
        none_has_data(limits.rate_limits.deep_view()) && none_has_data(
            limits.header_rate_limits.deep_view(),
        ) ==> snapshots_of_usage(provider, plan, limits, identity, at).len() == 0,
{
    lemma_with_data(limits.rate_limits.deep_view());
    lemma_with_data(limits.header_rate_limits.deep_view());
}

/// A read counts for a minute, and for its own identity only. So right after a refresh the same
/// result is known for the same identity, and no result for another.
pub proof fn lemma_refresh_counts_for_a_minute(
    identity: Seq<char>,
    other: Seq<char>,
    result: Result<Seq<QuotaModel>, Seq<char>>,
    read_at: i64,
    now: i64,
)
    requires
        read_at <= now,
    ensures
        ({
            let cached = CacheModel { fetched: read_at as i128, identity, result };
            is_fresh(cached, other, now) <==> now - read_at < CACHE_TTL_NANOS && other == identity
        }),
{
}

/// Where usage can be read, the limits in a response do not put off the next read: an observer
/// without a read that counts has to read usage after the response as before.
pub proof fn lemma_observation_keeps_read_due(
    provider: ProviderModel,
    limit: LimitModel,
    identity: Seq<char>,
    now: i64,
    at: i64,
)
    requires
        provider.reads_usage(),
        provider.cache matches Some(cached) ==> !is_fresh(cached, identity, now),
    ensures
        observed(provider, limit, identity, now, at) matches Some(cached) ==> !is_fresh(
            cached,
            identity,
            now,
        ),
{
}

/// Whether the pool among the snapshots shows limits.
pub open spec fn shows_in_pool(snapshots: Seq<QuotaModel>, limit: LimitModel) -> bool {
    exists|i: int|
        0 <= i < snapshots.len() && (#[trigger] snapshots[i]).source == "provider-pool"@
            && snapshots[i].limits.contains(limit)
}

/// Where usage cannot be read, the limits in a response are at once part of the current quota.
pub proof fn lemma_observation_is_current(
    provider: ProviderModel,
    limit: LimitModel,
    identity: Seq<char>,
    now: i64,
    at: i64,
)
    requires
        !provider.reads_usage(),
        has_quota(limit),
    ensures
        observed(provider, limit, identity, now, at) matches Some(cached) && is_fresh(
            cached,
            identity,
            now,
        ) && (cached.result matches Ok(snapshots) && shows_in_pool(snapshots, limit)),
{
    let kept = observed(provider, limit, identity, now, at)->0.result->Ok_0;
    let before = match provider.cache {
        Some(cached) if cached.identity == identity => match cached.result {
            Ok(snapshots) => snapshots,
            Err(_) => Seq::empty(),
        },
        _ => Seq::empty(),
    };
    let in_pool = |snapshot: QuotaModel| snapshot.source == "provider-pool"@;
    let same_id = |existing: LimitModel| existing.limit_id == limit.limit_id;
    lemma_position(before, in_pool);
    match position(before, in_pool) {
        Some(i) => {
            lemma_position(before[i].limits, same_id);
            let limits = with_limit(before[i].limits, limit);
            let at_limit = match position(before[i].limits, same_id) {
                Some(j) => j,
                None => before[i].limits.len() as int,
            };
            assert(limits[at_limit] == limit);
            assert(kept[i].limits.contains(limit));
        },
        None => {
            assert(kept[before.len() as int].limits[0] == limit);
            assert(kept[before.len() as int].limits.contains(limit));
        },
    }
}

/// Bringing quota together loses nothing that was read.
pub proof fn lemma_merge_keeps_read(
    read: Seq<QuotaModel>,
    earlier: Seq<QuotaModel>,
    count: nat,
    at: i64,
)
    requires
        count <= earlier.len(),
    ensures
        with_all_earlier(Ok(read), earlier, count, at) matches Ok(all) && all.len() >= read.len()
            && all.take(read.len() as int) == read,
    decreases count,
{
    if count == 0 {
        assert(read.take(read.len() as int) =~= read);
    } else {
        lemma_merge_keeps_read(read, earlier, (count - 1) as nat, at);
        let before = with_all_earlier(Ok(read), earlier, (count - 1) as nat, at)->Ok_0;
        let last = earlier[count - 1];
        assert(before.push(last).take(read.len() as int) =~= before.take(read.len() as int));
    }
}

/// A read that failed stays failed unless an observation that still counts stands in for it.
pub proof fn lemma_failed_read_stays_failed(
    message: Seq<char>,
    earlier: Seq<QuotaModel>,
    count: nat,
    at: i64,
)
    requires
        count <= earlier.len(),
        forall|i: int| 0 <= i < count ==> !is_fresh_observation(#[trigger] earlier[i], at),
    ensures
        with_all_earlier(Err(message), earlier, count, at) == Err::<Seq<QuotaModel>, Seq<char>>(
            message,
        ),
    decreases count,
{
    if count > 0 {
        lemma_failed_read_stays_failed(message, earlier, (count - 1) as nat, at);
    }
}

/// What is kept for one identity never reaches another: where the cache is kept for another identity
/// than the one of the refresh, the result of the refresh is the read itself, unchanged. So it is
/// where nothing is kept, or a failed read is.
pub proof fn lemma_other_identity_is_not_merged(
    read: Result<Seq<QuotaModel>, Seq<char>>,
    cached: CacheModel,
    identity: Seq<char>,
    at: i64,
)
    ensures
        cached.identity != identity ==> merged(read, Some(cached), identity, at) == read,
        cached.result is Err ==> merged(read, Some(cached), identity, at) == read,
        merged(read, None, identity, at) == read,
{
}

/// Whether a snapshot was observed in a response less than a minute before `at`, and not after the
/// end of the range of time.
pub open spec fn observed_within_a_minute(snapshot: QuotaModel, at: i64) -> bool {
    snapshot.source == "provider-pool"@ && at - snapshot.captured_at < 60
}

/// What a refresh brings together comes from the read or from observations in responses less than a
/// minute old, and each of these observations is there, unless the read speaks of its scope.
pub proof fn lemma_merge_adds_fresh_observations(
    read: Result<Seq<QuotaModel>, Seq<char>>,
    earlier: Seq<QuotaModel>,
    count: nat,
    at: i64,
)
    requires
        count <= earlier.len(),
    ensures
        with_all_earlier(read, earlier, count, at) matches Ok(all) ==> {
            &&& forall|i: int|
                0 <= i < all.len() ==> (read matches Ok(given) && given.contains(
                    #[trigger] all[i],
                )) || (exists|j: int|
                    0 <= j < count && #[trigger] earlier[j] == all[i] && observed_within_a_minute(
                        earlier[j],
                        at,
                    ))
            &&& forall|j: int|
                0 <= j < count && observed_within_a_minute(#[trigger] earlier[j], at) ==> exists|
                    i: int,
                |
                    0 <= i < all.len() && (#[trigger] all[i]).source == earlier[j].source
                        && all[i].scope_id == earlier[j].scope_id
        },
        with_all_earlier(read, earlier, count, at) is Err <==> read is Err && forall|j: int|
            0 <= j < count ==> !observed_within_a_minute(#[trigger] earlier[j], at),
    decreases count,
{
    if count > 0 {
        let before = with_all_earlier(read, earlier, (count - 1) as nat, at);
        let last = earlier[count - 1];
        lemma_merge_adds_fresh_observations(read, earlier, (count - 1) as nat, at);
        assert(is_fresh_observation(last, at) == observed_within_a_minute(last, at));
        if let Ok(all) = with_all_earlier(read, earlier, count, at) {
            let kept = match before {
                Ok(list) => list,
                Err(_) => Seq::empty(),
            };
            if is_fresh_observation(last, at) {
                assert forall|i: int| 0 <= i < all.len() implies (read matches Ok(given)
                    && given.contains(#[trigger] all[i])) || (exists|j: int|
                    0 <= j < count && #[trigger] earlier[j] == all[i] && observed_within_a_minute(
                        earlier[j],
                        at,
                    )) by {
                    if i < kept.len() {
                        assert(all[i] == kept[i]);
                    } else {
                        assert(earlier[count - 1] == all[i]);
                    }
                }
                assert forall|j: int|
                    0 <= j < count && observed_within_a_minute(
                        #[trigger] earlier[j],
                        at,
                    ) implies exists|i: int|
                    0 <= i < all.len() && (#[trigger] all[i]).source == earlier[j].source
                        && all[i].scope_id == earlier[j].scope_id by {
                    if j == count - 1 {
                        if has_same_scope(kept, last) {
                            let i = choose|i: int|
                                0 <= i < kept.len() && (#[trigger] kept[i]).source == last.source
                                    && kept[i].scope_id == last.scope_id;
                            assert(all[i] == kept[i]);
                        } else {
                            assert(all[kept.len() as int] == last);
                        }
                    } else {
                        assert(before is Ok);
                        let i = choose|i: int|
                            0 <= i < kept.len() && (#[trigger] kept[i]).source
                                == earlier[j].source && kept[i].scope_id == earlier[j].scope_id;
                        assert(all[i] == kept[i]);
                    }
                }
            }
        }
    }
}

/// Each fact of quota counts by itself: a window, credits, an individual limit, a spend control or
/// the kind of limit that was reached. An id, a plan or a model without any of them does not.
pub proof fn lemma_what_counts_as_quota(limit: LimitModel)
    ensures
        limit.primary is Some ==> has_quota(limit),
        limit.secondary is Some ==> has_quota(limit),
        limit.credits is Some ==> has_quota(limit),
        limit.individual_limit is Some ==> has_quota(limit),
        limit.spend_control_reached is Some ==> has_quota(limit),
        limit.rate_limit_reached_type is Some ==> has_quota(limit),
        limit.primary is None && limit.secondary is None && limit.credits is None
            && limit.individual_limit is None && limit.spend_control_reached is None
            && limit.rate_limit_reached_type is None ==> !has_quota(limit),
{
}

/// A read counts for sixty seconds of the clock, to the nanosecond, and only for its identity.
pub proof fn lemma_read_counts_sixty_seconds(cached: CacheModel, identity: Seq<char>, now: i64)
    ensures
        is_fresh(cached, identity, now) <==> cached.identity == identity && now - cached.fetched
            < 60 * 1_000_000_000,
        CACHE_TTL_NANOS == 60 * 1_000_000_000,
        CACHE_TTL_SECONDS == 60,
{
    assert(60 * 1_000_000_000 == 60_000_000_000);
}

/// Limits that say nothing of quota leave what is kept as it is.
pub proof fn lemma_empty_observation_changes_nothing(
    provider: ProviderModel,
    limit: LimitModel,
    identity: Seq<char>,
    now: i64,
    at: i64,
)
    requires
        !has_quota(limit),
    ensures
        observed(provider, limit, identity, now, at) == provider.cache,
{
}

/// Limits observed under an identity are kept for that identity. Where nothing was kept for it, they
/// are all that is kept, as one snapshot of the pool. Where usage can be read, a read is then due at
/// once; else what was observed counts from now on.
pub proof fn lemma_first_observation(
    provider: ProviderModel,
    limit: LimitModel,
    identity: Seq<char>,
    now: i64,
    at: i64,
)
    requires
        has_quota(limit),
        provider.cache matches Some(cached) ==> cached.identity != identity,
    ensures
        observed(provider, limit, identity, now, at) matches Some(kept) && {
            &&& kept.identity == identity
            &&& kept.result == Ok::<Seq<QuotaModel>, Seq<char>>(
                seq![
                    QuotaModel {
                        captured_at: at,
                        source: "provider-pool"@,
                        scope_id: provider.pool_scope + "#"@ + endpoint_digest(identity),
                        limits: seq![limit],
                    },
                ],
            )
            &&& provider.reads_usage() ==> !is_fresh(kept, identity, now)
            &&& !provider.reads_usage() ==> kept.fetched == now
        },
{
}

/// A further observation under the same identity changes the pool alone: every other snapshot stays,
/// the limits of other features stay, and those of the feature are the observed ones. Where usage
/// can be read the time of the read stays too.
pub proof fn lemma_further_observation(
    provider: ProviderModel,
    limit: LimitModel,
    identity: Seq<char>,
    now: i64,
    at: i64,
    snapshots: Seq<QuotaModel>,
)
    requires
        has_quota(limit),
        provider.cache is Some,
        provider.cache->0.identity == identity,
        provider.cache->0.result == Ok::<Seq<QuotaModel>, Seq<char>>(snapshots),
    ensures
        observed(provider, limit, identity, now, at) matches Some(kept) && {
            &&& kept.identity == identity
            &&& provider.reads_usage() ==> kept.fetched == provider.cache->0.fetched
            &&& !provider.reads_usage() ==> kept.fetched == now
            &&& kept.result matches Ok(after) && {
                &&& after.len() >= snapshots.len()
                &&& forall|i: int|
                    0 <= i < snapshots.len() && snapshots[i].source != "provider-pool"@
                        ==> #[trigger] after[i] == snapshots[i]
                &&& forall|i: int|
                    0 <= i < snapshots.len() && snapshots[i].source == "provider-pool"@ && (
                    forall|j: int| 0 <= j < i ==> snapshots[j].source != "provider-pool"@) ==> {
                        &&& after.len() == snapshots.len()
                        &&& (#[trigger] after[i]).captured_at == at
                        &&& after[i].source == snapshots[i].source
                        &&& after[i].scope_id == snapshots[i].scope_id
                        &&& after[i].limits.contains(limit)
                        &&& forall|k: int|
                            0 <= k < snapshots[i].limits.len() && snapshots[i].limits[k].limit_id
                                != limit.limit_id ==> #[trigger] after[i].limits[k]
                                == snapshots[i].limits[k]
                    }
                &&& (forall|i: int|
                    0 <= i < snapshots.len() ==> (#[trigger] snapshots[i]).source
                        != "provider-pool"@) ==> after == snapshots.push(
                    QuotaModel {
                        captured_at: at,
                        source: "provider-pool"@,
                        scope_id: provider.pool_scope + "#"@ + endpoint_digest(identity),
                        limits: seq![limit],
                    },
                )
            }
        },
{
    let in_pool = |snapshot: QuotaModel| snapshot.source == "provider-pool"@;
    let same_id = |existing: LimitModel| existing.limit_id == limit.limit_id;
    lemma_position(snapshots, in_pool);
    match position(snapshots, in_pool) {
        Some(i) => {
            assert(in_pool(snapshots[i]));
            assert forall|j: int| 0 <= j < i implies snapshots[j].source
                != "provider-pool"@ by {
                assert(!in_pool(snapshots[j]));
            }
            let limits = snapshots[i].limits;
            lemma_position(limits, same_id);
            let after = with_limit(limits, limit);
            match position(limits, same_id) {
                Some(k) => {
                    assert(after[k] == limit);
                    assert(same_id(limits[k]));
                },
                None => {
                    assert(after[limits.len() as int] == limit);
                },
            }
            assert(after.contains(limit));
        },
        None => {
            assert forall|i: int| 0 <= i < snapshots.len() implies (#[trigger] snapshots[i]).source
                != "provider-pool"@ by {
                assert(!in_pool(snapshots[i]));
            }
        },
    }
}

/// A failed read that is kept gives way to what is observed after it.
pub proof fn lemma_observation_replaces_failure(
    provider: ProviderModel,
    limit: LimitModel,
    identity: Seq<char>,
    now: i64,
    at: i64,
)
    requires
        has_quota(limit),
        provider.cache is Some,
        provider.cache->0.identity == identity,
        provider.cache->0.result is Err,
    ensures
        observed(provider, limit, identity, now, at)->0.result == Ok::<Seq<QuotaModel>, Seq<char>>(
            seq![
                QuotaModel {
                    captured_at: at,
                    source: "provider-pool"@,
                    scope_id: provider.pool_scope + "#"@ + endpoint_digest(identity),
                    limits: seq![limit],
                },
            ],
        ),
{
    let kept = observed(provider, limit, identity, now, at)->0.result->Ok_0;
    assert(kept =~= seq![pool_snapshot(limit, provider.response_scope(identity), at)]);
}

/// Usage is read where there is an endpoint for it. A session also reads it where it is of OpenAI and
/// has no endpoint of its own.
pub proof fn lemma_where_usage_is_read(provider: ProviderModel, info: InfoModel)
    ensures
        provider.runtime_provider is None ==> (provider.reads_usage() <==> provider.usage_url is Some),
        provider.runtime_provider == Some(info) && info.usage_url is Some ==> provider.reads_usage(),
        provider.runtime_provider == Some(info) && info.usage_url is None && info.is_openai
            && info.base_url is None ==> provider.reads_usage(),
        provider.runtime_provider == Some(info) && info.usage_url is None && (!info.is_openai
            || info.base_url is Some) ==> !provider.reads_usage(),
{
}

/// The slashes at the end of an endpoint do not count, and nothing else of it is left out.
pub proof fn lemma_endpoints_without_slashes(endpoint: Seq<char>)
    ensures
        endpoint_digest(endpoint.push('/')) == endpoint_digest(endpoint),
        endpoint.len() == 0 || endpoint.last() != '/' ==> endpoint_digest(endpoint) == sha1_hex(
            encode_utf8(endpoint),
        ),
{
    assert(endpoint.push('/').drop_last() =~= endpoint);
}

/// The identity of a session names the digest of its endpoint, its account, its mode and the digest of
/// its headers, each set apart; what is missing has its own word. Without a session it is the scope
/// that was given.
pub proof fn lemma_identity_names_all(provider: ProviderModel, info: InfoModel, auth: RuntimeAuth)
    ensures
        provider.runtime_provider is None ==> provider.identity(auth) == provider.scope_hint,
        provider.runtime_provider == Some(info) ==> provider.identity(auth) == endpoint_digest(
            match info.base_url {
                Some(url) => url,
                None => ""@,
            },
        ) + "|"@ + (match auth.account_id {
            Some(account) => account@,
            None => "unknown"@,
        }) + "|"@ + (match auth.mode {
            Some(mode) => mode@,
            None => "none"@,
        }) + "|"@ + (match auth.headers {
            Some(headers) => sha1_hex(header_bytes(headers@, headers@.len())),
            None => "auth-error"@,
        }),
{
}

/// Each header adds its name and its value to what is digested.
pub proof fn lemma_header_adds_its_bytes(headers: Seq<AuthHeader>, header: AuthHeader)
    ensures
        header_bytes(headers.push(header), headers.len() + 1) == header_bytes(
            headers,
            headers.len(),
        ) + header.name@ + header.value@,
        header_bytes(headers, 0).len() == 0,
{
    lemma_header_bytes_of_longer(headers, header, headers.len());
    assert(headers.push(header)[headers.len() as int] == header);
}

proof fn lemma_header_bytes_of_longer(headers: Seq<AuthHeader>, header: AuthHeader, count: nat)
    requires
        count <= headers.len(),
    ensures
        header_bytes(headers.push(header), count) == header_bytes(headers, count),
    decreases count,
{
    if count > 0 {
        lemma_header_bytes_of_longer(headers, header, (count - 1) as nat);
    }
}

/// The limits of a read that say something of quota are kept, all of them and in their order.
pub proof fn lemma_with_data_is_filter(limits: Seq<LimitModel>)
    ensures
        with_data(limits) == limits.filter(|limit: LimitModel| has_quota(limit)),
    decreases limits.len(),
{
    reveal(Seq::filter);
    if limits.len() > 0 {
        lemma_with_data_is_filter(limits.drop_last());
    }
}

/// A read speaks of the key or account under the account that it names, or else the user, or else the
/// hint; and of the pool apart from it, under the scope of the identity.
pub proof fn lemma_key_and_pool_stay_apart(
    provider: ProviderModel,
    plan: PlanModel,
    limits: RateLimitsWithResetCredits,
    identity: Seq<char>,
    at: i64,
)
    ensures
        ({
            let all = snapshots_of_usage(provider, plan, limits, identity, at);
            let key = with_data(limits.rate_limits.deep_view());
            let pool = with_data(limits.header_rate_limits.deep_view());
            let scope = match (limits.account_id, limits.user_id) {
                (Some(account), _) => account@,
                (None, Some(user)) => user@,
                (None, None) => plan.scope_hint,
            };
            let of_key = QuotaModel {
                captured_at: at,
                source: plan.source,
                scope_id: scope,
                limits: key,
            };
            let of_pool = QuotaModel {
                captured_at: at,
                source: "provider-pool"@,
                scope_id: provider.pool_scope + "#"@ + endpoint_digest(identity),
                limits: pool,
            };
            &&& key.len() > 0 && pool.len() > 0 ==> all == seq![of_key, of_pool]
            &&& key.len() > 0 && pool.len() == 0 ==> all == seq![of_key]
            &&& key.len() == 0 && pool.len() > 0 ==> all == seq![of_pool]
            &&& key.len() == 0 && pool.len() == 0 ==> all.len() == 0
        }),
{
    let all = snapshots_of_usage(provider, plan, limits, identity, at);
    let key = snapshot_of(
        limits.rate_limits.deep_view(),
        plan.source,
        usage_scope(limits, plan.scope_hint),
        at,
    );
    let pool = snapshot_of(
        limits.header_rate_limits.deep_view(),
        "provider-pool"@,
        provider.response_scope(identity),
        at,
    );
    if key.len() > 0 && pool.len() > 0 {
        assert(all =~= seq![key[0], pool[0]]);
    } else if key.len() > 0 {
        assert(all =~= seq![key[0]]);
    } else if pool.len() > 0 {
        assert(all =~= seq![pool[0]]);
    }
}

/// A read of a session goes to the endpoint that the session resolved, or else to that of its
/// provider. An error of the session ends it, the endpoint first. Without a usage endpoint the path of
/// the model API is cut off, and the read is of the account.
pub proof fn lemma_session_read_plan(
    provider: ProviderModel,
    info: InfoModel,
    resolution: RuntimeResolution,
)
    requires
        provider.runtime_provider == Some(info),
    ensures
        resolution.base_url matches Err(message) ==> fetch_plan(provider, resolution) == Err::<
            PlanModel,
            Seq<char>,
        >(message@),
        resolution.base_url == Ok::<Option<String>, String>(None) && info.base_url is None
            ==> fetch_plan(provider, resolution) == Err::<PlanModel, Seq<char>>(
            "provider has no base URL"@,
        ),
        resolution.base_url is Ok && (resolution.base_url->Ok_0 is Some || info.base_url is Some)
            ==> (resolution.api_auth matches Err(message) ==> fetch_plan(provider, resolution)
            == Err::<PlanModel, Seq<char>>(message@)),
        resolution.base_url is Ok && (resolution.base_url->Ok_0 is Some || info.base_url is Some)
            && resolution.api_auth is Ok ==> (fetch_plan(provider, resolution) matches Ok(plan) && {
            let base = match resolution.base_url->Ok_0 {
                Some(resolved) => resolved@,
                None => info.base_url->0,
            };
            &&& plan.usage_url == info.usage_url
            &&& plan.scope_hint == (match resolution.account_id {
                Some(account) => account@,
                None => "unknown"@,
            })
            &&& info.usage_url is Some ==> plan.base_url == base && plan.source == "provider-key"@
            &&& info.usage_url is None ==> plan.base_url == trim_end_text(base, "/codex"@)
                && plan.source == "chatgpt-account"@
        }),
{
}

/// An observer that was not made for a session reads as it was made.
pub proof fn lemma_plain_read_plan(provider: ProviderModel, resolution: RuntimeResolution)
    requires
        provider.runtime_provider is None,
    ensures
        fetch_plan(provider, resolution) == Ok::<PlanModel, Seq<char>>(
            PlanModel {
                base_url: provider.base_url,
                usage_url: provider.usage_url,
                source: provider.source,
                scope_hint: provider.scope_hint,
            },
        ),
{
}

/// Every repetition of an end is cut off, and nothing else is.
pub proof fn lemma_trim_end_text(s: Seq<char>, suffix: Seq<char>)
    requires
        suffix.len() > 0,
    ensures
        trim_end_text(s + suffix, suffix) == trim_end_text(s, suffix),
        !has_suffix(s, suffix) ==> trim_end_text(s, suffix) == s,
        !has_suffix(trim_end_text(s, suffix), suffix),
    decreases s.len(),
{
    let longer = s + suffix;
    assert(longer.skip(longer.len() - suffix.len()) =~= suffix);
    assert(longer.take(longer.len() - suffix.len()) =~= s);
    if has_suffix(s, suffix) {
        lemma_trim_end_text(s.take(s.len() - suffix.len()), suffix);
    }
}

/// A new observer knows whose quota its usage speaks of, names its pool after its endpoint and has
/// read nothing.
pub proof fn lemma_new_observer(
    usage_url: Option<Seq<char>>,
    base_url: Seq<char>,
    scope_hint: Seq<char>,
    session: Option<InfoModel>,
)
    ensures
        ({
            let made = new_provider(usage_url, base_url, scope_hint, session);
            &&& made.base_url == base_url
            &&& made.runtime_provider == session
            &&& made.scope_hint == scope_hint
            &&& made.usage_url == usage_url
            &&& made.cache is None
            &&& usage_url is Some ==> made.source == "provider-key"@
            &&& usage_url is None ==> made.source == "chatgpt-account"@
            &&& made.pool_scope == "pool@"@ + endpoint_digest(base_url)
        }),
{
}

/// A snapshot of the same source and scope counts at any place, and one that differs in either counts
/// nowhere.
pub proof fn lemma_same_scope_at_any_place(
    before: Seq<QuotaModel>,
    snapshot: QuotaModel,
    after: Seq<QuotaModel>,
    other: QuotaModel,
)
    ensures
        snapshot.source == other.source && snapshot.scope_id == other.scope_id ==> has_same_scope(
            before + seq![snapshot] + after,
            other,
        ),
        (forall|i: int|
            0 <= i < before.len() ==> (#[trigger] before[i]).source != other.source
                || before[i].scope_id != other.scope_id) ==> !has_same_scope(before, other),
{
    let all = before + seq![snapshot] + after;
    assert(all[before.len() as int] == snapshot);
}

proof fn lemma_read_stays_in_front(
    read: Result<Seq<QuotaModel>, Seq<char>>,
    earlier: Seq<QuotaModel>,
    count: nat,
    at: i64,
)
    ensures
        read matches Ok(given) ==> (with_all_earlier(read, earlier, count, at) matches Ok(all)
            && given.len() <= all.len() && all.take(given.len() as int) == given),
        with_all_earlier(read, earlier, count, at) is Err ==> with_all_earlier(
            read,
            earlier,
            count,
            at,
        ) == read,
    decreases count,
{
    if count == 0 {
        if let Ok(given) = read {
            assert(given.take(given.len() as int) =~= given);
        }
    } else {
        lemma_read_stays_in_front(read, earlier, (count - 1) as nat, at);
        if let Ok(given) = read {
            let before = with_all_earlier(read, earlier, (count - 1) as nat, at)->Ok_0;
            let more = before.push(earlier[count - 1]);
            assert(more.take(given.len() as int) =~= before.take(given.len() as int));
        }
    }
}

/// A refresh for the identity of the cache keeps what was read, in front and whole. Behind it stand
/// observations of the cache that are less than a minute old, and each of these is told of, by itself
/// or by a snapshot of its scope. A read that failed stays as it is exactly where there are none. A
/// cache of a failure adds nothing.
pub proof fn lemma_refresh_keeps_the_read(
    read: Result<Seq<QuotaModel>, Seq<char>>,
    cached: CacheModel,
    at: i64,
)
    ensures
        cached.result is Err ==> merged(read, Some(cached), cached.identity, at) == read,
        merged(read, None, cached.identity, at) == read,
        cached.result matches Ok(earlier) ==> {
            let outcome = merged(read, Some(cached), cached.identity, at);
            &&& read matches Ok(given) ==> (outcome matches Ok(all) && given.len() <= all.len()
                && all.take(given.len() as int) == given)
            &&& outcome is Err ==> outcome == read
            &&& outcome is Err <==> read is Err && forall|j: int|
                0 <= j < earlier.len() ==> !observed_within_a_minute(#[trigger] earlier[j], at)
            &&& outcome matches Ok(all) ==> {
                &&& forall|i: int|
                    0 <= i < all.len() ==> (read matches Ok(given) && given.contains(
                        #[trigger] all[i],
                    )) || (exists|j: int|
                        0 <= j < earlier.len() && #[trigger] earlier[j] == all[i]
                            && observed_within_a_minute(earlier[j], at))
                &&& forall|j: int|
                    0 <= j < earlier.len() && observed_within_a_minute(#[trigger] earlier[j], at)
                        ==> exists|i: int|
                        0 <= i < all.len() && (#[trigger] all[i]).source == earlier[j].source
                            && all[i].scope_id == earlier[j].scope_id
            }
        },
{
    if let Ok(earlier) = cached.result {
        lemma_read_stays_in_front(read, earlier, earlier.len(), at);
        lemma_merge_adds_fresh_observations(read, earlier, earlier.len(), at);
    }
}

/// What a read stands for: its snapshots, or the sentence of its failure.
pub proof fn lemma_what_a_read_says(result: Result<Vec<GoalQuotaSnapshot>, String>)
    ensures
        result matches Ok(snapshots) ==> read_model(result) == Ok::<Seq<QuotaModel>, Seq<char>>(
            snapshots.deep_view(),
        ),
        result matches Err(message) ==> read_model(result) == Err::<Seq<QuotaModel>, Seq<char>>(
            message@,
        ),
{
}

} // verus!
