//! Backend requests that read rate limits, list reset credits and consume one, and what their
//! answers say.

use crate::lists::{lemma_push_deep_view, models};
use crate::protocol::{LimitModel, RateLimitSnapshot};
use vstd::prelude::*;
use vstd::utf8::*;

verus! {

/// Under which paths a backend serves its endpoints.
#[derive(Debug, Clone, Copy, PartialEq, Eq, Structural)]
pub enum PathStyle {
    CodexApi,
    ChatGptApi,
}

/// A client of a backend.
#[derive(Debug, PartialEq, Eq)]
pub struct Client {
    pub base_url: String,
    pub path_style: PathStyle,
}

/// The method of a request.
#[derive(Debug, Clone, Copy, PartialEq, Eq, Structural)]
pub enum HttpMethod {
    Get,
    Post,
}

/// The body of a request that consumes a reset credit.
#[derive(Debug, PartialEq, Eq)]
pub struct ConsumeRateLimitResetCreditRequest {
    pub redeem_request_id: String,
    /// The credit to consume; any, where none is named.
    pub credit_id: Option<String>,
}

/// A request to a backend, beside the headers that every request of the client carries.
#[derive(Debug, PartialEq, Eq)]
pub struct BackendRequest {
    pub method: HttpMethod,
    pub url: String,
    /// A header of this request alone, with its value.
    pub header: Option<(&'static str, &'static str)>,
    pub body: Option<ConsumeRateLimitResetCreditRequest>,
}

/// What a request stands for; its body is the id of the request and that of the credit.
pub struct RequestModel {
    pub method: HttpMethod,
    pub url: Seq<char>,
    pub header: Option<(Seq<char>, Seq<char>)>,
    pub body: Option<(Seq<char>, Option<Seq<char>>)>,
}

impl DeepView for BackendRequest {
    type V = RequestModel;

    open spec fn deep_view(&self) -> RequestModel {
        RequestModel {
            method: self.method,
            url: self.url@,
            header: match self.header {
                Some((name, value)) => Some((name@, value@)),
                None => None,
            },
            body: match self.body {
                Some(body) => Some((body.redeem_request_id@, body.credit_id.deep_view())),
                None => None,
            },
        }
    }
}

/// The header by which a client says that it can apply the reserve, with its value.
pub open spec fn reserve_header() -> (Seq<char>, Seq<char>) {
    ("x-openai-codex-luna-reserve"@, "1"@)
}

/// A request that reads rate limits.
pub open spec fn usage_request(url: Seq<char>, supports_luna_reserve: bool) -> RequestModel {
    RequestModel {
        method: HttpMethod::Get,
        url,
        header: if supports_luna_reserve {
            Some(reserve_header())
        } else {
            None
        },
        body: None,
    }
}

impl Client {
    /// The URL of the rate limits.
    pub open spec fn status_url(&self) -> Seq<char> {
        match self.path_style {
            PathStyle::CodexApi => self.base_url@ + "/api/codex/usage"@,
            PathStyle::ChatGptApi => self.base_url@ + "/wham/usage"@,
        }
    }

    /// The URL of the reset credits.
    pub open spec fn credits_url(&self) -> Seq<char> {
        match self.path_style {
            PathStyle::CodexApi => self.base_url@ + "/api/codex/rate-limit-reset-credits"@,
            PathStyle::ChatGptApi => self.base_url@ + "/wham/rate-limit-reset-credits"@,
        }
    }

    /// The URL of the rate limits.
    pub fn rate_limit_status_url(&self) -> (url: String)
        ensures
            url@ == self.status_url(),
    {
        let mut url = self.base_url.clone();
        match self.path_style {
            PathStyle::CodexApi => url.append("/api/codex/usage"),
            PathStyle::ChatGptApi => url.append("/wham/usage"),
        }
        url
    }

    /// The URL of the reset credits.
    pub fn rate_limit_reset_credits_url(&self) -> (url: String)
        ensures
            url@ == self.credits_url(),
    {
        let mut url = self.base_url.clone();
        match self.path_style {
            PathStyle::CodexApi => url.append("/api/codex/rate-limit-reset-credits"),
            PathStyle::ChatGptApi => url.append("/wham/rate-limit-reset-credits"),
        }
        url
    }

    /// The URL at which a reset credit is consumed: it lies under that of the reset credits.
    pub fn consume_rate_limit_reset_credit_url(&self) -> (url: String)
        ensures
            url@ == self.credits_url() + "/consume"@,
    {
        let mut url = self.base_url.clone();
        match self.path_style {
            PathStyle::CodexApi => url.append("/api/codex/rate-limit-reset-credits/consume"),
            PathStyle::ChatGptApi => url.append("/wham/rate-limit-reset-credits/consume"),
        }
        proof {
            reveal_strlit("/api/codex/rate-limit-reset-credits/consume");
            reveal_strlit("/api/codex/rate-limit-reset-credits");
            reveal_strlit("/wham/rate-limit-reset-credits/consume");
            reveal_strlit("/wham/rate-limit-reset-credits");
            reveal_strlit("/consume");
            assert("/api/codex/rate-limit-reset-credits/consume"@
                =~= "/api/codex/rate-limit-reset-credits"@ + "/consume"@);
            assert("/wham/rate-limit-reset-credits/consume"@ =~= "/wham/rate-limit-reset-credits"@
                + "/consume"@);
            assert(url@ =~= self.credits_url() + "/consume"@);
        }
        url
    }

    /// The request that reads rate limits at a URL. Only a client that can apply the reserve says
    /// so.
    pub fn get_rate_limit_status_at(url: &str, supports_luna_reserve: bool) -> (request:
        BackendRequest)
        ensures
            request.deep_view() == usage_request(url@, supports_luna_reserve),
    {
        BackendRequest {
            method: HttpMethod::Get,
            url: url.to_owned(),
            header: if supports_luna_reserve {
                Some(("x-openai-codex-luna-reserve", "1"))
            } else {
                None
            },
            body: None,
        }
    }

    /// The request that reads the rate limits of the backend.
    pub fn get_rate_limit_status(&self, supports_luna_reserve: bool) -> (request: BackendRequest)
        ensures
            request.deep_view() == usage_request(self.status_url(), supports_luna_reserve),
    {
        let url = self.rate_limit_status_url();
        Self::get_rate_limit_status_at(url.as_str(), supports_luna_reserve)
    }

    /// The request of a passive reader of the rate limits: it never speaks of the reserve.
    pub fn get_rate_limits_with_reset_credits(&self) -> (request: BackendRequest)
        ensures
            request.deep_view() == usage_request(self.status_url(), false),
            request.header is None,
    {
        self.get_rate_limit_status(false)
    }

    /// The request of a client that can apply the reserve.
    pub fn get_rate_limits_with_luna_reserve(&self) -> (request: BackendRequest)
        ensures
            request.deep_view() == usage_request(self.status_url(), true),
    {
        self.get_rate_limit_status(true)
    }

    /// The request that reads rate limits from a configured endpoint. It is passive: it never
    /// speaks of the reserve, whatever the endpoint.
    pub fn get_rate_limits_at(url: &str) -> (request: BackendRequest)
        ensures
            request.deep_view() == usage_request(url@, false),
            request.header is None,
    {
        Self::get_rate_limit_status_at(url, false)
    }

    /// The request that lists the reset credits.
    pub fn list_rate_limit_reset_credits(&self) -> (request: BackendRequest)
        ensures
            request.deep_view() == (RequestModel {
                method: HttpMethod::Get,
                url: self.credits_url(),
                header: None,
                body: None,
            }),
    {
        BackendRequest {
            method: HttpMethod::Get,
            url: self.rate_limit_reset_credits_url(),
            header: None,
            body: None,
        }
    }

    /// The request that consumes a reset credit, as it is posted.
    pub open spec fn consuming(
        &self,
        redeem_request_id: Seq<char>,
        credit_id: Option<Seq<char>>,
    ) -> RequestModel {
        RequestModel {
            method: HttpMethod::Post,
            url: self.credits_url() + "/consume"@,
            header: Some(("content-type"@, "application/json"@)),
            body: Some((redeem_request_id, credit_id)),
        }
    }

    /// The request that consumes a reset credit: a given one, or any.
    pub fn consume_rate_limit_reset_credit_request(
        &self,
        redeem_request_id: &str,
        credit_id: Option<&String>,
    ) -> (request: BackendRequest)
        ensures
            request.deep_view() == self.consuming(redeem_request_id@, credit_id.deep_view()),
    {
        BackendRequest {
            method: HttpMethod::Post,
            url: self.consume_rate_limit_reset_credit_url(),
            header: Some(("content-type", "application/json")),
            body: Some(
                ConsumeRateLimitResetCreditRequest {
                    redeem_request_id: redeem_request_id.to_owned(),
                    credit_id: match credit_id {
                        Some(id) => Some(id.clone()),
                        None => None,
                    },
                },
            ),
        }
    }

    /// The request that consumes any reset credit.
    pub fn consume_rate_limit_reset_credit(&self, redeem_request_id: &str) -> (request:
        BackendRequest)
        ensures
            request.deep_view() == self.consuming(redeem_request_id@, None),
    {
        self.consume_rate_limit_reset_credit_request(redeem_request_id, None)
    }

    /// The request that consumes a given reset credit.
    pub fn consume_rate_limit_reset_credit_by_id(
        &self,
        redeem_request_id: &str,
        credit_id: &String,
    ) -> (request: BackendRequest)
        ensures
            request.deep_view() == self.consuming(redeem_request_id@, Some(credit_id@)),
    {
        self.consume_rate_limit_reset_credit_request(redeem_request_id, Some(credit_id))
    }
}

/// The largest answer that is read, in bytes.
pub const MAX_BODY_BYTES: usize = 1048576;

/// Why the body of an answer is not read.
#[derive(Debug, Clone, Copy, PartialEq, Eq, Structural)]
pub enum QuotaBodyError {
    TooLarge,
    NotUtf8,
}

impl QuotaBodyError {
    /// The sentence that tells of the error.
    pub open spec fn text(self) -> Seq<char> {
        match self {
            QuotaBodyError::TooLarge => "quota response exceeded 1 MiB"@,
            QuotaBodyError::NotUtf8 => "quota response was not UTF-8"@,
        }
    }

    /// The sentence that tells of the error.
    pub fn message(&self) -> (message: &'static str)
        ensures
            message@ == self.text(),
    {
        match self {
            QuotaBodyError::TooLarge => "quota response exceeded 1 MiB",
            QuotaBodyError::NotUtf8 => "quota response was not UTF-8",
        }
    }
}

/// Calls `String::from_utf8` of the standard library: the text that the bytes encode, or nothing
/// where they are no UTF-8.
#[verifier::external_body]
fn text_from_utf8(bytes: Vec<u8>) -> (text: Option<String>)
    ensures
        text is Some <==> valid_utf8(bytes@),
        text matches Some(t) ==> t@ == decode_utf8(bytes@),
{
    String::from_utf8(bytes).ok()
}

/// The text of an answer: what its bytes encode, where there are not too many.
pub fn quota_body(bytes: Vec<u8>) -> (body: Result<String, QuotaBodyError>)
    ensures
        match body {
            Ok(text) => bytes@.len() <= MAX_BODY_BYTES && valid_utf8(bytes@) && text@
                == decode_utf8(bytes@),
            Err(QuotaBodyError::TooLarge) => bytes@.len() > MAX_BODY_BYTES,
            Err(QuotaBodyError::NotUtf8) => bytes@.len() <= MAX_BODY_BYTES && !valid_utf8(bytes@),
        },
{
    if bytes.len() > MAX_BODY_BYTES {
        return Err(QuotaBodyError::TooLarge);
    }
    match text_from_utf8(bytes) {
        Some(text) => Ok(text),
        None => Err(QuotaBodyError::NotUtf8),
    }
}

/// Whether ordinary usage is allowed, as the backend says beside its windows.
#[derive(Debug, Clone, Copy, PartialEq, Eq, Structural)]
pub struct RateLimitDetails {
    pub allowed: bool,
}

/// A further limit: its details, as the backend wrote them, and the model that it is for.
#[derive(Debug, PartialEq, Eq)]
pub struct AdditionalRateLimit {
    pub details: String,
    pub normal_model_slug: Option<String>,
}

/// What the backend says of rate limits. Facts that only pass through are kept as it wrote them.
#[derive(Debug, PartialEq)]
pub struct RateLimitStatusWithResetCredits {
    pub rate_limit: Option<Option<RateLimitDetails>>,
    /// The snapshots of the ordinary limits.
    pub rate_limits: Vec<RateLimitSnapshot>,
    pub additional_rate_limits: Option<Vec<AdditionalRateLimit>>,
    /// The snapshots that the headers of the answer gave.
    pub header_rate_limits: Vec<RateLimitSnapshot>,
    pub rate_limit_reset_credits: Option<String>,
    pub account_id: Option<String>,
    pub user_id: Option<String>,
    pub rate_limit_upsell: Option<String>,
}

/// The rate limits of an account, with all further ones.
#[derive(Debug, PartialEq)]
pub struct RateLimitsWithResetCredits {
    pub rate_limits: Vec<RateLimitSnapshot>,
    pub header_rate_limits: Vec<RateLimitSnapshot>,
    pub ordinary_usage_allowed: Option<bool>,
    pub rate_limit_reset_credits: Option<String>,
    pub account_id: Option<String>,
    pub user_id: Option<String>,
    pub rate_limit_upsell: Option<String>,
}

/// The further limits of an answer; none where it says nothing of them.
pub open spec fn additional(payload: RateLimitStatusWithResetCredits) -> Seq<AdditionalRateLimit> {
    match payload.additional_rate_limits {
        Some(list) => list@,
        None => Seq::empty(),
    }
}

/// The plan of an account: the one that its first snapshot names.
pub open spec fn plan_of(snapshots: Seq<LimitModel>) -> Option<Seq<char>> {
    if snapshots.len() > 0 {
        snapshots[0].plan_type
    } else {
        None
    }
}

/// The snapshot of a further limit: the one that was made of its details, for its model.
pub open spec fn for_model(made: LimitModel, slug: Option<Seq<char>>) -> LimitModel {
    LimitModel { normal_model_slug: slug, ..made }
}

/// Whether `limits` are the ordinary limits of an answer and, for each further limit, the snapshot
/// that was made of it, in the order of the answer; all else is as the answer says.
pub open spec fn limits_of_status(
    payload: RateLimitStatusWithResetCredits,
    made: Seq<LimitModel>,
    limits: RateLimitsWithResetCredits,
) -> bool {
    let more = additional(payload);
    &&& made.len() == more.len()
    &&& limits.rate_limits.deep_view() == payload.rate_limits.deep_view() + Seq::new(
        more.len(),
        |i: int| for_model(made[i], more[i].normal_model_slug.deep_view()),
    )
    &&& limits.header_rate_limits == payload.header_rate_limits
    &&& limits.ordinary_usage_allowed == (match payload.rate_limit {
        Some(Some(details)) => Some(details.allowed),
        _ => None,
    })
    &&& limits.rate_limit_reset_credits == payload.rate_limit_reset_credits
    &&& limits.account_id == payload.account_id
    &&& limits.user_id == payload.user_id
    &&& limits.rate_limit_upsell == payload.rate_limit_upsell
}

fn plan_of_first(snapshots: &Vec<RateLimitSnapshot>) -> (plan: Option<String>)
    ensures
        plan.deep_view() == plan_of(snapshots.deep_view()),
{
    if snapshots.len() > 0 {
        snapshots[0].plan_type.clone()
    } else {
        None
    }
}

/// Whether `made` are the snapshots that `make_snapshot` made of the further limits of an answer,
/// each from its details and the plan.
pub open spec fn are_made<F: Fn(&String, &Option<String>) -> RateLimitSnapshot>(
    make_snapshot: F,
    more: Seq<AdditionalRateLimit>,
    plan: Option<String>,
    made: Seq<RateLimitSnapshot>,
) -> bool {
    &&& made.len() == more.len()
    &&& forall|i: int|
        0 <= i < made.len() ==> call_ensures(
            make_snapshot,
            (&more[i].details, &plan),
            #[trigger] made[i],
        )
}

/// The rate limits that an answer speaks of, with the snapshots that were made of its further
/// limits.
pub fn join_rate_limits(payload: RateLimitStatusWithResetCredits, made: Vec<RateLimitSnapshot>) -> (
    limits: RateLimitsWithResetCredits)
    requires
        made@.len() == additional(payload).len(),
    ensures
        limits_of_status(payload, made.deep_view(), limits),
{
    let ordinary_usage_allowed = match &payload.rate_limit {
        Some(Some(details)) => Some(details.allowed),
        _ => None,
    };
    let ghost base = payload.rate_limits.deep_view();
    let ghost more = additional(payload);
    let ghost all = made.deep_view();
    let ghost joined = Seq::new(
        more.len(),
        |i: int| for_model(all[i], more[i].normal_model_slug.deep_view()),
    );
    let mut rate_limits = payload.rate_limits;
    let mut i: usize = 0;
    proof {
        assert(base + joined.take(0) =~= base);
    }
    if let Some(list) = &payload.additional_rate_limits {
        while i < list.len()
            invariant
                i <= list@.len() == made@.len(),
                list@ == more,
                all == made.deep_view(),
                joined == Seq::new(
                    more.len(),
                    |i: int| for_model(all[i], more[i].normal_model_slug.deep_view()),
                ),
                rate_limits.deep_view() == base + joined.take(i as int),
            decreases list@.len() - i,
        {
            let mut snapshot = made[i].clone();
            let ghost before = rate_limits@;
            snapshot.normal_model_slug = list[i].normal_model_slug.clone();
            rate_limits.push(snapshot);
            proof {
                lemma_push_deep_view(before, rate_limits, snapshot);
                assert(models(before) =~= base + joined.take(i as int));
                assert(snapshot.deep_view() == joined[i as int]);
                assert(rate_limits.deep_view() =~= base + joined.take(i + 1));
            }
            i = i + 1;
        }
    }
    proof {
        assert(joined.take(more.len() as int) =~= joined);
    }
    RateLimitsWithResetCredits {
        rate_limits,
        header_rate_limits: payload.header_rate_limits,
        ordinary_usage_allowed,
        rate_limit_reset_credits: payload.rate_limit_reset_credits,
        account_id: payload.account_id,
        user_id: payload.user_id,
        rate_limit_upsell: payload.rate_limit_upsell,
    }
}

impl Client {
    /// The rate limits that an answer speaks of. `make_snapshot` makes the snapshot of a further
    /// limit, from its details and the plan of the first ordinary one.
    pub fn rate_limits_from_status(
        payload: RateLimitStatusWithResetCredits,
        make_snapshot: impl Fn(&String, &Option<String>) -> RateLimitSnapshot,
    ) -> (limits: RateLimitsWithResetCredits)
        requires
            forall|details: &String, plan: &Option<String>|
                call_requires(make_snapshot, (details, plan)),
        ensures
            exists|plan: Option<String>, made: Vec<RateLimitSnapshot>|
                {
                    &&& plan.deep_view() == plan_of(payload.rate_limits.deep_view())
                    &&& #[trigger] are_made(make_snapshot, additional(payload), plan, made@)
                    &&& limits_of_status(payload, made.deep_view(), limits)
                },
    {
        let plan = plan_of_first(&payload.rate_limits);
        let ghost more = additional(payload);
        let mut made: Vec<RateLimitSnapshot> = Vec::new();
        if let Some(list) = &payload.additional_rate_limits {
            let mut i: usize = 0;
            while i < list.len()
                invariant
                    i <= list@.len(),
                    list@ == more,
                    forall|details: &String, plan: &Option<String>|
                        call_requires(make_snapshot, (details, plan)),
                    are_made(make_snapshot, more.take(i as int), plan, made@),
                decreases list@.len() - i,
            {
                made.push(make_snapshot(&list[i].details, &plan));
                i = i + 1;
            }
            proof {
                assert(more.take(i as int) =~= more);
            }
        }
        proof {
            assert(are_made(make_snapshot, additional(payload), plan, made@));
        }
        join_rate_limits(payload, made)
    }
}

/// Under which paths each kind of backend serves the rate limits and the reset credits.
pub proof fn lemma_paths_of_backends(client: Client)
    ensures
        client.path_style is CodexApi ==> client.status_url() == client.base_url@
            + "/api/codex/usage"@ && client.credits_url() == client.base_url@
            + "/api/codex/rate-limit-reset-credits"@,
        client.path_style is ChatGptApi ==> client.status_url() == client.base_url@
            + "/wham/usage"@ && client.credits_url() == client.base_url@
            + "/wham/rate-limit-reset-credits"@,
{
}

/// Reading rate limits sends no body, and a header only where the client can apply the reserve.
pub proof fn lemma_reading_speaks_of_the_reserve_alone(url: Seq<char>, supports: bool)
    ensures
        usage_request(url, supports).method == HttpMethod::Get,
        usage_request(url, supports).url == url,
        usage_request(url, supports).body is None,
        usage_request(url, supports).header is Some <==> supports,
        usage_request(url, true).header == Some(("x-openai-codex-luna-reserve"@, "1"@)),
{
}

/// Consuming posts the id of the request and that of the credit, at a place below that of the credits.
pub proof fn lemma_consuming_posts_its_ids(
    client: Client,
    redeem_request_id: Seq<char>,
    credit_id: Option<Seq<char>>,
)
    ensures
        ({
            let request = client.consuming(redeem_request_id, credit_id);
            &&& request.method == HttpMethod::Post
            &&& request.header == Some(("content-type"@, "application/json"@))
            &&& request.body == Some((redeem_request_id, credit_id))
            &&& client.path_style is CodexApi ==> request.url == client.base_url@
                + "/api/codex/rate-limit-reset-credits/consume"@
            &&& client.path_style is ChatGptApi ==> request.url == client.base_url@
                + "/wham/rate-limit-reset-credits/consume"@
        }),
{
    let request = client.consuming(redeem_request_id, credit_id);
    reveal_strlit("/api/codex/rate-limit-reset-credits/consume");
    reveal_strlit("/api/codex/rate-limit-reset-credits");
    reveal_strlit("/wham/rate-limit-reset-credits/consume");
    reveal_strlit("/wham/rate-limit-reset-credits");
    reveal_strlit("/consume");
    if client.path_style is CodexApi {
        assert(request.url =~= client.base_url@ + "/api/codex/rate-limit-reset-credits/consume"@);
    } else {
        assert(request.url =~= client.base_url@ + "/wham/rate-limit-reset-credits/consume"@);
    }
}

/// The sentences that tell why an answer is not read, and how large one may be.
pub proof fn lemma_unread_answers()
    ensures
        QuotaBodyError::TooLarge.text() == "quota response exceeded 1 MiB"@,
        QuotaBodyError::NotUtf8.text() == "quota response was not UTF-8"@,
        MAX_BODY_BYTES == 1024 * 1024,
{
}

/// The plan is that of the first snapshot, whatever the others name.
pub proof fn lemma_plan_is_of_the_first(first: LimitModel, others: Seq<LimitModel>)
    ensures
        plan_of(seq![first] + others) == first.plan_type,
        plan_of(Seq::empty()) is None,
{
    assert((seq![first] + others)[0] == first);
}

/// The further limits that an answer lists.
pub proof fn lemma_further_limits(payload: RateLimitStatusWithResetCredits)
    ensures
        payload.additional_rate_limits is None ==> additional(payload).len() == 0,
        payload.additional_rate_limits matches Some(list) ==> additional(payload) == list@,
{
}

/// The limits of an answer hold each ordinary one in its place and unchanged, and behind them each
/// further one in its order: as it was made, but for the model that the answer names. Ordinary usage is
/// allowed or not as the answer says, and unknown where it does not say. All else is that of the
/// answer.
pub proof fn lemma_limits_of_an_answer(
    payload: RateLimitStatusWithResetCredits,
    made: Seq<LimitModel>,
    limits: RateLimitsWithResetCredits,
)
    requires
        limits_of_status(payload, made, limits),
    ensures
        ({
            let ordinary = payload.rate_limits.deep_view();
            let all = limits.rate_limits.deep_view();
            let more = additional(payload);
            &&& all.len() == ordinary.len() + more.len()
            &&& forall|i: int| 0 <= i < ordinary.len() ==> #[trigger] all[i] == ordinary[i]
            &&& forall|i: int|
                0 <= i < more.len() ==> (#[trigger] all[ordinary.len() + i]).normal_model_slug
                    == more[i].normal_model_slug.deep_view() && all[ordinary.len() + i]
                    == (LimitModel {
                    normal_model_slug: all[ordinary.len() + i].normal_model_slug,
                    ..made[i]
                })
        }),
        payload.rate_limit matches Some(Some(details)) ==> limits.ordinary_usage_allowed == Some(
            details.allowed,
        ),
        payload.rate_limit is None ==> limits.ordinary_usage_allowed is None,
        payload.rate_limit matches Some(None) ==> limits.ordinary_usage_allowed is None,
        limits.header_rate_limits == payload.header_rate_limits,
        limits.rate_limit_reset_credits == payload.rate_limit_reset_credits,
        limits.account_id == payload.account_id,
        limits.user_id == payload.user_id,
        limits.rate_limit_upsell == payload.rate_limit_upsell,
{
}

/// Each snapshot of a further limit was made of the details of that limit and of the one plan.
pub proof fn lemma_made_of_its_details<F: Fn(&String, &Option<String>) -> RateLimitSnapshot>(
    make_snapshot: F,
    more: Seq<AdditionalRateLimit>,
    plan: Option<String>,
    made: Seq<RateLimitSnapshot>,
    at: int,
)
    requires
        are_made(make_snapshot, more, plan, made),
        0 <= at < more.len(),
    ensures
        made.len() == more.len(),
        call_ensures(make_snapshot, (&more[at].details, &plan), made[at]),
{
}

} // verus!
