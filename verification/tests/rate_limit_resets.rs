use codex_runtime::protocol::RateLimitSnapshot;
use codex_runtime::rate_limit_resets::{
    quota_body, AdditionalRateLimit, BackendRequest, Client, ConsumeRateLimitResetCreditRequest,
    HttpMethod, PathStyle, QuotaBodyError, RateLimitDetails, RateLimitStatusWithResetCredits,
    MAX_BODY_BYTES,
};

fn client(path_style: PathStyle) -> Client {
    Client {
        base_url: "https://host".to_string(),
        path_style,
    }
}

#[test]
fn urls_follow_the_path_style() {
    let codex = client(PathStyle::CodexApi);
    let chat = client(PathStyle::ChatGptApi);
    assert_eq!(codex.rate_limit_status_url(), "https://host/api/codex/usage");
    assert_eq!(chat.rate_limit_status_url(), "https://host/wham/usage");
    assert_eq!(
        codex.rate_limit_reset_credits_url(),
        "https://host/api/codex/rate-limit-reset-credits"
    );
    assert_eq!(
        chat.rate_limit_reset_credits_url(),
        "https://host/wham/rate-limit-reset-credits"
    );
    assert_eq!(
        codex.consume_rate_limit_reset_credit_url(),
        "https://host/api/codex/rate-limit-reset-credits/consume"
    );
    assert_eq!(
        chat.consume_rate_limit_reset_credit_url(),
        "https://host/wham/rate-limit-reset-credits/consume"
    );
}

#[test]
fn only_a_client_that_applies_the_reserve_speaks_of_it() {
    let client = client(PathStyle::ChatGptApi);
    assert_eq!(
        client.get_rate_limits_with_luna_reserve().header,
        Some(("x-openai-codex-luna-reserve", "1"))
    );
    assert_eq!(client.get_rate_limits_with_reset_credits().header, None);
    assert_eq!(
        Client::get_rate_limits_at("https://other/quota"),
        BackendRequest {
            method: HttpMethod::Get,
            url: "https://other/quota".to_string(),
            header: None,
            body: None,
        }
    );
}

#[test]
fn a_credit_is_consumed_by_a_post() {
    let client = client(PathStyle::ChatGptApi);
    let request = client.consume_rate_limit_reset_credit("r1");
    assert_eq!(request.method, HttpMethod::Post);
    assert_eq!(request.url, "https://host/wham/rate-limit-reset-credits/consume");
    assert_eq!(request.header, Some(("content-type", "application/json")));
    assert_eq!(
        request.body,
        Some(ConsumeRateLimitResetCreditRequest {
            redeem_request_id: "r1".to_string(),
            credit_id: None,
        })
    );
    let named = client.consume_rate_limit_reset_credit_by_id("r2", &"c".to_string());
    assert_eq!(
        named.body,
        Some(ConsumeRateLimitResetCreditRequest {
            redeem_request_id: "r2".to_string(),
            credit_id: Some("c".to_string()),
        })
    );
    assert_eq!(client.list_rate_limit_reset_credits().method, HttpMethod::Get);
}

#[test]
fn bodies_are_bounded_texts() {
    assert_eq!(quota_body("h\u{e9}".as_bytes().to_vec()), Ok("h\u{e9}".to_string()));
    assert_eq!(quota_body(vec![0xff]), Err(QuotaBodyError::NotUtf8));
    assert_eq!(quota_body(vec![0xff; MAX_BODY_BYTES + 1]), Err(QuotaBodyError::TooLarge));
    assert!(quota_body(vec![b'x'; MAX_BODY_BYTES]).is_ok());
    assert_eq!(QuotaBodyError::TooLarge.message(), "quota response exceeded 1 MiB");
    assert_eq!(QuotaBodyError::NotUtf8.message(), "quota response was not UTF-8");
}

fn limit(limit_id: &str, plan_type: Option<String>) -> RateLimitSnapshot {
    RateLimitSnapshot {
        limit_id: Some(limit_id.to_string()),
        primary: None,
        secondary: None,
        credits: None,
        individual_limit: None,
        spend_control_reached: None,
        plan_type,
        rate_limit_reached_type: None,
        normal_model_slug: None,
    }
}

#[test]
fn further_limits_follow_with_the_plan_of_the_first() {
    let payload = RateLimitStatusWithResetCredits {
        rate_limit: Some(Some(RateLimitDetails { allowed: true })),
        rate_limits: vec![limit("codex", Some("plus".to_string()))],
        additional_rate_limits: Some(vec![AdditionalRateLimit {
            details: "extra".to_string(),
            normal_model_slug: Some("model".to_string()),
        }]),
        header_rate_limits: vec![limit("header", None)],
        rate_limit_reset_credits: None,
        account_id: Some("acct".to_string()),
        user_id: None,
        rate_limit_upsell: Some("more".to_string()),
    };
    let limits = Client::rate_limits_from_status(payload, |details: &String, plan: &Option<String>| {
        limit(details, plan.clone())
    });
    let mut extra = limit("extra", Some("plus".to_string()));
    extra.normal_model_slug = Some("model".to_string());
    assert_eq!(
        limits.rate_limits,
        vec![limit("codex", Some("plus".to_string())), extra]
    );
    assert_eq!(limits.header_rate_limits, vec![limit("header", None)]);
    assert_eq!(limits.ordinary_usage_allowed, Some(true));
    assert_eq!(limits.account_id.as_deref(), Some("acct"));
    assert_eq!(limits.rate_limit_upsell.as_deref(), Some("more"));
}
