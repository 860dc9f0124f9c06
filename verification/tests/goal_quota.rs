use codex_runtime::goal_quota::{
    has_quota_data, normalize_endpoint, AuthHeader, GoalQuotaProvider, ModelProviderInfo,
    RuntimeAuth, RuntimeResolution, SnapshotPlan, CACHE_TTL_NANOS,
};
use codex_runtime::protocol::{GoalQuotaSnapshot, RateLimitSnapshot, RateLimitWindow};
use codex_runtime::rate_limit_resets::RateLimitsWithResetCredits;

const SERVER: &str = "http://127.0.0.1:8080";

fn info(usage_url: Option<String>) -> ModelProviderInfo {
    ModelProviderInfo {
        base_url: Some(SERVER.to_string()),
        usage_url,
        is_openai: false,
    }
}

fn provider() -> GoalQuotaProvider {
    GoalQuotaProvider::new_with_auth_provider(
        &info(Some(format!("{SERVER}/quota"))),
        SERVER.to_string(),
        "acct-fixture".to_string(),
    )
}

fn auth() -> RuntimeAuth {
    RuntimeAuth {
        account_id: None,
        mode: None,
        headers: Some(Vec::new()),
    }
}

fn window(used_percent: i64, window_minutes: i64) -> RateLimitWindow {
    RateLimitWindow {
        used_percent: used_percent * 1_000_000,
        window_minutes: Some(window_minutes),
        resets_at: Some(2_000_000_000),
    }
}

fn limit(limit_id: &str, primary: Option<RateLimitWindow>, plan_type: Option<&str>) -> RateLimitSnapshot {
    RateLimitSnapshot {
        limit_id: Some(limit_id.to_string()),
        primary,
        secondary: None,
        credits: None,
        individual_limit: None,
        spend_control_reached: None,
        plan_type: plan_type.map(str::to_string),
        rate_limit_reached_type: None,
        normal_model_slug: None,
    }
}

fn body(account: &str, used_percent: i64, with_header: bool) -> RateLimitsWithResetCredits {
    RateLimitsWithResetCredits {
        rate_limits: vec![limit("codex", Some(window(used_percent, 5)), Some("plus"))],
        header_rate_limits: if with_header {
            vec![limit("codex", Some(window(used_percent, 5)), None)]
        } else {
            vec![limit("codex", None, None)]
        },
        ordinary_usage_allowed: Some(true),
        rate_limit_reset_credits: None,
        account_id: Some(account.to_string()),
        user_id: None,
        rate_limit_upsell: None,
    }
}

fn no_resolution() -> RuntimeResolution {
    RuntimeResolution {
        base_url: Ok(None),
        api_auth: Ok(()),
        account_id: None,
    }
}

/// Runs a whole read; `reply` stands for what the endpoint answers, and `reads` counts its calls.
fn snapshot_many(
    quota: &mut GoalQuotaProvider,
    reply: &dyn Fn() -> Result<RateLimitsWithResetCredits, String>,
    reads: &mut usize,
    now: i64,
    at: i64,
) -> Result<Vec<GoalQuotaSnapshot>, String> {
    match quota.snapshot_many(&auth(), now) {
        SnapshotPlan::Known(result) => result,
        SnapshotPlan::Refresh { identity, read } => {
            let result = if read {
                *reads += 1;
                let plan = quota.plan_fetch(&no_resolution()).unwrap();
                Some(reply().map(|limits| quota.fetch_many(plan, limits, &auth(), at)))
            } else {
                None
            };
            quota.finish_refresh(identity, result, now, at)
        }
    }
}

fn of_source<'a>(snapshots: &'a [GoalQuotaSnapshot], source: &str) -> &'a GoalQuotaSnapshot {
    snapshots.iter().find(|snapshot| snapshot.source == source).unwrap()
}

#[test]
fn fresh_cache_reuses_one_passive_read() {
    let mut quota = provider();
    let mut reads = 0;
    let reply = || Ok(body("acct-a", 12, true));
    let first = snapshot_many(&mut quota, &reply, &mut reads, 0, 1000).unwrap();
    let second = snapshot_many(&mut quota, &reply, &mut reads, 1, 1000).unwrap();
    assert_eq!(first, second);
    assert_eq!(first[0].source, "provider-key");
    assert_eq!(first.len(), 2);
    assert_eq!(reads, 1);
}

#[test]
fn expired_cache_refreshes_key_and_pool_independently() {
    let mut quota = provider();
    let mut reads = 0;
    let initial =
        snapshot_many(&mut quota, &|| Ok(body("acct-a", 12, true)), &mut reads, 0, 1000).unwrap();
    let initial_key = of_source(&initial, "provider-key");
    assert_eq!(initial_key.scope_id, "acct-a");

    let refreshed = snapshot_many(
        &mut quota,
        &|| Ok(body("acct-b", 78, true)),
        &mut reads,
        CACHE_TTL_NANOS,
        1060,
    )
    .unwrap();
    assert_eq!(of_source(&refreshed, "provider-key").scope_id, "acct-b");
    assert_eq!(
        of_source(&refreshed, "provider-pool").limits[0]
            .primary
            .as_ref()
            .unwrap()
            .used_percent,
        78_000_000
    );
    assert_eq!(reads, 2);
}

#[test]
fn changed_identity_invalidates_cache_even_before_ttl() {
    let mut quota = provider();
    let mut reads = 0;
    snapshot_many(&mut quota, &|| Ok(body("acct-a", 12, false)), &mut reads, 0, 1000).unwrap();
    quota.cache.as_mut().unwrap().identity = "different-account".to_string();

    let refreshed =
        snapshot_many(&mut quota, &|| Ok(body("acct-b", 34, false)), &mut reads, 1, 1000).unwrap();
    assert_eq!(of_source(&refreshed, "provider-key").scope_id, "acct-b");
    assert_eq!(reads, 2);
}

#[test]
fn failed_read_returns_error_without_fabricated_quota() {
    let mut quota = provider();
    let result =
        snapshot_many(&mut quota, &|| Err("status 503".to_string()), &mut 0, 0, 1000);
    assert!(result.is_err());
    assert_eq!(result, Err("status 503".to_string()));
}

#[test]
fn response_observation_is_available_without_passive_usage_url() {
    let mut quota = GoalQuotaProvider::new_with_auth_provider(
        &info(None),
        SERVER.to_string(),
        "acct-fixture".to_string(),
    );
    let observed = RateLimitSnapshot {
        primary: Some(RateLimitWindow {
            used_percent: 44_000_000,
            window_minutes: Some(15),
            resets_at: None,
        }),
        ..limit("codex", None, None)
    };
    quota.observe_response(observed, &auth(), 0, 1000);
    let snapshots =
        snapshot_many(&mut quota, &|| panic!("nothing is read"), &mut 0, 1, 1000).unwrap();
    assert_eq!(snapshots.len(), 1);
    assert_eq!(snapshots[0].source, "provider-pool");
    assert_eq!(
        snapshots[0].limits[0]
            .primary
            .as_ref()
            .unwrap()
            .used_percent,
        44_000_000
    );
}

#[test]
fn empty_headers_do_not_create_fabricated_pool_snapshot() {
    let mut quota = provider();
    let reply = || {
        let mut limits = body("acct-a", 12, false);
        limits.rate_limits = vec![limit("codex", None, Some("plus"))];
        Ok(limits)
    };
    assert!(snapshot_many(&mut quota, &reply, &mut 0, 0, 1000).unwrap().is_empty());
}

#[test]
fn an_observation_does_not_put_off_the_next_read_and_is_merged_into_it() {
    let mut quota = provider();
    let mut reads = 0;
    quota.observe_response(limit("codex", Some(window(50, 5)), None), &auth(), 0, 1000);
    let merged =
        snapshot_many(&mut quota, &|| Ok(body("acct-a", 12, false)), &mut reads, 1, 1001).unwrap();
    assert_eq!(reads, 1);
    assert_eq!(merged.len(), 2);
    assert_eq!(merged[0].source, "provider-key");
    assert_eq!(merged[1].source, "provider-pool");
    assert_eq!(merged[1].captured_at, 1000);
    let stale =
        snapshot_many(&mut quota, &|| Err("down".to_string()), &mut reads, CACHE_TTL_NANOS + 1, 1060);
    assert_eq!(stale, Err("down".to_string()));
}

#[test]
fn a_fresh_observation_stands_in_for_a_failed_read() {
    let mut quota = provider();
    quota.observe_response(limit("codex", Some(window(50, 5)), None), &auth(), 0, 1000);
    let result = snapshot_many(&mut quota, &|| Err("down".to_string()), &mut 0, 1, 1059).unwrap();
    assert_eq!(result.len(), 1);
    assert_eq!(result[0].source, "provider-pool");
}

#[test]
fn observations_update_their_own_feature() {
    let mut quota = provider();
    quota.observe_response(limit("codex", Some(window(1, 5)), None), &auth(), 0, 1000);
    quota.observe_response(limit("other", Some(window(2, 5)), None), &auth(), 0, 1001);
    quota.observe_response(limit("codex", Some(window(3, 5)), None), &auth(), 0, 1002);
    quota.observe_response(limit("codex", None, None), &auth(), 0, 1003);
    let kept = quota.cache.as_ref().unwrap().result.as_ref().unwrap();
    assert_eq!(kept.len(), 1);
    assert_eq!(kept[0].captured_at, 1002);
    assert_eq!(
        kept[0].limits,
        vec![
            limit("codex", Some(window(3, 5)), None),
            limit("other", Some(window(2, 5)), None)
        ]
    );
    quota.invalidate_cache();
    assert_eq!(quota.cache, None);
}

#[test]
fn endpoints_are_digested_without_their_slashes() {
    assert_eq!(normalize_endpoint("abc"), "a9993e364706816aba3e25717850c26c9cd0d89d");
    assert_eq!(normalize_endpoint("abc//"), normalize_endpoint("abc"));
    assert_eq!(normalize_endpoint(""), "da39a3ee5e6b4b0d3255bfef95601890afd80709");
}

#[test]
fn the_identity_speaks_of_endpoint_account_mode_and_headers() {
    let session = GoalQuotaProvider::new_with_model_provider(ModelProviderInfo {
        base_url: Some("abc".to_string()),
        usage_url: None,
        is_openai: true,
    });
    let auth = RuntimeAuth {
        account_id: Some("acct".to_string()),
        mode: Some("ApiKey".to_string()),
        headers: Some(vec![AuthHeader {
            name: b"ab".to_vec(),
            value: b"c".to_vec(),
        }]),
    };
    let digest = "a9993e364706816aba3e25717850c26c9cd0d89d";
    assert_eq!(session.current_identity(&auth), format!("{digest}|acct|ApiKey|{digest}"));
    let unknown = RuntimeAuth {
        account_id: None,
        mode: None,
        headers: None,
    };
    assert_eq!(session.current_identity(&unknown), format!("{digest}|unknown|none|auth-error"));
    assert_eq!(provider().current_identity(&auth), "acct-fixture");
    assert_eq!(session.pool_scope, format!("pool@{digest}"));
    assert_eq!(session.response_scope_id("abc"), format!("pool@{digest}#{digest}"));
    assert!(!session.passive_usage_enabled());
}

#[test]
fn usage_is_read_where_there_is_an_endpoint_for_it() {
    assert!(provider().passive_usage_enabled());
    let openai = GoalQuotaProvider::new_with_model_provider(ModelProviderInfo {
        base_url: None,
        usage_url: None,
        is_openai: true,
    });
    assert!(openai.passive_usage_enabled());
    assert_eq!(openai.source, "chatgpt-account");
    assert_eq!(provider().source, "provider-key");
}

#[test]
fn an_observer_needs_an_endpoint() {
    let mut info = info(None);
    assert!(GoalQuotaProvider::new(&info, Some("acct".to_string())).is_some());
    assert_eq!(
        GoalQuotaProvider::new(&info, None).unwrap().scope_hint,
        "unknown"
    );
    info.base_url = None;
    assert!(GoalQuotaProvider::new(&info, None).is_none());
}

#[test]
fn a_session_resolves_its_endpoint_for_each_read() {
    let session = GoalQuotaProvider::new_with_model_provider(info(None));
    let resolution = RuntimeResolution {
        base_url: Ok(Some("https://host/api/codex/codex".to_string())),
        api_auth: Ok(()),
        account_id: Some("acct".to_string()),
    };
    let plan = session.plan_fetch(&resolution).unwrap();
    assert_eq!(plan.base_url, "https://host/api");
    assert_eq!(plan.usage_url, None);
    assert_eq!(plan.source, "chatgpt-account");
    assert_eq!(plan.scope_hint, "acct");
    assert_eq!(session.plan_fetch(&no_resolution()).unwrap().base_url, SERVER);
    let failing = |base_url, api_auth| RuntimeResolution {
        base_url,
        api_auth,
        account_id: None,
    };
    assert_eq!(
        session.plan_fetch(&failing(Err("no url".to_string()), Ok(()))),
        Err("no url".to_string())
    );
    assert_eq!(
        session.plan_fetch(&failing(Ok(None), Err("no auth".to_string()))),
        Err("no auth".to_string())
    );
    let nowhere = GoalQuotaProvider::new_with_model_provider(ModelProviderInfo {
        base_url: None,
        usage_url: None,
        is_openai: false,
    });
    assert_eq!(
        nowhere.plan_fetch(&no_resolution()),
        Err("provider has no base URL".to_string())
    );
}

#[test]
fn the_scope_of_usage_is_what_it_names() {
    let quota = provider();
    let mut limits = body("acct-a", 1, false);
    limits.account_id = None;
    limits.user_id = Some("user".to_string());
    let plan = quota.plan_fetch(&no_resolution()).unwrap();
    assert_eq!(quota.fetch_many(plan, limits, &auth(), 5)[0].scope_id, "user");
    let mut limits = body("acct-a", 1, false);
    limits.account_id = None;
    let plan = quota.plan_fetch(&no_resolution()).unwrap();
    assert_eq!(quota.fetch_many(plan, limits, &auth(), 5)[0].scope_id, "acct-fixture");
}

#[test]
fn any_fact_but_the_plan_is_quota_data() {
    assert!(!has_quota_data(&limit("codex", None, None)));
    assert!(!has_quota_data(&limit("codex", None, Some("plus"))));
    assert!(has_quota_data(&RateLimitSnapshot {
        spend_control_reached: Some(false),
        ..limit("codex", None, None)
    }));
}

#[test]
fn the_first_snapshot_stands_for_all() {
    let snapshot = GoalQuotaSnapshot {
        captured_at: 1,
        source: "s".to_string(),
        scope_id: "c".to_string(),
        limits: Vec::new(),
    };
    assert_eq!(
        GoalQuotaProvider::snapshot(Ok(vec![snapshot.clone()])),
        Ok(Some(snapshot))
    );
    assert_eq!(GoalQuotaProvider::snapshot(Ok(Vec::new())), Ok(None));
    assert_eq!(
        GoalQuotaProvider::snapshot(Err("down".to_string())),
        Err("down".to_string())
    );
}
