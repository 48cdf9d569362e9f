use shellfleet::access::{agent_allowed_by_access, merge_exact_agent_access, visible_agents, AgentAccess};
use shellfleet::anon_limiter::{is_limited_path, limiter_applies, over_limit_reply};
use shellfleet::api_auth::{
    api_key, check_key, key_hash, key_role, matches_action, policy_id, require_key_action, IamStatement, KeyRow,
};
use shellfleet::csrf::{check, cookie_value, csrf_cookie, is_mutating, random_token, tokens_match, CsrfVerdict};
use shellfleet::ip_allowlist::{cidr_contains, entries_from_listing, ip_allowed, is_exempt, refreshed, screen};
use shellfleet::rbac::{enter, is_api_keys_path, is_open_path, screen_user, Entry};
use shellfleet::record::reply;
use shellfleet::security_headers::missing_headers;

fn strings(list: &[&str]) -> Vec<String> {
    list.iter().map(|s| s.to_string()).collect()
}

fn statement(effect: &str, actions: &str, resources: &str) -> IamStatement {
    IamStatement { effect: effect.into(), actions: actions.into(), resources: resources.into() }
}

#[test]
fn api_v1_is_part_of_the_per_ip_limited_surface() {
    assert!(is_limited_path("/api/v1/agents"));
    assert!(is_limited_path("/api/v1/"));
    assert!(!is_limited_path("/api/v10/agents"));
}

#[test]
fn the_limiter_rests_in_development() {
    assert!(!limiter_applies(true, "/api/v1/agents"));
    assert!(limiter_applies(false, "/api/v1/agents"));
    assert!(!limiter_applies(false, "/healthz"));
    let (refusal, _) = over_limit_reply();
    assert_eq!(refusal.status, 429);
}

#[test]
fn matches_action_wildcard_any() {
    assert!(matches_action("*", "agent:View"));
    assert!(matches_action("*", "k8s:Delete"));
}

#[test]
fn matches_action_prefix_star() {
    assert!(matches_action("agent:*", "agent:View"));
    assert!(matches_action("agent:*", "agent:Terminal"));
    assert!(matches_action("backup:*", "backup:Run"));
    assert!(!matches_action("agent:*", "k8s:List"));
}

#[test]
fn matches_action_exact() {
    assert!(matches_action("k8s:List", "k8s:List"));
    assert!(!matches_action("k8s:List", "k8s:Describe"));
}

#[test]
fn deny_takes_precedence_over_allow() {
    let rows = [
        statement("Allow", "[\"agent:View\"]", "[\"*\"]"),
        statement("Deny", "[\"agent:View\"]", "[\"*\"]"),
    ];
    let res = require_key_action(Some("1"), Some(&rows), "agent:View");
    assert!(res.is_err());
    assert_eq!(res.unwrap_err().status, 403);
}

#[test]
fn default_deny_when_action_not_listed() {
    let rows = [statement("Allow", "[\"agent:View\"]", "[\"*\"]")];
    let res = require_key_action(Some("2"), Some(&rows), "agent:Terminal");
    assert!(res.is_err());
}

#[test]
fn wildcard_prefix_allows_any_action_in_prefix() {
    let rows = [statement("Allow", "[\"agent:*\"]", "[\"*\"]")];
    assert!(require_key_action(Some("3"), Some(&rows), "agent:View").is_ok());
    assert!(require_key_action(Some("3"), Some(&rows), "agent:Terminal").is_ok());
    assert!(require_key_action(Some("3"), Some(&rows), "agent:Exec").is_ok());
}

#[test]
fn malformed_actions_fail_closed() {
    let rows = [statement("Allow", "not-json", "[\"*\"]")];
    let res = require_key_action(Some("4"), Some(&rows), "agent:View");
    assert!(res.is_err());
    assert_eq!(res.unwrap_err().status, 500);
}

#[test]
fn malformed_resources_fail_closed() {
    let rows = [statement("Allow", "[\"agent:View\"]", "not-json")];
    let res = require_key_action(Some("5"), Some(&rows), "agent:View");
    assert!(res.is_err());
    assert_eq!(res.unwrap_err().status, 500);
}

#[test]
fn mixed_resources_fail_closed() {
    let rows = [statement("Allow", "[\"agent:View\"]", "[\"*\",\"prod-*\"]")];
    let res = require_key_action(Some("6"), Some(&rows), "agent:View");
    assert!(res.is_err());
    assert_eq!(res.unwrap_err().status, 500);
}

#[test]
fn a_key_without_a_policy_may_do_everything() {
    assert!(require_key_action(None, None, "agent:View").is_ok());
    assert_eq!(policy_id(Some("12")), Some(12));
    assert_eq!(policy_id(Some("twelve")), None);
    assert_eq!(policy_id(None), None);
}

#[test]
fn an_unreadable_policy_fails_closed() {
    let res = require_key_action(Some("7"), None, "agent:View");
    assert_eq!(res.unwrap_err().status, 500);
}

#[test]
fn api_keys_are_hashed_with_sha256() {
    assert_eq!(key_hash("abc"), "ba7816bf8f01cfea414140de5dae2223b00361a396177a9cb410ff61f20015ad");
    let row = KeyRow { id: 1, login: "ada".into(), policy_id: None, expires_at: Some(100) };
    assert!(check_key(Some(&row), 99).is_none());
    assert_eq!(check_key(Some(&row), 101).unwrap().status, 401);
    assert_eq!(check_key(None, 99).unwrap().status, 401);
    assert_eq!(key_role(Some("admin")), "admin");
    assert_eq!(key_role(None), "viewer");
    assert!(api_key(None).is_none());
}

#[test]
fn exact_agent_access_has_no_pattern_or_null_ambiguity() {
    let restricted = AgentAccess::restricted(&strings(&["prod-db-1", "agent-exact"]));
    assert!(agent_allowed_by_access("prod-db-1", &restricted));
    assert!(!agent_allowed_by_access("prod-db-2", &restricted));
    assert!(!agent_allowed_by_access("dev-db-1", &restricted));
    assert!(agent_allowed_by_access("anything", &AgentAccess::Unrestricted));
}

#[test]
fn exact_access_refresh_updates_only_the_checked_agent() {
    let mut cached = AgentAccess::restricted(&strings(&["agent-a", "agent-b"]));
    merge_exact_agent_access(&mut cached, "agent-c", &AgentAccess::restricted(&strings(&["agent-c"])));
    assert!(agent_allowed_by_access("agent-a", &cached));
    assert!(agent_allowed_by_access("agent-c", &cached));

    merge_exact_agent_access(&mut cached, "agent-a", &AgentAccess::nothing());
    assert!(!agent_allowed_by_access("agent-a", &cached));
    assert!(agent_allowed_by_access("agent-b", &cached));
}

#[test]
fn restricted_exact_refresh_replaces_stale_unrestricted_cache() {
    let mut cached = AgentAccess::Unrestricted;
    merge_exact_agent_access(&mut cached, "agent-a", &AgentAccess::restricted(&strings(&["agent-a"])));
    assert!(agent_allowed_by_access("agent-a", &cached));
    assert!(!agent_allowed_by_access("agent-b", &cached));
}

#[test]
fn only_covered_agents_are_visible() {
    let all = strings(&["a", "b", "c"]);
    let access = AgentAccess::restricted(&strings(&["c", "a"]));
    assert_eq!(visible_agents(&all, &access), strings(&["a", "c"]));
    assert_eq!(visible_agents(&all, &access.copy()), strings(&["a", "c"]));
    assert_eq!(visible_agents(&all, &AgentAccess::Unrestricted), all);
}

#[test]
fn tokens_match_only_when_equal_and_nonempty() {
    assert!(tokens_match("abc123", "abc123"));
    assert!(!tokens_match("abc123", "different"));
    assert!(!tokens_match("", ""));
    assert!(!tokens_match("abc", ""));
    assert!(!tokens_match("", "abc"));
}

#[test]
fn a_mutating_request_needs_the_token_of_its_cookie() {
    assert!(is_mutating("POST"));
    assert!(!is_mutating("GET"));
    assert_eq!(cookie_value(Some("a=1; csrf=xyz"), "csrf"), Some("xyz".to_string()));
    assert_eq!(cookie_value(Some("a=1"), "csrf"), None);
    assert!(matches!(
        check("POST", Some("auth_token=t; csrf=xyz"), Some("xyz")),
        CsrfVerdict::Pass { seed: false }
    ));
    match check("POST", Some("auth_token=t; csrf=xyz"), Some("abc")) {
        CsrfVerdict::Refuse(r) => assert_eq!(r.status, 403),
        CsrfVerdict::Pass { .. } => panic!("a wrong token passed"),
    }
    assert!(matches!(check("GET", None, None), CsrfVerdict::Pass { seed: true }));
}

#[test]
fn csrf_cookies_are_readable_by_the_page() {
    assert_ne!(random_token(), random_token());
    let cookie = csrf_cookie("tok", "");
    assert!(cookie.contains("tok"));
    assert!(cookie.contains("Secure"));
    assert!(!csrf_cookie("tok", "false").contains("Secure"));
    assert!(csrf_cookie("tok", "1").contains("Secure"));
    assert!(!csrf_cookie("tok", " No ").contains("Secure"));
}

#[test]
fn matches_keys_routes_segment_bounded() {
    assert!(is_api_keys_path("/ee/keys"));
    assert!(is_api_keys_path("/ee/keys/1"));
    assert!(!is_api_keys_path("/ee/keys-extra"));
    assert!(!is_api_keys_path("/ee/keysX"));
    assert!(!is_api_keys_path("/ee/metrics/panels"));
}

#[test]
fn viewers_may_read_and_not_write() {
    assert!(screen_user("GET", "/agents", &Ok("viewer".to_string())).is_none());
    assert_eq!(screen_user("POST", "/agents", &Ok("viewer".to_string())).unwrap().status, 403);
    assert!(screen_user("POST", "/agents", &Ok("admin".to_string())).is_none());
    assert!(screen_user("POST", "/ee/keys", &Ok("viewer".to_string())).is_none());
    assert!(screen_user("POST", "/metrics/query", &Ok("viewer".to_string())).is_none());
    assert_eq!(screen_user("POST", "/metrics/panels", &Ok("viewer".to_string())).unwrap().status, 403);
    assert_eq!(screen_user("GET", "/agents", &Err(reply(401, "Unauthorized"))).unwrap().status, 401);
    assert!(matches!(enter(true, false, "/agents"), Entry::Pass));
    assert!(matches!(enter(false, false, "/agents"), Entry::NeedsUser));
    assert!(!is_open_path("/agents"));
}

#[test]
fn networks_hold_their_addresses() {
    assert!(cidr_contains("10.0.0.0/8", "10.1.2.3"));
    assert!(!cidr_contains("10.0.0.0/8", "11.1.2.3"));
    assert!(cidr_contains("192.0.2.7", "192.0.2.7"));
    assert!(!cidr_contains("nonsense", "10.1.2.3"));
    assert!(!cidr_contains("10.0.0.0/8", "nonsense"));
}

#[test]
fn an_allowlist_without_enabled_entries_lets_everybody_in() {
    assert!(ip_allowed(&[], "203.0.113.9"));
    assert!(ip_allowed(&[("10.0.0.0/8".to_string(), false)], "203.0.113.9"));
    assert!(!ip_allowed(&[("10.0.0.0/8".to_string(), true)], "203.0.113.9"));
    assert!(ip_allowed(&[("10.0.0.0/8".to_string(), true)], "10.9.9.9"));
    let listing = [(Some("10.0.0.0/8".to_string()), Some(1)), (None, Some(1))];
    assert_eq!(entries_from_listing(&listing), vec![("10.0.0.0/8".to_string(), true)]);
    assert_eq!(refreshed(Some(&listing)), entries_from_listing(&listing));
    assert!(refreshed(None).is_empty());
}

#[test]
fn the_allowlist_guards_dashboard_paths_only() {
    let entries = [("10.0.0.0/8".to_string(), true)];
    assert!(is_exempt("/healthz"));
    assert!(screen(true, "/healthz", &entries, "203.0.113.9").is_none());
    assert_eq!(screen(true, "/api/me", &entries, "203.0.113.9").unwrap().status, 403);
    assert!(screen(false, "/api/me", &entries, "203.0.113.9").is_none());
}

#[test]
fn headers_that_are_there_are_not_replaced() {
    let all = missing_headers(&[]);
    assert!(!all.is_empty());
    let names: Vec<String> = all.iter().map(|h| h.0.clone()).collect();
    assert!(missing_headers(&names).is_empty());
}
