use shellfleet::auth::{
    allowed_users, build_session_cookie, check_jwt_secret, claims_from_token, cookie_secure, current_user, decode_claims,
    dev_claims, is_dev_mode, is_user_allowed, issue_cli_jwt, issue_full_session, issue_internal_jwt, issue_jwt, pending_mfa_claims,
    pending_mfa_user, removal_cookie, require_admin, require_auth, sign_in_cookie, user_from_token, verify_token,
    AuthConfig, Claims, Role, SameSite, SecretCheck,
};
use shellfleet::cli_auth::{cli_ws_url, new_request as new_cli_request, CliAuthTokenResponse, CliPoll, CliStep};
use shellfleet::crypto::{decrypt, encrypt, KeyMaterial};
use shellfleet::db::{created_at_on_contact, decide_seat, InviteRow, PendingDeviceRow, SeatDecision, SeatedUpsert, UserListRow, UserRow};
use shellfleet::device_auth::{
    approval, approved, issued, new_pair, new_request, poll, refreshed, user_code, Approval, DeviceLookup, DevicePoll,
    DeviceTokenResponse, Rotation,
};
use shellfleet::entrance::{
    admit_agent, admit_user, backups_enabled, bearer_token, check_binding, login_url, login_url_with, logout_url, me,
    realert_secs, LoginSettings,
};
use shellfleet::invites::{accept, generate_code, invite_created_audit_detail, new_invite, Acceptance};
use shellfleet::json_object::{pick_member, read_object, Member};
use shellfleet::mfa::{
    burn_recovery, code_text, confirm, current_step, disable, generate_recovery_codes, generate_secret_b32, hash_recovery,
    hashes_for_codes, hotp, normalize_recovery, otpauth_uri, status, verify, verify_totp, verify_totp_at, DisableOutcome,
    UserLookup, VerifyOutcome,
};
use shellfleet::passkey_mfa::{finish, login_finish, offer_passkey, sidecar_endpoint, AssertionCheck, PasskeyOutcome};
use shellfleet::signin::{ProfileFetch, SignIn, SignInStep, TokenExchange, UpsertOutcome};
use shellfleet::throttle::{
    cloudflare_cidrs, peer_is_trusted_proxy, real_client_ip, trusted_proxy_set, CheckResult, ForwardHeaders, Throttle,
};
use shellfleet::tokens::{list_rows, preview, revoke_reply, TokenInfo};
use shellfleet::users::{check_delete, check_set_role, count_admins, delete_done, set_role_done, Change};
use shellfleet::weburl::{origin_allowed, ws_allowed_origins};

fn now() -> i64 {
    std::time::SystemTime::now().duration_since(std::time::UNIX_EPOCH).unwrap().as_secs() as i64
}

fn config() -> AuthConfig {
    AuthConfig {
        jwt_secret: "0123456789abcdef0123456789abcdef".into(),
        dev_flag: String::new(),
        allowed_users: Some("ada, grace".into()),
    }
}

fn keys() -> KeyMaterial {
    KeyMaterial {
        jwt_secret: Some("test-jwt-secret-0123456789abcdef0123456789abcdef".into()),
        totp_encryption_key: Some("test-totp-encryption-key-0123456789abcdef0123456789abcdef".into()),
    }
}

fn user(login: &str, role: &str) -> UserRow {
    UserRow {
        login: login.into(),
        role: role.into(),
        totp_enabled: 0,
        totp_secret: None,
        totp_recovery_hashes: String::new(),
        created_at: 1,
        last_login_at: 1,
        session_epoch: 0,
    }
}

fn claims(sub: &str, role: &str, mfa: bool) -> Claims {
    Claims { sub: sub.into(), exp: 4_000_000_000, iat: 10, role: role.into(), mfa, cli: false }
}

#[test]
fn role_parse_maps_admin_and_defaults_to_viewer() {
    assert_eq!(Role::parse("admin"), Role::Admin);
    assert_eq!(Role::parse("viewer"), Role::Viewer);
    assert_eq!(Role::parse("ADMIN"), Role::Viewer);
    assert_eq!(Role::parse("root"), Role::Viewer);
    assert_eq!(Role::parse(""), Role::Viewer);
}

#[test]
fn role_as_str_roundtrips_through_parse() {
    assert_eq!(Role::parse(Role::Admin.as_str()), Role::Admin);
    assert_eq!(Role::parse(Role::Viewer.as_str()), Role::Viewer);
}

#[test]
fn a_session_token_reads_back_as_it_was_issued() {
    let cfg = config();
    let t = issue_jwt(&cfg, "ada", Role::Admin, true, 3600, now()).unwrap();
    let c = decode_claims(&cfg, &t).unwrap();
    assert_eq!(c.sub, "ada");
    assert_eq!(c.role, "admin");
    assert!(c.mfa);
    assert!(!c.cli);
    assert!(verify_token(&cfg, &t));
    assert_eq!(user_from_token(&cfg, &t), Some("ada".to_string()));
    assert_eq!(require_auth(&cfg, Some(&t)), Some("ada".to_string()));
    assert_eq!(require_auth(&cfg, None), None);
}

/// A token that carries a text, signed with the secret of `config`.
fn signed(payload: &str) -> String {
    let b64 = &data_encoding::BASE64URL_NOPAD;
    let header = b64.encode(b"{\"typ\":\"JWT\",\"alg\":\"HS256\"}");
    let message = format!("{header}.{}", b64.encode(payload.as_bytes()));
    let key = jsonwebtoken::EncodingKey::from_secret(config().jwt_secret.as_bytes());
    let mark = jsonwebtoken::crypto::sign(message.as_bytes(), &key, jsonwebtoken::Algorithm::HS256);
    format!("{message}.{}", mark.unwrap())
}

#[test]
fn a_token_that_repeats_a_claim_is_refused() {
    let cfg = config();
    let base = "\"sub\":\"ada\",\"exp\":9999999999";
    let read = |rest: &str| decode_claims(&cfg, &signed(&format!("{{{base}{rest}}}")));
    let plain = read("").unwrap();
    assert_eq!((plain.sub.as_str(), plain.role.as_str(), plain.iat), ("ada", "viewer", 0));
    assert!(plain.mfa && !plain.cli);
    assert_eq!(read(",\"role\":\"admin\"").unwrap().role, "admin");
    assert!(read(",\"role\":\"viewer\",\"role\":\"admin\"").is_none());
    assert!(read(",\"role\":\"viewer\",\"rol\\u0065\":\"admin\"").is_none());
    assert!(read(",\"mfa\":true,\"mfa\":true").is_none());
    assert!(read(",\"cli\":false, \"cli\" : false").is_none());
    assert!(read(",\"iat\":1,\"x\":[{\"iat\":2}],\"iat\":1").is_none());
    assert!(read(",\"sub\":\"eve\"").is_none());
    assert!(read(",\"exp\":9999999999").is_none());
    assert_eq!(read(",\"iat\":7,\"x\":{\"iat\":2,\"role\":\"admin\"},\"x\":\"\\\",\\\"iat\\\":3\"").unwrap().iat, 7);
}

#[test]
fn unknown_claims_are_passed_over_whatever_they_hold() {
    let cfg = config();
    let base = "\"sub\":\"ada\",\"exp\":9999999999";
    let deep = format!("{}{}", "[".repeat(300), "]".repeat(300));
    for rest in [",\"x\":1e999", ",\"x\":null,\"x\":{\"y\":\"}\"}", &format!(",\"x\":{deep}")] {
        assert_eq!(decode_claims(&cfg, &signed(&format!(" {{ {base}{rest} }}\n"))).unwrap().sub, "ada");
    }
    for rest in [",\"role\":7", ",\"mfa\":null", ",\"iat\":1.5", ",\"iat\":1e999", ",\"cli\":\"true\""] {
        assert!(decode_claims(&cfg, &signed(&format!("{{{base}{rest}}}"))).is_none());
    }
    for whole in ["[9999999999,0,{\"sub\":\"ada\",\"exp\":9999999999}]", "{}", "7", "{\"exp\":9999999999}"] {
        assert!(decode_claims(&cfg, &signed(whole)).is_none());
    }
    assert!(decode_claims(&cfg, &signed("{\"sub\":\"ada\",\"exp\":1}")).is_none());
}

#[test]
fn the_members_of_an_object_keep_their_order() {
    let list = read_object(b" {\"a\": [1,{\"b\":2}], \"b\":\"x:,}\", \"a\":null} ").unwrap();
    let names: Vec<&str> = list.iter().map(|m| m.0.as_str()).collect();
    assert_eq!(names, vec!["a", "b", "a"]);
    assert_eq!(list[0].1, b" [1,{\"b\":2}]".to_vec());
    assert_eq!(pick_member(&list, "b"), Some(Member::Text("x:,}".into())));
    assert_eq!(pick_member(&list, "c"), Some(Member::Missing));
    assert_eq!(pick_member(&list, "a"), None);
    assert_eq!(read_object(b"[1]"), None);
    assert_eq!(read_object(b"{1:2}"), None);
}

#[test]
fn the_second_factor_gives_a_verified_session_for_a_day() {
    let cfg = config();
    let at = now();
    let t = issue_full_session(&cfg, "ada", Role::Viewer, at).unwrap();
    let c = decode_claims(&cfg, &t).unwrap();
    assert_eq!((c.sub.as_str(), c.role.as_str(), c.mfa, c.cli), ("ada", "viewer", true, false));
    assert_eq!((c.iat, c.exp as i64), (at, at + 86400));
}

#[test]
fn a_secret_of_dev_alone_lets_nobody_in() {
    let mut cfg = config();
    cfg.jwt_secret = "dev".into();
    assert_eq!(require_auth(&cfg, None), None);
    cfg.dev_flag = "1".into();
    assert_eq!(require_auth(&cfg, None), Some("dev".to_string()));
    cfg.jwt_secret = config().jwt_secret;
    assert_eq!(require_auth(&cfg, None), None);
}

#[test]
fn a_token_of_another_secret_or_an_expired_one_is_none() {
    let cfg = config();
    let mut other = config();
    other.jwt_secret = "another secret, another secret!!".into();
    let t = issue_jwt(&other, "ada", Role::Admin, true, 3600, now()).unwrap();
    assert!(decode_claims(&cfg, &t).is_none());
    let gone = issue_jwt(&cfg, "ada", Role::Admin, true, 1, now() - 3600).unwrap();
    assert!(decode_claims(&cfg, &gone).is_none());
    assert!(claims_from_token(&cfg, &gone).is_none());
    assert!(!verify_token(&cfg, &gone));
    assert_eq!(user_from_token(&cfg, &gone), None);
    let far = issue_jwt(&cfg, "ada", Role::Admin, true, i64::MAX - now(), now()).unwrap();
    assert!(verify_token(&cfg, &far));
    let pending = issue_jwt(&cfg, "ada", Role::Admin, false, 3600, now()).unwrap();
    assert!(claims_from_token(&cfg, &pending).is_some());
    assert!(!verify_token(&cfg, &pending));
    assert!(decode_claims(&cfg, "garbage").is_none());
}

#[test]
fn users_off_the_list_have_no_session() {
    let cfg = config();
    let t = issue_jwt(&cfg, "eve", Role::Admin, true, 3600, now()).unwrap();
    assert!(claims_from_token(&cfg, &t).is_none());
    assert!(is_user_allowed(&cfg, "grace"));
    assert!(!is_user_allowed(&cfg, "eve"));
    assert_eq!(allowed_users(Some(" a ,, b ")), vec!["a".to_string(), "b".to_string()]);
}

#[test]
fn special_tokens_say_what_they_are() {
    let cfg = config();
    let cli = issue_cli_jwt(&cfg, "ada", Role::Viewer, 60, now()).unwrap();
    assert!(decode_claims(&cfg, &cli).unwrap().cli);
    let internal = issue_internal_jwt(&cfg, "ada", "root", false, now());
    let c = decode_claims(&cfg, &internal).unwrap();
    assert_eq!(c.role, "viewer");
    assert!(!c.mfa);
    assert_eq!(pending_mfa_claims(Some(claims("ada", "viewer", true))), None);
    assert!(pending_mfa_claims(Some(claims("ada", "viewer", false))).is_some());
}

#[test]
fn the_stored_role_and_epoch_count() {
    let mut cfg = config();
    let row = user("ada", "viewer");
    let c = current_user(&cfg, 20, Some(claims("ada", "admin", true)), Some(&row)).unwrap();
    assert_eq!(c.role, "viewer");
    assert_eq!(require_admin(Ok(c)).unwrap_err().status, 403);
    assert_eq!(current_user(&cfg, 20, None, None).unwrap_err().status, 401);
    assert_eq!(current_user(&cfg, 20, Some(claims("ada", "admin", false)), Some(&row)).unwrap_err().status, 403);
    let mut revoked = user("ada", "admin");
    revoked.session_epoch = 11;
    assert_eq!(current_user(&cfg, 20, Some(claims("ada", "admin", true)), Some(&revoked)).unwrap_err().status, 401);
    assert!(require_admin(Ok(dev_claims(5))).is_ok());
    cfg.jwt_secret = "dev".into();
    cfg.dev_flag = "on".into();
    assert_eq!(current_user(&cfg, 5, None, None).unwrap(), dev_claims(5));
}

#[test]
fn a_second_factor_is_waited_for_by_a_known_session() {
    let waiting = || Some(claims("ada", "admin", false));
    let row = user("ada", "viewer");
    let found = pending_mfa_user(waiting(), &UserLookup::Found(row.clone())).unwrap();
    assert_eq!((found.sub.as_str(), found.role.as_str(), found.mfa), ("ada", "viewer", false));
    assert_eq!(pending_mfa_user(waiting(), &UserLookup::Absent).unwrap_err().status, 401);
    assert_eq!(pending_mfa_user(waiting(), &UserLookup::Failed).unwrap_err().status, 503);
    let verified = Some(claims("ada", "admin", true));
    assert_eq!(pending_mfa_user(verified, &UserLookup::Found(row)).unwrap_err().body, "Unauthorized");
    let mut revoked = user("ada", "admin");
    revoked.session_epoch = 11;
    let refused = pending_mfa_user(waiting(), &UserLookup::Found(revoked)).unwrap_err();
    assert_eq!(refused.body, "session revoked — please sign in again");
}

#[test]
fn cookies_are_out_of_reach_of_scripts() {
    let c = build_session_cookie("tok".into(), "");
    assert_eq!((c.name.as_str(), c.value.as_str(), c.path.as_str()), ("auth_token", "tok", "/"));
    assert!(c.http_only && c.secure && c.same_site == SameSite::Lax && c.max_age_secs.is_none());
    let s = sign_in_cookie("oauth_state", "s".into(), " OFF ");
    assert!(s.http_only && !s.secure && s.max_age_secs == Some(600));
    let gone = removal_cookie("auth_token", "0");
    assert!(gone.value.is_empty() && !gone.secure && gone.max_age_secs == Some(0));
}

#[test]
fn the_secret_is_checked_at_the_start() {
    let mut cfg = config();
    assert!(matches!(check_jwt_secret(&cfg), SecretCheck::Usable));
    cfg.jwt_secret = "short".into();
    assert!(matches!(check_jwt_secret(&cfg), SecretCheck::TooShort(5)));
    cfg.jwt_secret = String::new();
    assert!(matches!(check_jwt_secret(&cfg), SecretCheck::Missing));
    cfg.jwt_secret = "dev".into();
    assert!(matches!(check_jwt_secret(&cfg), SecretCheck::StrayDev));
    cfg.dev_flag = "1".into();
    assert!(matches!(check_jwt_secret(&cfg), SecretCheck::Dev));
    assert!(is_dev_mode(&cfg));
    assert!(cookie_secure(""));
    assert!(!cookie_secure("false"));
}

#[test]
fn maps_dashboard_urls_to_operator_websocket() {
    assert_eq!(cli_ws_url("https://dashboard.example.com/").unwrap(), "wss://dashboard.example.com/ui/ws");
    assert_eq!(cli_ws_url("http://localhost:3000/dashboard").unwrap(), "ws://localhost:3000/ui/ws");
}

#[test]
fn other_schemes_have_no_operator_websocket() {
    assert_eq!(cli_ws_url("ftp://dashboard.example.com/").unwrap_err(), "UI_URL must use http or https");
    assert!(cli_ws_url("no url").is_err());
    let r = new_cli_request(Some("https://d.example.com/")).unwrap();
    assert_eq!(r.ws_url, "wss://d.example.com/ui/ws");
    assert!(r.verification_uri.ends_with("device?cli=1"));
}

#[test]
fn encrypt_then_decrypt_roundtrips() {
    let pt = "hunter2 · the TOTP secret";
    let ct = encrypt(&keys(), pt).expect("test key material is configured");
    assert!(ct.starts_with("v2:"), "ciphertext must carry the v2 prefix");
    assert_ne!(ct, pt);
    assert_eq!(decrypt(&keys(), &ct).as_deref(), Some(pt));
}

#[test]
fn decrypt_rejects_garbage_and_tampering() {
    assert_eq!(decrypt(&keys(), "no-prefix-here"), None);
    assert_eq!(decrypt(&keys(), "v1:bogus.bogus"), None);
    let ct = encrypt(&keys(), "secret").expect("test key material is configured");
    let mut chars: Vec<char> = ct.chars().collect();
    let last = chars.len() - 1;
    chars[last] = if chars[last] == 'A' { 'B' } else { 'A' };
    let tampered: String = chars.into_iter().collect();
    assert_eq!(decrypt(&keys(), &tampered), None, "tampered ciphertext must not decrypt");
}

#[test]
fn encryption_needs_a_long_key() {
    let none = KeyMaterial { jwt_secret: None, totp_encryption_key: None };
    assert_eq!(
        encrypt(&none, "x").unwrap_err(),
        "TOTP_ENCRYPTION_KEY is required to encrypt TOTP credentials"
    );
    let short = KeyMaterial { jwt_secret: None, totp_encryption_key: Some("short".into()) };
    assert_eq!(encrypt(&short, "x").unwrap_err(), "TOTP_ENCRYPTION_KEY must be at least 32 characters");
    assert_ne!(encrypt(&keys(), "x").unwrap(), encrypt(&keys(), "x").unwrap());
}

#[test]
fn verify_totp_accepts_current_code_and_rejects_others() {
    let secret = "JBSWY3DPEHPK3PXP";
    let secret_bytes = data_encoding::BASE32_NOPAD.decode(secret.as_bytes()).unwrap();
    let step = current_step(now() as u64);
    let code = code_text(hotp(&secret_bytes, step));
    assert!(verify_totp(secret, &code), "the current TOTP must verify");
    let far = code_text(hotp(&secret_bytes, step + 100));
    assert!(!verify_totp(secret, &far), "out-of-window code must be rejected");
}

#[test]
fn verify_totp_rejects_malformed_inputs() {
    assert!(!verify_totp("JBSWY3DPEHPK3PXP", "not-a-number"));
    assert!(!verify_totp("JBSWY3DPEHPK3PXP", ""));
    assert!(!verify_totp("!!! not base32 !!!", "123456"));
}

#[test]
fn totp_skew_window_accepts_adjacent_steps() {
    let secret = "JBSWY3DPEHPK3PXP";
    let secret_bytes = data_encoding::BASE32_NOPAD.decode(secret.as_bytes()).unwrap();
    let step = current_step(now() as u64);
    let prev = code_text(hotp(&secret_bytes, step - 1));
    let next = code_text(hotp(&secret_bytes, step + 1));
    assert!(verify_totp(secret, &prev), "previous step within skew");
    assert!(verify_totp(secret, &next), "next step within skew");
}

#[test]
fn one_time_codes_match_the_published_vectors() {
    let secret = b"12345678901234567890";
    assert_eq!(hotp(secret, 0), 755224);
    assert_eq!(hotp(secret, 1), 287082);
    assert_eq!(hotp(secret, 9), 520489);
    assert_eq!(code_text(42), "000042");
    assert_eq!(current_step(59), 1);
    let b32 = data_encoding::BASE32_NOPAD.encode(secret);
    assert!(verify_totp_at(&b32, "287082", 59));
    assert!(verify_totp_at(&b32, "755224", 59));
    assert!(!verify_totp_at(&b32, "520489", 59));
}

#[test]
fn recovery_codes_work_once() {
    let codes = generate_recovery_codes();
    assert_eq!(codes.len(), 10);
    let mut hashes = hashes_for_codes(&codes);
    let target = hash_recovery(&codes[3]);
    assert!(burn_recovery(&mut hashes, &target));
    assert!(!burn_recovery(&mut hashes, &target));
    assert_eq!(hashes.len(), 9);
    assert_eq!(normalize_recovery("AbCd-12 "), "ABCD12");
    assert_eq!(hash_recovery("ABCD"), hash_recovery("abcd"));
}

#[test]
fn a_second_factor_is_set_up_used_and_taken_away() {
    let secret = generate_secret_b32();
    assert_ne!(secret, generate_secret_b32());
    assert!(otpauth_uri("ada l", &secret).starts_with("otpauth://totp/"));
    assert!(otpauth_uri("ada l", &secret).contains("%20"));
    let bytes = data_encoding::BASE32_NOPAD.decode(secret.as_bytes()).unwrap();
    let at = now();
    let code = code_text(hotp(&bytes, current_step(at as u64)));
    let codes = generate_recovery_codes();
    assert_eq!(confirm(&keys(), &secret, "000000x", &codes, at).unwrap_err().status, 400);
    let (stored_secret, stored_hashes) = confirm(&keys(), &secret, &code, &codes, at).unwrap();
    let mut row = user("ada", "admin");
    row.totp_enabled = 1;
    row.totp_secret = Some(stored_secret);
    row.totp_recovery_hashes = stored_hashes;
    let mut throttle = Throttle::new();
    match verify(&mut throttle, &keys(), "ada", Some(&row), &code, at) {
        VerifyOutcome::Right { role, used_recovery, .. } => {
            assert_eq!(role, Role::Admin);
            assert!(!used_recovery);
        }
        _ => panic!("the right code was refused"),
    }
    match verify(&mut throttle, &keys(), "ada", Some(&row), &codes[0], at) {
        VerifyOutcome::Right { used_recovery, store, .. } => {
            assert!(used_recovery);
            row.totp_recovery_hashes = store.unwrap();
        }
        _ => panic!("a recovery code was refused"),
    }
    assert!(matches!(
        verify(&mut throttle, &keys(), "ada", Some(&row), &codes[0], at),
        VerifyOutcome::Wrong { .. }
    ));
    assert!(matches!(
        disable(&mut throttle, &keys(), "ada", Some(&row), &code, at),
        DisableOutcome::Clear { .. }
    ));
    assert!(matches!(
        verify(&mut throttle, &keys(), "ada", Some(&user("ada", "admin")), &code, at),
        VerifyOutcome::Unavailable { .. }
    ));
    assert_eq!(status(true, None, &UserLookup::Absent), Ok(false));
}

#[test]
fn ten_wrong_codes_lock() {
    let mut t = Throttle::new();
    for _ in 0..9 {
        t.record_failure("ada", 1000);
        assert!(matches!(t.check("ada", 1000), CheckResult::Allowed));
    }
    t.record_failure("ada", 1000);
    assert!(matches!(t.check("ada", 1001), CheckResult::Locked { retry_after_secs: 899 }));
    assert!(matches!(t.check("grace", 1001), CheckResult::Allowed));
    t.record_success("ada");
    assert!(matches!(t.check("ada", 1002), CheckResult::Allowed));
}

#[test]
fn untrusted_peer_cannot_spoof_client_ip() {
    let headers = ForwardHeaders {
        cf_connecting_ip: Some("8.8.8.8".into()),
        x_real_ip: None,
        x_forwarded_for: Some("9.9.9.9".into()),
    };
    assert_eq!(
        real_client_ip(&headers, Some("192.0.2.1"), &trusted_proxy_set(None)),
        "192.0.2.1",
        "an untrusted peer must not be able to spoof its client IP"
    );
}

#[test]
fn missing_peer_falls_back_to_unknown() {
    let headers = ForwardHeaders { cf_connecting_ip: None, x_real_ip: None, x_forwarded_for: None };
    assert_eq!(real_client_ip(&headers, None, &trusted_proxy_set(None)), "unknown");
}

#[test]
fn a_trusted_proxy_names_the_client() {
    let headers = ForwardHeaders {
        cf_connecting_ip: Some("8.8.8.8".into()),
        x_real_ip: Some("7.7.7.7".into()),
        x_forwarded_for: Some("9.9.9.9, 1.1.1.1".into()),
    };
    let trusted = trusted_proxy_set(None);
    assert_eq!(trusted.len(), cloudflare_cidrs().len());
    assert!(peer_is_trusted_proxy(&trusted, "104.16.0.1"));
    assert_eq!(real_client_ip(&headers, Some("104.16.0.1"), &trusted), "8.8.8.8");
    let only_forwarded = ForwardHeaders {
        cf_connecting_ip: Some("not an address".into()),
        x_real_ip: None,
        x_forwarded_for: Some("9.9.9.9, 1.1.1.1".into()),
    };
    assert_eq!(real_client_ip(&only_forwarded, Some("104.16.0.1"), &trusted), "9.9.9.9");
}

#[test]
fn invite_audit_detail_contains_metadata_not_bearer_code() {
    let detail = invite_created_audit_detail("admin", 12345);
    assert_eq!(detail, "role=admin expires_at=12345");
    assert!(!detail.contains("invite-secret"));
}

#[test]
fn invitations_are_good_once_and_for_a_time() {
    assert_ne!(generate_code(), generate_code());
    let n = new_invite("ada", "nonsense", 1, 100);
    assert_eq!(n.role, "viewer");
    assert_eq!(n.expires_at, 3700);
    let row = InviteRow {
        role: "admin".into(),
        expires_at: 3700,
        used_by: None,
    };
    assert!(matches!(accept("c", Some(&row), 200, Some("grace")), Acceptance::Redeem { .. }));
    assert!(matches!(accept("c", Some(&row), 200, None), Acceptance::SignIn { .. }));
    assert!(matches!(accept("c", Some(&row), 4000, Some("grace")), Acceptance::Refuse(_)));
    assert!(matches!(accept("c", None, 200, Some("grace")), Acceptance::Refuse(_)));
}

#[test]
fn a_device_is_paired_after_approval() {
    let (request, expires_at) = new_request(Some("https://d/"), 1000);
    assert_eq!(request.device_code.len(), 32);
    assert_eq!(request.user_code.len(), 9);
    assert_eq!(request.verification_uri, "https://d/device");
    assert_eq!(expires_at, 1300);
    assert_eq!(user_code("abcdefgh"), "ABCD-EFGH");
    let mut row = PendingDeviceRow {
        device_code: request.device_code.clone(),
        user_code: request.user_code.clone(),
        expires_at,
        approved: 0,
        purpose: "agent".into(),
        approved_by: None,
    };
    let waiting = poll(&DeviceLookup::Found(row.clone()), 1100);
    assert_eq!(
        waiting,
        DevicePoll::Answer {
            response: DeviceTokenResponse::Error { error: "authorization_pending".into() },
            forget: false
        }
    );
    row.approved = 1;
    assert!(matches!(poll(&DeviceLookup::Found(row.clone()), 1100), DevicePoll::Issue { .. }));
    assert!(matches!(poll(&DeviceLookup::Found(row), 1301), DevicePoll::Answer { forget: true, .. }));
    assert!(matches!(poll(&DeviceLookup::Absent, 1), DevicePoll::Answer { .. }));
    let pair = new_pair(1000);
    assert_ne!(pair.access_token, pair.refresh_token);
    assert!(issued(&pair, true, "ABCD-EFGH").1.is_some());
    assert!(issued(&pair, false, "ABCD-EFGH").1.is_none());
    assert!(refreshed(&pair, Rotation::Done).1.is_some());
    assert!(matches!(refreshed(&pair, Rotation::Unknown).0, DeviceTokenResponse::Error { .. }));
}

#[test]
fn approvals_ignore_case_and_count_failures() {
    let mut t = Throttle::new();
    let (request, _) = new_request(None, 1000);
    for typed in [request.user_code.to_lowercase(), request.user_code.clone()] {
        assert_eq!(
            approval(&mut t, "ada", &typed, 10),
            Approval::Approve { user_code: request.user_code.clone() }
        );
    }
    assert_eq!(
        approval(&mut t, "ada", "abcd-ef1ß", 10),
        Approval::Approve { user_code: "ABCD-EF1SS".into() }
    );
    for _ in 0..10 {
        assert_eq!(approved(&mut t, "ada", "X", false, 10).0.status, 400);
    }
    assert!(matches!(approval(&mut t, "ada", "abcd", 11), Approval::Locked { .. }));
    assert_eq!(approved(&mut t, "grace", "X", true, 10).0.status, 200);
}

#[test]
fn an_operator_gets_one_token_per_approval() {
    let row = PendingDeviceRow {
        device_code: "d".into(),
        user_code: "u".into(),
        expires_at: 100,
        approved: 1,
        purpose: "cli".into(),
        approved_by: Some("ada".into()),
    };
    let mut p = CliPoll { now: 50, device: DeviceLookup::Found(row), user: None, consumed: None, token: None };
    assert_eq!(p.next(), CliStep::LookUpUser { login: "ada".into() });
    p.user = Some(UserLookup::Found(user("ada", "admin")));
    assert_eq!(p.next(), CliStep::Consume { device_code: "d".into(), actor: "ada".into() });
    p.consumed = Some(Some(true));
    assert!(matches!(p.next(), CliStep::IssueToken { role: Role::Admin, .. }));
    p.token = Some(Some("t".into()));
    assert!(matches!(
        p.next(),
        CliStep::Answer { response: CliAuthTokenResponse::Token { .. }, audit: Some(_), .. }
    ));
    p.consumed = Some(Some(false));
    assert_eq!(
        p.next(),
        CliStep::Answer {
            response: CliAuthTokenResponse::Error { error: "invalid_grant".into() },
            forget: false,
            audit: None
        }
    );
}

fn sign_in() -> SignIn {
    SignIn {
        cookie_state: Some("s".into()),
        query_state: "s".into(),
        invite_code: None,
        bootstrap_admin: None,
        ui_url: Some("https://d/".into()),
        now: 100,
        token: None,
        profile: None,
        user_count: None,
        invite: None,
        seat_cap: None,
        upsert: None,
        issued: None,
        redeemed: None,
    }
}

#[test]
fn a_sign_in_goes_step_by_step() {
    let cfg = config();
    let mut s = sign_in();
    assert!(matches!(s.next(&cfg), SignInStep::ExchangeCode));
    s.token = Some(TokenExchange::Answered { access_token: Some("at".into()) });
    assert!(matches!(s.next(&cfg), SignInStep::FetchProfile { .. }));
    s.profile = Some(ProfileFetch::Login("ada".into()));
    assert!(matches!(s.next(&cfg), SignInStep::CountUsers));
    s.user_count = Some(0);
    assert!(matches!(s.next(&cfg), SignInStep::ReadSeatCap));
    s.seat_cap = Some(5);
    match s.next(&cfg) {
        SignInStep::UpsertUser { login, role, seat_cap } => {
            assert_eq!((login.as_str(), role.as_str(), seat_cap), ("ada", "admin", 5));
        }
        _ => panic!("the user was not stored"),
    }
    s.upsert = Some(UpsertOutcome::Done(SeatedUpsert::Created(user("ada", "admin"))));
    assert!(matches!(s.next(&cfg), SignInStep::IssueSession { mfa: true, .. }));
    s.issued = Some(true);
    match s.next(&cfg) {
        SignInStep::Finish { dest, audits, clear_invite } => {
            assert_eq!(dest, "https://d/");
            assert_eq!(audits.len(), 1);
            assert_eq!(audits[0].kind, "auth.login");
            assert!(!clear_invite);
        }
        _ => panic!("the sign-in did not finish"),
    }
}

#[test]
fn a_forged_or_uninvited_sign_in_is_refused() {
    let cfg = config();
    let mut s = sign_in();
    s.query_state = "other".into();
    match s.next(&cfg) {
        SignInStep::Refuse { reply, .. } => assert_eq!(reply.status, 403),
        _ => panic!("a forged callback went on"),
    }
    let mut s = sign_in();
    s.token = Some(TokenExchange::Answered { access_token: None });
    assert!(matches!(s.next(&cfg), SignInStep::Refuse { .. }));
    s.token = Some(TokenExchange::Unreachable);
    assert!(matches!(s.next(&cfg), SignInStep::Refuse { .. }));
    s.token = Some(TokenExchange::Unreadable);
    assert!(matches!(s.next(&cfg), SignInStep::Refuse { .. }));
    s.token = Some(TokenExchange::Answered { access_token: Some("at".into()) });
    s.profile = Some(ProfileFetch::Login("eve".into()));
    match s.next(&cfg) {
        SignInStep::Refuse { reply, .. } => assert_eq!(reply.status, 401),
        _ => panic!("a stranger went on"),
    }
    s.profile = Some(ProfileFetch::Login("ada".into()));
    s.user_count = Some(5);
    s.seat_cap = Some(5);
    s.upsert = Some(UpsertOutcome::Done(SeatedUpsert::SeatCapReached));
    match s.next(&cfg) {
        SignInStep::Refuse { reply, audit } => {
            assert_eq!(reply.status, 403);
            assert_eq!(audit.unwrap().detail.as_deref(), Some("limit=5"));
        }
        _ => panic!("a full house let a user in"),
    }
}

#[test]
fn seats_are_counted() {
    assert!(matches!(decide_seat(true, 9, 1), SeatDecision::Touch));
    assert!(matches!(decide_seat(false, 1, 2), SeatDecision::Insert));
    assert!(matches!(decide_seat(false, 2, 2), SeatDecision::Full));
    assert_eq!(created_at_on_contact(0, 7), 7);
    assert_eq!(created_at_on_contact(3, 7), 3);
}

fn listed(login: &str, role: &str) -> UserListRow {
    UserListRow { login: login.into(), role: role.into(), totp_enabled: 0, created_at: 0, last_login_at: 0 }
}

#[test]
fn the_last_admin_stays() {
    let users = [listed("ada", "admin"), listed("grace", "viewer")];
    assert_eq!(count_admins(&users), 1);
    assert!(check_set_role("viewer", Some(&users), Some("admin")).is_some());
    assert!(check_set_role("admin", Some(&users), Some("viewer")).is_none());
    assert_eq!(check_set_role("king", Some(&users), Some("viewer")).unwrap().status, 400);
    assert!(check_delete("ada", "ada", Some(&users), Some("admin")).is_some());
    assert!(check_delete("ada", "grace", Some(&users), Some("viewer")).is_none());
    assert!(check_delete("grace", "ada", Some(&users), Some("admin")).is_some());
    assert_eq!(set_role_done(Change::NoSuchUser, "ada", "x", "admin").0.status, 404);
    assert!(set_role_done(Change::Done, "ada", "x", "admin").1.is_some());
    assert_eq!(delete_done(Change::Failed, "ada", "x").0.status, 500);
}

#[test]
fn tokens_are_listed_by_last_contact_and_shortened() {
    let info = |created_at: u64, last_seen: u64| TokenInfo { created_at, hostname: None, last_seen };
    let tokens = [
        ("abcdefghijklmnop".to_string(), info(1, 10)),
        ("short".to_string(), info(2, 30)),
        ("qrstuvwxyzabcdef".to_string(), info(3, 20)),
    ];
    let rows = list_rows(&tokens);
    let seen: Vec<u64> = rows.iter().map(|r| r.last_seen).collect();
    assert_eq!(seen, vec![30, 20, 10]);
    assert_ne!(preview("abcdefghijklmnop"), "abcdefghijklmnop");
    assert_eq!(revoke_reply(true).status, 200);
    assert_eq!(revoke_reply(false).status, 404);
}

#[test]
fn passkeys_need_the_sidecar() {
    assert_eq!(sidecar_endpoint(Some("https://ee/"), "/x"), Some("https://ee/x".to_string()));
    assert_eq!(sidecar_endpoint(None, "/x"), None);
    assert!(offer_passkey(true, Some(1)));
    assert!(!offer_passkey(true, Some(0)));
    assert!(!offer_passkey(false, Some(1)));
    assert!(matches!(
        finish("ada", "admin", &AssertionCheck::Verified),
        PasskeyOutcome::Issue { role: Role::Admin, .. }
    ));
    assert!(matches!(finish("ada", "admin", &AssertionCheck::Unreachable), PasskeyOutcome::Refuse { .. }));
    assert!(login_finish(None, &UserLookup::Absent).is_err());
    assert!(login_finish(
        Some(&claims("ada", "admin", true)),
        &UserLookup::Found(user("ada", "admin"))
    )
    .is_ok());
}

#[test]
fn pages_of_the_dashboard_may_connect() {
    let allowed = ws_allowed_origins(Some("https://D.example.com:8443/x"), Some(" https://o , "));
    assert_eq!(allowed, vec!["https://d.example.com:8443".to_string(), "https://o".to_string()]);
    assert!(origin_allowed(&allowed, Some("HTTPS://d.example.com:8443")));
    assert!(!origin_allowed(&allowed, Some("https://evil")));
    assert!(!origin_allowed(&allowed, None));
}

#[test]
fn agents_are_let_in_by_token() {
    assert_eq!(bearer_token(Some("Bearer  abc ")), Some("abc".to_string()));
    assert_eq!(bearer_token(Some("bearer x")), Some("x".to_string()));
    assert_eq!(bearer_token(Some("Basic x")), None);
    assert_eq!(bearer_token(Some("Bearer   ")), None);
    assert!(admit_agent(Some("s"), "s", false).is_ok());
    assert!(admit_agent(Some("t"), "s", true).is_ok());
    assert_eq!(admit_agent(Some("t"), "s", false).unwrap_err().status, 401);
    assert_eq!(admit_agent(Some(""), "", false).unwrap_err().status, 401);
    assert!(admit_agent(None, "s", true).is_err());
}

#[test]
fn a_token_serves_one_host() {
    assert!(check_binding(false, None, "web").is_none());
    assert!(check_binding(false, Some("web"), "web").is_none());
    assert!(check_binding(true, Some("web"), "db").is_none());
    assert!(check_binding(false, Some(""), "db").is_none());
    let audit = check_binding(false, Some("web"), "db").unwrap();
    assert!(!audit.ok);
    assert_eq!(audit.detail.as_deref(), Some("token bound to 'web', got 'db'"));
}

#[test]
fn users_are_let_in_at_the_websocket() {
    let c = claims("ada", "admin", true);
    assert_eq!(admit_user(false, true, Some(&c)), Ok(("ada".to_string(), Role::Admin)));
    assert_eq!(admit_user(true, false, None), Ok(("dev".to_string(), Role::Admin)));
    assert_eq!(admit_user(false, false, Some(&c)).unwrap_err().body, "origin");
    assert_eq!(admit_user(false, true, None).unwrap_err().status, 401);
    let pending = claims("ada", "admin", false);
    assert_eq!(admit_user(false, true, Some(&pending)).unwrap_err().body, "MFA required");
}

#[test]
fn a_user_sees_the_stored_role() {
    let c = claims("ada", "admin", true);
    let row = user("ada", "viewer");
    let m = me(false, Some(&c), Some(&row)).unwrap();
    assert_eq!((m.user.as_str(), m.role.as_str(), m.mfa_enabled, m.mfa_verified), ("ada", "viewer", false, true));
    assert_eq!(me(false, Some(&c), None).unwrap().role, "admin");
    assert_eq!(me(false, None, None).unwrap_err().status, 401);
    assert_eq!(me(true, None, None).unwrap().user, "dev");
}

#[test]
fn switches_of_the_server() {
    assert!(backups_enabled("TRUE"));
    assert!(!backups_enabled(" true"));
    assert!(!backups_enabled(""));
    assert_eq!(realert_secs(None), Some(3600));
    assert_eq!(realert_secs(Some("60")), Some(60));
    assert_eq!(realert_secs(Some("x")), Some(3600));
    assert_eq!(realert_secs(Some("0")), None);
    assert_eq!(realert_secs(Some("-5")), None);
}

#[test]
fn users_are_sent_to_sign_in() {
    let mut s = LoginSettings {
        ee_active: false,
        oidc_issuer: Some("https://idp".into()),
        ee_public_url: None,
        ui_url: Some("https://d/".into()),
        github_client_id: Some("cid".into()),
        oauth_redirect_url: Some("https://d/auth/callback".into()),
    };
    assert_eq!(
        login_url_with(&s, "a b"),
        "https://github.com/login/oauth/authorize?client_id=cid&redirect_uri=https%3A%2F%2Fd%2Fauth%2Fcallback&state=a%20b&scope=read:user"
    );
    let (url, state) = login_url(&s);
    let state = state.unwrap();
    assert_eq!(state.len(), 48);
    assert_eq!(url, login_url_with(&s, &state));
    s.ee_active = true;
    s.ee_public_url = Some("https://ee//".into());
    assert_eq!(
        login_url(&s),
        ("https://ee/auth/sso/login?redirect_uri=https%3A%2F%2Fd%2F".to_string(), None)
    );
    assert_eq!(logout_url(Some("https://d/")), "https://d/login");
    assert_eq!(logout_url(None), "https://dashboard.example.com/login");
}
