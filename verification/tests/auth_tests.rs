use rginx_control::auth::{
    bootstrap_admin_account, check_login, check_node_agent_claims, generate_id, generate_random_token, hash_password,
    hash_password_with_salt, hash_session_token, issue_node_agent_token, logout_outcome,
    node_agent_claims, plan_bootstrap_admin, session_lookup_hash, sign_payload, split_fields,
    user_exists_error, validate_login_request, validate_new_user, verify_node_agent_token,
    verify_password_hash, verify_signed_payload, BootstrapAdminPlan, ExistingAdmin, LoginCheck,
    NodeAgentTokenClaims, StoredCredentials,
};
use rginx_control::error::ServiceError;
use rginx_control::service::ControlPlaneAuthConfig;
use rginx_control::store::BootstrapAdminConfig;

fn config(secret: &str) -> Option<ControlPlaneAuthConfig> {
    Some(ControlPlaneAuthConfig {
        session_secret: secret.to_string(),
        session_ttl_secs: 3600,
    })
}

fn internal_message(e: ServiceError) -> String {
    match e {
        ServiceError::Internal(m) => m,
        other => panic!("expected an internal error, got {other:?}"),
    }
}

#[test]
fn password_hash_roundtrip_matches_bootstrap_verifier() {
    let password_hash = hash_password("admin").expect("password hash should be generated");
    assert!(verify_password_hash(&password_hash, "admin").expect("password hash should be verified"));
    assert!(
        !verify_password_hash(&password_hash, "change-me-now")
            .expect("password hash should reject wrong passwords")
    );
}

#[test]
fn password_hash_has_the_stored_layout() {
    let hash = hash_password_with_salt(&[7u8; 16], "secret-password");
    let parts: Vec<&str> = hash.split('$').collect();
    assert_eq!(parts.len(), 4);
    assert_eq!(parts[0], "pbkdf2_sha256");
    assert_eq!(parts[1], "100000");
    assert_eq!(parts[2], "BwcHBwcHBwcHBwcHBwcHBw");
    assert_eq!(parts[3].len(), 43);
    assert_eq!(hash, hash_password_with_salt(&[7u8; 16], "secret-password"));
    assert!(verify_password_hash(&hash, "secret-password").unwrap());
}

#[test]
fn verify_password_reports_unusable_hashes() {
    assert_eq!(verify_password_hash("pbkdf2_sha256$1$abc", "x").unwrap_err(), "stored password hash is malformed");
    assert_eq!(
        verify_password_hash("bcrypt$1$a$b", "x").unwrap_err(),
        "unsupported password scheme `bcrypt`"
    );
    assert_eq!(
        verify_password_hash("pbkdf2_sha256$ten$a$b", "x").unwrap_err(),
        "stored password hash has invalid iteration count"
    );
    assert_eq!(
        verify_password_hash("pbkdf2_sha256$0$a$b", "x").unwrap_err(),
        "iteration count should be non-zero"
    );
    assert_eq!(
        verify_password_hash("pbkdf2_sha256$1$!!$AAAA", "x").unwrap_err(),
        "stored password hash has invalid salt encoding"
    );
    assert_eq!(
        verify_password_hash("pbkdf2_sha256$1$AAAA$=", "x").unwrap_err(),
        "stored password hash has invalid hash encoding"
    );
    assert_eq!(verify_password_hash("pbkdf2_sha256$1$AAAA$", "x"), Ok(false));
}

#[test]
fn split_fields_keeps_empty_pieces() {
    assert_eq!(split_fields("a$$b$", '$'), vec!["a", "", "b", ""]);
    assert_eq!(split_fields("", '$'), vec![""]);
}

#[test]
fn session_token_hash_depends_on_secret_and_token() {
    let a = hash_session_token(&config("s1"), "tok").unwrap();
    let b = hash_session_token(&config("s2"), "tok").unwrap();
    let c = hash_session_token(&config("s1"), "tok2").unwrap();
    assert_eq!(a.len(), 43);
    assert_ne!(a, b);
    assert_ne!(a, c);
    assert_eq!(a, hash_session_token(&config("s1"), "tok").unwrap());
    assert_eq!(
        internal_message(hash_session_token(&None, "tok").unwrap_err()),
        "auth service is not configured"
    );
}

#[test]
fn session_lookup_trims_and_refuses_blank_tokens() {
    assert!(matches!(session_lookup_hash(&config("s"), "   "), Err(ServiceError::Unauthorized)));
    assert_eq!(
        session_lookup_hash(&config("s"), "  tok \n").unwrap(),
        hash_session_token(&config("s"), "tok").unwrap()
    );
}

#[test]
fn signed_payload_verifies_under_the_same_secret_and_scope() {
    let token = sign_payload(&config("secret"), "scope", b"{\"a\":1}").unwrap();
    assert_eq!(verify_signed_payload(&config("secret"), "scope", &token).unwrap(), b"{\"a\":1}".to_vec());
    assert!(matches!(verify_signed_payload(&config("other"), "scope", &token), Err(ServiceError::Unauthorized)));
    assert!(matches!(verify_signed_payload(&config("secret"), "other", &token), Err(ServiceError::Unauthorized)));
    assert!(matches!(verify_signed_payload(&config("secret"), "scope", "no-dot"), Err(ServiceError::Unauthorized)));
    assert!(matches!(verify_signed_payload(&config("secret"), "scope", "!!.AAAA"), Err(ServiceError::Unauthorized)));
    assert_eq!(
        internal_message(verify_signed_payload(&None, "scope", &token).unwrap_err()),
        "auth service is not configured"
    );
    assert!(matches!(verify_signed_payload(&None, "scope", "no-dot"), Err(ServiceError::Unauthorized)));
}

#[test]
fn node_agent_tokens_round_trip() {
    let issued = issue_node_agent_token(&config("secret"), b"claims", 99).unwrap();
    assert_eq!(issued.expires_at_unix_ms, 99);
    assert!(issued.token.starts_with("Y2xhaW1z."));
    assert_eq!(verify_node_agent_token(&config("secret"), &issued.token).unwrap(), b"claims".to_vec());
}

#[test]
fn node_agent_claims_are_trimmed_and_checked() {
    let claims = node_agent_claims(" edge-1 ", " c1 ", 1_000).unwrap();
    assert_eq!(claims.node_id, "edge-1");
    assert_eq!(claims.cluster_id, "c1");
    assert_eq!(claims.expires_at_unix_ms, 1_000);
    assert_eq!(node_agent_claims("n", "c", -5).unwrap().expires_at_unix_ms, u64::MAX);
    assert!(matches!(
        node_agent_claims(" ", "c", 0),
        Err(ServiceError::BadRequest(m)) if m == "node_id and cluster_id should not be empty"
    ));
    let agent = check_node_agent_claims(
        NodeAgentTokenClaims { node_id: "n".to_string(), cluster_id: "c".to_string(), expires_at_unix_ms: 10 },
        9,
    )
    .unwrap();
    assert_eq!(agent.node_id, "n");
    assert!(matches!(
        check_node_agent_claims(
            NodeAgentTokenClaims { node_id: "n".to_string(), cluster_id: "c".to_string(), expires_at_unix_ms: 10 },
            10,
        ),
        Err(ServiceError::Unauthorized)
    ));
    assert!(matches!(
        check_node_agent_claims(
            NodeAgentTokenClaims { node_id: "n".to_string(), cluster_id: " ".to_string(), expires_at_unix_ms: 10 },
            0,
        ),
        Err(ServiceError::Unauthorized)
    ));
}

#[test]
fn random_tokens_and_ids_have_their_shape() {
    let token = generate_random_token(32).unwrap();
    assert_eq!(token.len(), 43);
    let id = generate_id("sess").unwrap();
    assert!(id.starts_with("sess_"));
    assert_eq!(id.len(), 5 + 16);
}

#[test]
fn login_and_user_checks_follow_the_service() {
    assert!(matches!(
        validate_login_request(" ", "pw"),
        Err(ServiceError::BadRequest(m)) if m == "username and password should not be empty"
    ));
    assert!(validate_login_request("admin", "pw").is_ok());
    let hash = hash_password_with_salt(&[1u8; 16], "right-password");
    let stored = Some(StoredCredentials { active: true, password_hash: hash.clone() });
    assert_eq!(check_login(&stored, "right-password").unwrap(), LoginCheck::Accepted);
    assert_eq!(check_login(&stored, "wrong-password").unwrap(), LoginCheck::PasswordMismatch);
    assert_eq!(check_login(&None, "x").unwrap(), LoginCheck::UnknownOrInactive);
    let inactive = Some(StoredCredentials { active: false, password_hash: hash });
    assert_eq!(check_login(&inactive, "right-password").unwrap(), LoginCheck::UnknownOrInactive);
    assert_eq!(LoginCheck::PasswordMismatch.failure_reason(), Some("password mismatch"));
    assert!(matches!(
        validate_new_user("u", "d", "short"),
        Err(ServiceError::BadRequest(m)) if m == "password should be at least 10 characters"
    ));
    assert!(matches!(
        validate_new_user("u", " ", "long-enough-password"),
        Err(ServiceError::BadRequest(m)) if m == "display_name should not be empty"
    ));
    assert!(validate_new_user("u", "d", "long-enough-password").is_ok());
    assert!(matches!(user_exists_error(" bob "), ServiceError::Conflict(m) if m == "user `bob` already exists"));
    assert!(logout_outcome(true).is_ok());
    assert!(matches!(
        logout_outcome(false),
        Err(ServiceError::Conflict(m)) if m == "session already revoked or not found"
    ));
}

#[test]
fn bootstrap_admin_plan_keeps_a_matching_hash() {
    let admin = BootstrapAdminConfig {
        username: "admin".to_string(),
        password: "admin-password".to_string(),
        display_name: "Local Admin".to_string(),
    };
    assert_eq!(
        plan_bootstrap_admin(&None, &admin).unwrap(),
        BootstrapAdminPlan { write_account: true, keep_password_hash: false, record_seed_audit: true }
    );
    let current = ExistingAdmin {
        username: "admin".to_string(),
        display_name: "Local Admin".to_string(),
        password_hash: hash_password_with_salt(&[2u8; 16], "admin-password"),
        is_active: true,
    };
    assert_eq!(
        plan_bootstrap_admin(&Some(current.clone()), &admin).unwrap(),
        BootstrapAdminPlan { write_account: false, keep_password_hash: true, record_seed_audit: false }
    );
    let renamed = ExistingAdmin { display_name: "Old".to_string(), ..current.clone() };
    assert_eq!(
        plan_bootstrap_admin(&Some(renamed), &admin).unwrap(),
        BootstrapAdminPlan { write_account: true, keep_password_hash: true, record_seed_audit: false }
    );
    let broken = ExistingAdmin { password_hash: "x".to_string(), ..current };
    assert_eq!(
        plan_bootstrap_admin(&Some(broken), &admin).unwrap_err(),
        "failed to verify bootstrap admin password hash"
    );
}

#[test]
fn bootstrap_admin_converges_after_one_run() {
    let admin = BootstrapAdminConfig {
        username: "admin".to_string(),
        password: "change-me-now".to_string(),
        display_name: "Local Admin".to_string(),
    };
    let fresh = hash_password_with_salt(&[7u8; 16], "change-me-now");
    let first = plan_bootstrap_admin(&None, &admin).unwrap();
    let stored = bootstrap_admin_account(&None, &admin, first, &fresh).expect("the account is written");
    assert_eq!(stored.username, "admin");
    assert_eq!(stored.display_name, "Local Admin");
    assert!(stored.is_active);
    assert_eq!(verify_password_hash(&stored.password_hash, "change-me-now"), Ok(true));

    let second = plan_bootstrap_admin(&Some(stored.clone()), &admin).unwrap();
    assert_eq!(second, BootstrapAdminPlan { write_account: false, keep_password_hash: true, record_seed_audit: false });
    let again = bootstrap_admin_account(&Some(stored.clone()), &admin, second, "unused").unwrap();
    assert_eq!(again.password_hash, stored.password_hash);
    assert_eq!(again.username, stored.username);

    let renamed = ExistingAdmin { display_name: "Old".to_string(), is_active: false, ..stored.clone() };
    let plan = plan_bootstrap_admin(&Some(renamed.clone()), &admin).unwrap();
    let fixed = bootstrap_admin_account(&Some(renamed), &admin, plan, "unused").unwrap();
    assert_eq!(fixed.display_name, "Local Admin");
    assert!(fixed.is_active);
    assert_eq!(fixed.password_hash, stored.password_hash);
}

#[test]
fn minted_claims_are_accepted_until_they_expire() {
    let claims = node_agent_claims(" edge-1 ", " c1 ", 5_000).unwrap();
    let agent = check_node_agent_claims(claims.clone(), 4_999).expect("claims should be accepted before expiry");
    assert_eq!(agent.node_id, "edge-1");
    assert_eq!(agent.cluster_id, "c1");
    assert_eq!(agent.expires_at_unix_ms, 5_000);
    assert!(matches!(check_node_agent_claims(claims, 5_000), Err(ServiceError::Unauthorized)));
}
