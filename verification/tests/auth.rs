use chloe_bot::webserver::routes::oauth::auth::{
    auth_step, convert_vector_to_string, create_token_params, expiry_timestamp_at, get_times_stamp,
    should_delete_user, state_matches, AuthAction, AuthEvent, AuthStage, QueryAuth,
};
use chloe_bot::webserver::server::{authorize_redirect_url, generate_state};

#[test]
fn test_create_token_params() {
    let client_id = String::from("test");
    let client_secret = String::from("test");
    let code = String::from("test");
    let params = create_token_params(&client_id, &client_secret, &code);
    assert_eq!(params[0].0, "client_id");
    assert_eq!(params[0].1, "test");
    assert_eq!(params[1].0, "client_secret");
    assert_eq!(params[1].1, "test");
    assert_eq!(params[2].0, "code");
    assert_eq!(params[2].1, "test");
    assert_eq!(params[3].0, "grant_type");
    assert_eq!(params[3].1, "authorization_code");
    assert_eq!(params[4].0, "redirect_uri");
    assert_eq!(params[4].1, "https://localhost:8080/auth");
}

#[test]
fn test_convert_vector_to_string() {
    let vec = vec!["test1".to_string(), "test2".to_string()];
    let string = convert_vector_to_string(vec);
    assert_eq!(string, "test1,test2");
}

#[test]
fn convert_vector_edge_cases() {
    assert_eq!(convert_vector_to_string(vec![]), "");
    assert_eq!(convert_vector_to_string(vec!["a".to_string()]), "a");
    assert_eq!(convert_vector_to_string(vec!["".to_string(), "".to_string()]), ",");
}

#[test]
fn token_params_carry_arguments() {
    let params = create_token_params(&"id".to_string(), &"secret".to_string(), &"c0de".to_string());
    assert_eq!(params[0].1, "id");
    assert_eq!(params[1].1, "secret");
    assert_eq!(params[2].1, "c0de");
}

#[test]
fn expiry_is_sum_cut_to_32_bits() {
    assert_eq!(expiry_timestamp_at(1_700_000_000, 3600), 1_700_003_600);
    assert_eq!(expiry_timestamp_at(i32::MAX as i64, 1), i32::MIN);
    let t = get_times_stamp(0).unwrap();
    assert!(t > 1_600_000_000);
    assert!(get_times_stamp(i64::MAX).is_none());
}

#[test]
fn state_check() {
    assert!(state_matches(Some("abc"), "abc"));
    assert!(!state_matches(Some("abc"), "abd"));
    assert!(!state_matches(None, "abc"));
}

#[test]
fn delete_user_only_on_unauthorized() {
    assert!(should_delete_user(Some(401)));
    assert!(!should_delete_user(Some(500)));
    assert!(!should_delete_user(None));
}

fn query(state: &str) -> QueryAuth {
    QueryAuth { state: state.to_string(), code: "code".to_string(), scope: "scope".to_string() }
}

fn respond(action: AuthAction) -> (u16, String) {
    match action {
        AuthAction::Respond { status, body } => (status, body),
        _ => panic!("expected a response"),
    }
}

#[test]
fn login_flow_success() {
    let (s, a) = auth_step(
        AuthStage::AwaitingRequest,
        &AuthEvent::Request { cookie_state: Some("xyz".to_string()), query: query("xyz") },
    );
    assert_eq!(s, AuthStage::AwaitingToken);
    assert!(matches!(a, AuthAction::FetchToken));
    let (s, a) = auth_step(s, &AuthEvent::TokenFetched { ok: true });
    assert_eq!(s, AuthStage::AwaitingValidation);
    assert!(matches!(a, AuthAction::ValidateToken));
    let (s, a) = auth_step(s, &AuthEvent::TokenValidated { ok: true });
    assert_eq!(s, AuthStage::AwaitingStore);
    assert!(matches!(a, AuthAction::StoreUser));
    let (s, a) = auth_step(s, &AuthEvent::UserStored { ok: true });
    assert_eq!(s, AuthStage::AwaitingRevoke);
    assert!(matches!(a, AuthAction::RevokeOldToken));
    let (s, a) = auth_step(s, &AuthEvent::TokenRevoked);
    assert_eq!(s, AuthStage::Done);
    assert_eq!(respond(a), (200, "Hello".to_string()));
}

#[test]
fn login_flow_failures() {
    let (s, a) = auth_step(
        AuthStage::AwaitingRequest,
        &AuthEvent::Request { cookie_state: None, query: query("xyz") },
    );
    assert_eq!(s, AuthStage::Done);
    assert_eq!(respond(a), (400, "Invalid State".to_string()));
    let (s, a) = auth_step(
        AuthStage::AwaitingRequest,
        &AuthEvent::Request { cookie_state: Some("abc".to_string()), query: query("xyz") },
    );
    assert_eq!(s, AuthStage::Done);
    assert_eq!(respond(a), (400, "Invalid State".to_string()));
    let (_, a) = auth_step(AuthStage::AwaitingToken, &AuthEvent::TokenFetched { ok: false });
    assert_eq!(respond(a), (500, "Error getting token".to_string()));
    let (_, a) = auth_step(AuthStage::AwaitingValidation, &AuthEvent::TokenValidated { ok: false });
    assert_eq!(respond(a), (500, "Error validating token".to_string()));
    let (_, a) = auth_step(AuthStage::AwaitingStore, &AuthEvent::UserStored { ok: false });
    assert_eq!(respond(a), (500, "Unexpected Error. Please try again later.".to_string()));
}

#[test]
fn generated_state_is_32_alphanumerics() {
    let a = generate_state();
    let b = generate_state();
    assert_eq!(a.chars().count(), 32);
    assert!(a.chars().all(|c| c.is_ascii_alphanumeric()));
    assert_ne!(a, b);
}

#[test]
fn redirect_url_ends_with_state() {
    let url = authorize_redirect_url("abc123");
    assert_eq!(
        url,
        "https://id.twitch.tv/oauth2/authorize?response_type=code&client_id=9wexo28wfkm476ztq18vafo6xio5la&redirect_uri=https://localhost:8080/auth&scope=moderator:manage:chat_messages&state=abc123"
    );
}

#[test]
fn splitting_the_scope_text_gives_the_scopes_back() {
    let scopes = vec!["chat:read".to_string(), "moderator:manage:chat_messages".to_string()];
    let joined = convert_vector_to_string(scopes.clone());
    let back: Vec<String> = joined.split(',').map(String::from).collect();
    assert_eq!(back, scopes);
}
