use copilot_client::gh::{
    AuthStep, AuthenticationManager, GitHubDeviceLoginResponse, GitHubDeviceTokenResponse,
    GithubCopilotAuth, GithubUserData, PollError,
};

const LOGIN: &str = "{\"device_code\":\"dc-1\",\"user_code\":\"ABCD-1234\",\"verification_uri\":\"https://github.com/login/device\",\"expires_in\":899,\"interval\":5}";

const TOKEN: &str = "{\"access_token\":\"gho_abc\",\"token_type\":\"bearer\",\"scope\":\"read:user\"}";

const PENDING: &str = "{\"error\":\"authorization_pending\",\"error_description\":\"The authorization request is still pending.\"}";

const USER: &str = "{\"login\":\"octocat\",\"id\":583231,\"node_id\":\"MDQ6\",\"avatar_url\":\"https://a\",\"gravatar_id\":\"\",\"url\":\"https://u\",\"html_url\":\"https://h\",\"followers_url\":\"f\",\"following_url\":\"g\",\"gists_url\":\"i\",\"starred_url\":\"s\",\"subscriptions_url\":\"t\",\"organizations_url\":\"o\",\"repos_url\":\"r\",\"events_url\":\"e\",\"received_events_url\":\"v\",\"type\":\"User\",\"site_admin\":false,\"name\":\"The Octocat\",\"company\":\"@github\",\"blog\":\"https://github.blog\",\"location\":\"San Francisco\",\"email\":null,\"hireable\":true,\"bio\":\"\",\"public_repos\":8,\"public_gists\":7,\"followers\":100,\"following\":9,\"created_at\":\"2011-01-25T18:44:36Z\",\"updated_at\":\"2024-01-22T11:21:13Z\"}";

const SESSION: &str = "{\"annotations_enabled\":true,\"chat_enabled\":true,\"chat_jetbrains_enabled\":false,\"code_quote_enabled\":true,\"copilot_ide_agent_chat_gpt4_small_prompt\":false,\"copilotignore_enabled\":false,\"expires_at\":1700001800,\"intellij_editor_fetcher\":false,\"prompt_8k\":true,\"public_suggestions\":\"disabled\",\"refresh_in\":1500,\"sku\":\"monthly_subscriber\",\"snippy_load_test_enabled\":false,\"telemetry\":\"disabled\",\"token\":\"tid=abc\",\"tracking_id\":\"t-1\",\"vsc_electron_fetcher\":false,\"vsc_panel_v2\":true,\"more\":1}";

fn login() -> GitHubDeviceLoginResponse {
    GitHubDeviceLoginResponse::from_json(LOGIN.as_bytes()).expect("a login")
}

#[test]
fn manager_is_made() {
    let _manager = AuthenticationManager::new();
}

#[test]
fn login_answer_is_read() {
    let manager = AuthenticationManager::new();
    let login = manager.request_github_auth(LOGIN.as_bytes()).expect("a login");
    assert_eq!(login.interval, 5);
    assert_eq!(login.user_code, "ABCD-1234");
    assert_eq!(login.expires_in, 899);
    assert_eq!(login.verification_uri, "https://github.com/login/device");
    assert_eq!(login.device_code, "dc-1");
}

#[test]
fn login_answer_of_another_shape_is_an_error() {
    let manager = AuthenticationManager::new();
    let failed = manager.request_github_auth(b"{\"error\":\"slow_down\"}");
    assert_eq!(failed.err(), Some("Failed to request the device login".to_string()));
    let negative = LOGIN.replace("\"interval\":5", "\"interval\":-5");
    assert!(manager.request_github_auth(negative.as_bytes()).is_err());
    let fraction = LOGIN.replace("\"interval\":5", "\"interval\":5.5");
    assert!(manager.request_github_auth(fraction.as_bytes()).is_err());
    let null = LOGIN.replace("\"dc-1\"", "null");
    assert!(manager.request_github_auth(null.as_bytes()).is_err());
    assert!(manager.request_github_auth(b"[]").is_err());
    assert!(manager.request_github_auth(b"").is_err());
}

#[test]
fn login_prompt_names_the_place_and_the_code() {
    let manager = AuthenticationManager::new();
    assert_eq!(
        manager.login_prompt(&login()),
        "Please visit https://github.com/login/device and enter the code ABCD-1234"
    );
}

#[test]
fn poll_yields_the_token() {
    let manager = AuthenticationManager::new();
    let token = manager.check_github_auth(TOKEN.as_bytes()).expect("a token");
    assert_eq!(token.access_token, "gho_abc");
    assert_eq!(token.token_type, "bearer");
    assert_eq!(token.scope, "read:user");
}

#[test]
fn poll_tells_pending_from_malformed() {
    let manager = AuthenticationManager::new();
    assert_eq!(manager.check_github_auth(PENDING.as_bytes()).err(), Some(PollError::Pending));
    assert_eq!(manager.check_github_auth(b"authorization_pending").err(), Some(PollError::Pending));
    let both = TOKEN.replace("read:user", "authorization_pending");
    assert_eq!(manager.check_github_auth(both.as_bytes()).err(), Some(PollError::Pending));
    assert_eq!(
        manager.check_github_auth(b"{\"error\":\"access_denied\"}").err(),
        Some(PollError::Malformed)
    );
    assert_eq!(manager.check_github_auth(b"authorization_pendin").err(), Some(PollError::Malformed));
    assert_eq!(manager.check_github_auth(b"").err(), Some(PollError::Malformed));
}

#[test]
fn next_step_follows_the_poll() {
    let manager = AuthenticationManager::new();
    let login = login();
    match manager.auth(&login, PENDING.as_bytes()) {
        AuthStep::Wait(seconds) => assert_eq!(seconds, 5),
        other => panic!("not a wait: {:?}", other),
    }
    match manager.auth(&login, TOKEN.as_bytes()) {
        AuthStep::Granted(token) => assert_eq!(token.access_token, "gho_abc"),
        other => panic!("not a token: {:?}", other),
    }
    assert!(matches!(manager.auth(&login, b"<html>"), AuthStep::Failed));
}

#[test]
fn profile_is_read() {
    let manager = AuthenticationManager::new();
    let user = manager.gh_get_user(true, USER.as_bytes()).expect("a profile");
    assert_eq!(user.login, "octocat");
    assert_eq!(user.id, 583231);
    assert_eq!(user.type_, "User");
    assert!(!user.site_admin);
    assert_eq!(user.name, "The Octocat");
    assert_eq!(user.company, Some("@github".to_string()));
    assert_eq!(user.email, None);
    assert_eq!(user.hireable, Some(true));
    assert_eq!(user.twitter_username, None);
    assert_eq!(user.public_repos, 8);
    assert_eq!(user.public_gists, 7);
    assert_eq!(user.followers, 100);
    assert_eq!(user.following, 9);
    assert_eq!(user.created_at, "2011-01-25T18:44:36Z");
    assert_eq!(user.updated_at, "2024-01-22T11:21:13Z");
}

#[test]
fn profile_needs_a_good_status_and_the_shape() {
    let manager = AuthenticationManager::new();
    let message = Some("Failed to authenticate with Github".to_string());
    assert_eq!(manager.gh_get_user(false, USER.as_bytes()).err(), message);
    assert_eq!(manager.gh_get_user(true, b"{\"message\":\"Bad credentials\"}").err(), message);
    let no_name = USER.replace("\"name\":\"The Octocat\"", "\"name\":null");
    assert_eq!(manager.gh_get_user(true, no_name.as_bytes()).err(), message);
    let text_flag = USER.replace("\"hireable\":true", "\"hireable\":\"yes\"");
    assert_eq!(manager.gh_get_user(true, text_flag.as_bytes()).err(), message);
    assert!(GithubUserData::from_json(USER.as_bytes()).is_some());
}

#[test]
fn session_token_is_read() {
    let manager = AuthenticationManager::new();
    let session = manager.gh_copilot_authenticate(true, SESSION.as_bytes()).expect("a session token");
    assert!(session.annotations_enabled);
    assert!(session.chat_enabled);
    assert!(!session.chat_jetbrains_enabled);
    assert_eq!(session.expires_at, 1700001800);
    assert_eq!(session.refresh_in, 1500);
    assert_eq!(session.public_suggestions, "disabled");
    assert_eq!(session.sku, "monthly_subscriber");
    assert_eq!(session.token, "tid=abc");
    assert_eq!(session.tracking_id, "t-1");
    assert!(session.vsc_panel_v2);
}

#[test]
fn session_token_needs_a_good_status_and_the_shape() {
    let manager = AuthenticationManager::new();
    let message = Some("Failed to authenticate with Github Copilot".to_string());
    assert_eq!(manager.gh_copilot_authenticate(false, SESSION.as_bytes()).err(), message);
    let no_token = SESSION.replace("\"token\":\"tid=abc\",", "");
    assert_eq!(manager.gh_copilot_authenticate(true, no_token.as_bytes()).err(), message);
    assert!(GithubCopilotAuth::from_json(no_token.as_bytes()).is_none());
}

#[test]
fn cached_token_is_a_bearer_token() {
    let manager = AuthenticationManager::new();
    assert!(manager.cache_auth("").is_none());
    let token = manager.cache_auth("gho_cached").expect("a token");
    assert_eq!(token.access_token, "gho_cached");
    assert_eq!(token.token_type, "bearer");
    assert_eq!(token.scope, "");
}

#[test]
fn token_reads_from_its_members_only() {
    assert!(GitHubDeviceTokenResponse::from_json(b"[\"a\",\"b\",\"c\"]").is_none());
    assert!(GitHubDeviceTokenResponse::from_json(b"{\"access_token\":\"a\",\"token_type\":\"b\"}").is_none());
    assert!(GitHubDeviceTokenResponse::from_json(TOKEN.as_bytes()).is_some());
}
