use copilot_client::utils::{
    config_file_path, generate_vscode_session_id, get_config_path, hex_string, push_decimal,
    random_hex_string, session_id,
};

#[test]
fn bytes_are_written_without_a_zero_in_front() {
    assert_eq!(hex_string(&[]), "");
    assert_eq!(hex_string(&[0]), "0");
    assert_eq!(hex_string(&[15]), "f");
    assert_eq!(hex_string(&[16]), "10");
    assert_eq!(hex_string(&[255]), "ff");
    assert_eq!(hex_string(&[0, 1, 10, 16, 171, 255]), "01a10abff");
    for byte in 0..=255u8 {
        assert_eq!(hex_string(&[byte]), format!("{:x}", byte));
    }
}

#[test]
fn random_hex_string_is_made_of_so_many_bytes() {
    assert_eq!(random_hex_string(0), "");
    for _ in 0..50 {
        let text = random_hex_string(6);
        assert!(text.len() >= 6 && text.len() <= 12);
        assert!(text.chars().all(|c| c.is_ascii_digit() || ('a'..='f').contains(&c)));
    }
}

#[test]
fn decimal_is_written_behind_the_text() {
    let mut text = "n=".to_string();
    push_decimal(&mut text, 0);
    assert_eq!(text, "n=0");
    push_decimal(&mut text, 9);
    push_decimal(&mut text, 10);
    push_decimal(&mut text, 1234567890);
    assert_eq!(text, "n=09101234567890");
    let mut max = String::new();
    push_decimal(&mut max, u64::MAX);
    assert_eq!(max, "18446744073709551615");
}

#[test]
fn session_id_is_the_identifier_and_the_time() {
    assert_eq!(session_id("abc", 0), "abc0");
    assert_eq!(session_id("abc", 1700000000123), "abc1700000000123");
    assert_eq!(session_id("", 42), "42");
    assert_eq!(session_id("x", -1), "x-1");
    assert_eq!(session_id("x", i64::MIN), "x-9223372036854775808");
    assert_eq!(session_id("x", i64::MAX), "x9223372036854775807");
}

#[test]
fn fresh_session_id_ends_with_the_time() {
    let id = generate_vscode_session_id();
    assert!(id.len() > 36);
    let (uuid, millis) = id.split_at(36);
    assert_eq!(uuid.matches('-').count(), 4);
    assert!(millis.chars().all(|c| c.is_ascii_digit()));
    assert!(millis.parse::<i64>().expect("a number") > 1_600_000_000_000);
    assert_ne!(generate_vscode_session_id(), id);
}

#[test]
fn configuration_lies_under_the_home_directory() {
    assert_eq!(get_config_path("/home/me"), "/home/me/.config/copilot");
    assert_eq!(config_file_path("/home/me"), "/home/me/.config/copilot/config.json");
    assert_eq!(get_config_path(""), "/.config/copilot");
}
