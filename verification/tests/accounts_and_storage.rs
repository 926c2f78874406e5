use auto_cursor::accounts::{AccountError, AccountInfo, AccountManager, CustomTag};
use auto_cursor::json::{JsonMember, JsonNumber, JsonValue};
use auto_cursor::storage::{
    apply_login_to_storage, auth_type_or_default, switch_account_outcome, switch_target, RestartReport, clear_login_from_storage, email_from_storage,
    email_from_stored_values, logout_outcome, process_token, sqlite_login_keys, switch_with_token_outcome,
    token_fields, StoredValue,
};

fn to_value(v: &serde_json::Value) -> JsonValue {
    match v {
        serde_json::Value::Null => JsonValue::Null,
        serde_json::Value::Bool(b) => JsonValue::Bool(*b),
        serde_json::Value::Number(n) => JsonValue::Number(JsonNumber {
            as_i64: n.as_i64(),
            as_u64: n.as_u64(),
            text: n.to_string(),
        }),
        serde_json::Value::String(s) => JsonValue::Str(s.clone()),
        serde_json::Value::Array(a) => JsonValue::Array(a.iter().map(to_value).collect()),
        serde_json::Value::Object(m) => JsonValue::Object(
            m.iter()
                .map(|(k, v)| JsonMember { key: k.clone(), value: to_value(v) })
                .collect(),
        ),
    }
}

fn json(text: &str) -> JsonValue {
    to_value(&serde_json::from_str::<serde_json::Value>(text).unwrap())
}

fn account(email: &str, token: &str) -> AccountInfo {
    AccountInfo {
        email: email.to_string(),
        token: token.to_string(),
        refresh_token: None,
        workos_cursor_session_token: None,
        is_current: false,
        created_at: "2024-01-01 00:00:00".to_string(),
        is_auto_switch: None,
        custom_tags: None,
    }
}

#[test]
fn adding_accounts() {
    let mut list = Vec::new();
    let r = AccountManager::add_account(&mut list, "a@x.com".to_string(), "t1".to_string(), None, None, "now".to_string());
    assert!(r.is_ok());
    assert_eq!(list.len(), 1);
    assert_eq!(list[0].email, "a@x.com");
    assert!(!list[0].is_current);
    let dup = AccountManager::add_account(&mut list, "a@x.com".to_string(), "t2".to_string(), None, None, "now".to_string());
    assert!(dup == Err(AccountError::AlreadyExists));
    let blank = AccountManager::add_account(&mut list, "   ".to_string(), "t3".to_string(), None, None, "now".to_string());
    assert!(blank == Err(AccountError::EmptyEmail));
    assert_eq!(list.len(), 1);
    assert_eq!(AccountError::AlreadyExists.message(), "Account with this email already exists");
    assert_eq!(AccountError::EmptyEmail.message(), "Cannot add account with empty email");
}

#[test]
fn editing_and_tagging_accounts() {
    let mut list = vec![account("a@x.com", "t1"), account("b@x.com", "t2")];
    assert!(AccountManager::edit_account(&mut list, "b@x.com", None, None, None) == Ok(false));
    assert!(AccountManager::edit_account(&mut list, "b@x.com", Some("t9".to_string()), None, Some("w".to_string())) == Ok(true));
    assert_eq!(list[1].token, "t9");
    assert_eq!(list[1].workos_cursor_session_token, Some("w".to_string()));
    assert!(AccountManager::edit_account(&mut list, "c@x.com", None, None, None) == Err(AccountError::NotFound));
    let tags = vec![CustomTag { text: "vip".to_string(), color: "red".to_string() }];
    assert!(AccountManager::update_custom_tags(&mut list, "a@x.com", tags).is_ok());
    assert_eq!(list[0].custom_tags.as_ref().map(|t| t[0].text.clone()), Some("vip".to_string()));
    assert_eq!(AccountError::NotFound.message(), "Account not found");
}

#[test]
fn removing_accounts() {
    let mut list = vec![account("a@x.com", "t1"), account("b@x.com", "t2"), account("a@x.com", "t3")];
    assert!(AccountManager::remove_account(&mut list, "a@x.com").is_ok());
    assert_eq!(list.len(), 1);
    assert_eq!(list[0].email, "b@x.com");
    assert!(AccountManager::remove_account(&mut list, "a@x.com") == Err(AccountError::NotFound));
    assert_eq!(AccountManager::find_account_by_email(&list, "b@x.com"), Some(0));
    assert_eq!(AccountManager::find_account_by_token(&list, "t2"), Some(0));
}

#[test]
fn current_account_and_list() {
    let list = vec![account("a@x.com", "t1"), account("b@x.com", "t2")];
    let cur = AccountManager::get_current_account(Some("t2".to_string()), Some(&list), None, "now".to_string()).unwrap();
    assert_eq!(cur.email, "b@x.com");
    assert!(cur.is_current);
    let unknown = AccountManager::get_current_account(Some("t9".to_string()), Some(&list), Some("n@x.com".to_string()), "now".to_string()).unwrap();
    assert_eq!(unknown.email, "n@x.com");
    assert_eq!(unknown.token, "t9");
    assert!(AccountManager::get_current_account(None, Some(&list), None, "now".to_string()).is_none());

    let (listed, save) = AccountManager::get_account_list(Ok(list), Some(unknown));
    assert!(listed.success);
    let saved = save.expect("the added account is saved");
    assert_eq!(saved.len(), 3);
    assert_eq!(saved[2].email, "n@x.com");
    assert!(!saved[0].is_current && !saved[1].is_current);
    assert_eq!(listed.accounts.len(), 3);
    assert!(listed.accounts[2].is_current);
    assert!(!listed.accounts[0].is_current);
    assert_eq!(listed.message, "Account list loaded successfully");
}

#[test]
fn token_processing() {
    assert_eq!(process_token("user_01%3A%3Aabc"), "abc");
    assert_eq!(process_token("user_01::abc::def"), "abc");
    assert_eq!(process_token("plain"), "plain");
}

#[test]
fn login_written_then_read_back() {
    let mut data = json(r#"{"other": 1}"#);
    apply_login_to_storage(&mut data, "me@x.com", "user_1%3A%3Atok");
    assert_eq!(data.get_str("cursorAuth/cachedEmail"), Some("me@x.com".to_string()));
    assert_eq!(data.get_str("cursorAuth/accessToken"), Some("tok".to_string()));
    assert_eq!(data.get_str("cursorAuth/refreshToken"), Some("tok".to_string()));
    assert_eq!(data.get_str("cursorAuth/cachedSignUpType"), Some("Auth_0".to_string()));
    assert_eq!(data.get_str("cursor.accessToken"), Some("tok".to_string()));
    assert_eq!(email_from_storage(&data), Some("me@x.com".to_string()));
    assert_eq!(data.get_i64("other"), Some(1));
}

#[test]
fn logout_clears_login() {
    let mut data = json(r#"{"cursorAuth/cachedEmail": "me@x.com", "cursor.email": "me@x.com", "keep": true}"#);
    let removed = clear_login_from_storage(&mut data);
    assert_eq!(removed, 2);
    assert_eq!(data.get_str("cursorAuth/cachedEmail"), None);
    assert_eq!(data.get_bool("keep"), Some(true));
    assert_eq!(email_from_storage(&data), None);
}

#[test]
fn email_found_in_other_fields() {
    let data = json(r#"{"cursorAuth/cachedEmail": "none", "User.Email": "u@x.com"}"#);
    assert_eq!(email_from_storage(&data), Some("u@x.com".to_string()));
    let rows = vec![
        StoredValue { text: "not json".to_string(), parsed: None },
        StoredValue { text: "\"q@x.com\"".to_string(), parsed: Some(json("\"q@x.com\"")) },
    ];
    assert_eq!(email_from_stored_values(&rows), Some("\"q@x.com\"".to_string()));
    let rows2 = vec![StoredValue { text: "{}".to_string(), parsed: Some(json(r#"{"cachedEmail": "c@x.com"}"#)) }];
    assert_eq!(email_from_stored_values(&rows2), Some("c@x.com".to_string()));
}

#[test]
fn sqlite_fields() {
    let f = token_fields("a::b", "Auth_0");
    assert_eq!(f[0], ("cursorAuth/accessToken".to_string(), "b".to_string()));
    assert_eq!(f[3], ("cursorAuth/cachedSignUpType".to_string(), "Auth_0".to_string()));
    assert_eq!(sqlite_login_keys().len(), 6);
    assert_eq!(auth_type_or_default(None), "Auth_0");
}

#[test]
fn switch_and_logout_reports() {
    let ok = switch_with_token_outcome("a@x.com", "Auth_0", Ok(()), Ok(()), Err("disk".to_string()));
    assert!(ok.success);
    assert_eq!(ok.details.len(), 5);
    assert_eq!(ok.details[3], "Warning: Failed to update storage.json: disk");
    assert_eq!(ok.message, "Successfully switched to account: a@x.com");
    let bad = switch_with_token_outcome("a@x.com", "Auth_0", Ok(()), Err("locked".to_string()), Ok(()));
    assert!(!bad.success);
    assert_eq!(bad.message, "Failed to inject token: locked");
    let out = logout_outcome(false, Ok(()), Err("x".to_string()), Ok(()));
    assert!(!out.success);
    assert_eq!(out.message, "Logout completed with some warnings. Please restart Cursor.");
}

#[test]
fn adding_then_removing_restores_the_list() {
    let mut list = vec![account("a@x.com", "t1"), account("b@x.com", "t2")];
    let r = AccountManager::add_account(&mut list, "c@x.com".to_string(), "t3".to_string(), None, None, "now".to_string());
    assert!(r.is_ok());
    assert_eq!(AccountManager::find_account_by_email(&list, "c@x.com"), Some(2));
    assert!(AccountManager::remove_account(&mut list, "c@x.com").is_ok());
    assert_eq!(list.len(), 2);
    assert_eq!(list[0].email, "a@x.com");
    assert_eq!(list[1].email, "b@x.com");
    assert_eq!(AccountManager::find_account_by_email(&list, "c@x.com"), None);
}

#[test]
fn known_current_account_needs_no_save() {
    let list = vec![account("a@x.com", "t1"), account("b@x.com", "t2")];
    let cur = AccountManager::get_current_account(Some("t1".to_string()), Some(&list), None, "now".to_string()).unwrap();
    let (listed, save) = AccountManager::get_account_list(Ok(list), Some(cur));
    assert!(save.is_none());
    assert!(listed.accounts[0].is_current && !listed.accounts[1].is_current);
}

#[test]
fn switching_by_email() {
    let list = vec![account("a@x.com", "t1"), account("b@x.com", "t2")];
    let target = switch_target(Ok(list), "b@x.com").ok().unwrap();
    assert_eq!(target.token, "t2");
    let missing = switch_target(Ok(vec![account("a@x.com", "t1")]), "c@x.com").err().unwrap();
    assert!(!missing.success);
    assert_eq!(missing.message, "Account not found");
    assert_eq!(missing.details, vec!["No account found with email: c@x.com".to_string()]);
    let failed = switch_target(Err("bad json".to_string()), "c@x.com").err().unwrap();
    assert_eq!(failed.message, "Failed to load accounts: bad json");

    let plain = switch_account_outcome("b@x.com", None, Ok(()), Ok(()), Err("locked".to_string()), Ok(Ok(())));
    assert!(plain.success);
    assert_eq!(plain.message, "Successfully switched to account: b@x.com");
    assert_eq!(
        plain.details,
        vec![
            "Switching to account: b@x.com",
            "Skipped Cursor restart (auto-restart disabled)",
            "Successfully injected email to SQLite database",
            "Successfully injected token to SQLite database",
            "Warning: Failed to update storage.json: locked",
            "Successfully injected email update script to Cursor UI",
            "Waited for database updates to complete",
            "Skipped Cursor restart (auto-restart disabled)",
        ]
    );
    let restart = RestartReport { closed: Some(Ok(())), killed: Ok(2), still_running: true, started: Err("no exe".to_string()) };
    let with_restart = switch_account_outcome("b@x.com", Some(restart), Ok(()), Ok(()), Ok(()), Err("none".to_string()));
    assert_eq!(with_restart.details[1], "Gracefully closed Cursor processes");
    assert_eq!(with_restart.details[2], "Force killed 2 remaining Cursor processes");
    assert_eq!(with_restart.details[6], "Warning: Failed to initialize email updater: none");
    assert_eq!(with_restart.details[8], "Warning: Cursor processes still running when attempting restart");
    assert_eq!(with_restart.details[9], "Warning: Failed to restart Cursor: no exe");
    let no_token = switch_account_outcome("b@x.com", None, Err("x".to_string()), Err("denied".to_string()), Ok(()), Ok(Ok(())));
    assert!(!no_token.success);
    assert_eq!(no_token.message, "Failed to inject token: denied");
    assert_eq!(no_token.details.len(), 3);
}
