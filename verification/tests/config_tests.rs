use email_mcp::config::{Account, AppState, PendingAuth, Provider};

fn account(id: &str, provider: Provider, token: Option<&str>) -> Account {
    Account {
        id: id.to_string(),
        provider,
        email: Some(format!("{id}@example.com")),
        client_id: "cid".to_string(),
        client_secret: None,
        access_token: token.map(|t| t.to_string()),
        refresh_token: None,
        expires_at: None,
        icloud_password: None,
    }
}

fn pending(id: &str, verifier: &str) -> PendingAuth {
    PendingAuth {
        account_id: id.to_string(),
        code_verifier: verifier.to_string(),
        redirect_uri: "http://127.0.0.1:1/callback".to_string(),
        provider: Provider::Gmail,
        client_id: "cid".to_string(),
        client_secret: None,
    }
}

#[test]
fn upsert_then_get_returns_account() {
    let mut s = AppState::new("/tmp/cfg".to_string(), vec![]);
    s.upsert_account(account("work", Provider::Gmail, Some("t1")));
    let got = s.get_account("work").unwrap();
    assert_eq!(got.id, "work");
    assert_eq!(got.access_token.as_deref(), Some("t1"));
    assert!(s.get_account("home").is_none());
}

#[test]
fn upsert_replaces_in_place() {
    let mut s = AppState::new(String::new(), vec![]);
    s.upsert_account(account("a", Provider::Gmail, Some("1")));
    s.upsert_account(account("b", Provider::Outlook, Some("2")));
    s.upsert_account(account("a", Provider::Gmail, Some("3")));
    let all = s.load_accounts();
    assert_eq!(all.len(), 2);
    assert_eq!(all[0].id, "a");
    assert_eq!(all[0].access_token.as_deref(), Some("3"));
    assert_eq!(all[1].id, "b");
}

#[test]
fn upsert_twice_is_same_as_once() {
    let mut s = AppState::new(String::new(), vec![]);
    s.upsert_account(account("a", Provider::Gmail, Some("1")));
    s.upsert_account(account("a", Provider::Gmail, Some("1")));
    assert_eq!(s.load_accounts().len(), 1);
}

#[test]
fn remove_reports_whether_present() {
    let mut s = AppState::new(String::new(), vec![]);
    s.upsert_account(account("a", Provider::Gmail, None));
    s.upsert_account(account("b", Provider::Gmail, None));
    assert!(s.remove_account("a"));
    assert!(s.get_account("a").is_none());
    assert!(s.get_account("b").is_some());
    assert!(!s.remove_account("a"));
    assert_eq!(s.load_accounts().len(), 1);
}

#[test]
fn remove_drops_every_duplicate_and_get_finds_first() {
    let mut s = AppState::new(
        String::new(),
        vec![
            account("x", Provider::Gmail, Some("first")),
            account("x", Provider::Gmail, Some("second")),
            account("y", Provider::Outlook, None),
        ],
    );
    assert_eq!(s.get_account("x").unwrap().access_token.as_deref(), Some("first"));
    assert!(s.remove_account("x"));
    let all = s.load_accounts();
    assert_eq!(all.len(), 1);
    assert_eq!(all[0].id, "y");
}

#[test]
fn accounts_path_joins_like_path_join() {
    assert_eq!(AppState::new("/home/u/.config/email-mcp".into(), vec![]).accounts_path(), "/home/u/.config/email-mcp/accounts.json");
    assert_eq!(AppState::new("/cfg/".into(), vec![]).accounts_path(), "/cfg/accounts.json");
    assert_eq!(AppState::new("".into(), vec![]).accounts_path(), "accounts.json");
}

#[test]
fn pending_auth_insert_replaces_and_take_removes() {
    let mut s = AppState::new(String::new(), vec![]);
    s.insert_pending_auth(pending("w", "v1"));
    s.insert_pending_auth(pending("h", "v2"));
    s.insert_pending_auth(pending("w", "v3"));
    assert_eq!(s.pending_account_ids(), vec!["w".to_string(), "h".to_string()]);
    let p = s.take_pending_auth("w").unwrap();
    assert_eq!(p.code_verifier, "v3");
    assert!(s.take_pending_auth("w").is_none());
    assert_eq!(s.pending_account_ids(), vec!["h".to_string()]);
}

#[test]
fn provider_names() {
    assert_eq!(Provider::Gmail.as_str(), "gmail");
    assert_eq!(Provider::Outlook.to_string(), "outlook");
    assert_eq!(Provider::ICloud.as_str(), "icloud");
}
