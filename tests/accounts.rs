use manus_scraper::models::{Account, Me, Token};
use manus_scraper::registry::{account_from, collect_accounts, find_by_username, refresh_account, refresh_all};

fn token(v: &str) -> Token {
    Token { access_token: v.to_string(), expires_in: 3600, token_type: "bearer".to_string() }
}

fn me(site: &str) -> Me {
    Me {
        employee_id: "17".to_string(),
        username: "u".to_string(),
        full_name: "A Person".to_string(),
        node_id: "5".to_string(),
        node_code: site.to_string(),
        node_name: "Utrecht".to_string(),
    }
}

fn account(name: &str, tok: &str, site: &str) -> Account {
    Account { username: name.to_string(), password: "pw".to_string(), token: token(tok), me: me(site) }
}

#[test]
fn good_credential_kept_bad_one_dropped() {
    let good = account_from("ann".to_string(), "pw".to_string(), Some(token("t1")), Some(me("NL1")));
    let bad = account_from("bob".to_string(), "wrong".to_string(), None, None);
    assert!(bad.is_none());
    let registry = collect_accounts(vec![good, bad]);
    assert_eq!(registry.len(), 1);
    assert_eq!(registry[0].username, "ann");
    assert_eq!(registry[0].token.access_token, "t1");
}

#[test]
fn failed_profile_drops_credential() {
    assert!(account_from("ann".to_string(), "pw".to_string(), Some(token("t1")), None).is_none());
}

#[test]
fn refresh_failure_leaves_account_unchanged() {
    let mut accounts = vec![account("ann", "old-a", "NL1"), account("bob", "old-b", "NL2")];
    refresh_all(&mut accounts, vec![(None, None), (Some(token("new-b")), Some(me("NL9")))]);
    assert_eq!(accounts[0].token.access_token, "old-a");
    assert_eq!(accounts[0].me.node_code, "NL1");
    assert_eq!(accounts[1].token.access_token, "new-b");
    assert_eq!(accounts[1].me.node_code, "NL9");
    assert_eq!(accounts[1].username, "bob");
}

#[test]
fn refresh_keeps_profile_when_lookup_fails() {
    let mut acc = account("ann", "old", "NL1");
    refresh_account(&mut acc, Some(token("new")), None);
    assert_eq!(acc.token.access_token, "new");
    assert_eq!(acc.me.node_code, "NL1");
}

#[test]
fn unknown_user_is_not_found() {
    let accounts = vec![account("ann", "t", "NL1")];
    assert!(find_by_username(&accounts, &"unknown-user".to_string()).is_none());
    assert_eq!(find_by_username(&accounts, &"ann".to_string()).unwrap().username, "ann");
}

#[test]
fn first_account_with_the_name_is_found() {
    let accounts = vec![account("bob", "t0", "NL0"), account("ann", "t1", "NL1"), account("ann", "t2", "NL2")];
    assert_eq!(find_by_username(&accounts, &"ann".to_string()).unwrap().token.access_token, "t1");
}
