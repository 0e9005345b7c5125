use manus_scraper::config::parse_credentials;

fn pairs(v: &[(&str, &str)]) -> Vec<(String, String)> {
    v.iter().map(|(a, b)| (a.to_string(), b.to_string())).collect()
}

#[test]
fn list_of_pairs_is_split() {
    assert_eq!(parse_credentials("ann:secret1,bob:secret2"), Some(pairs(&[("ann", "secret1"), ("bob", "secret2")])));
}

#[test]
fn pair_splits_at_first_colon() {
    assert_eq!(parse_credentials("ann:pa:ss"), Some(pairs(&[("ann", "pa:ss")])));
}

#[test]
fn empty_fields_are_kept() {
    assert_eq!(parse_credentials(":,bob:"), Some(pairs(&[("", ""), ("bob", "")])));
}

#[test]
fn pair_without_colon_is_rejected() {
    assert_eq!(parse_credentials("ann:secret1,bob"), None);
    assert_eq!(parse_credentials("ann"), None);
    assert_eq!(parse_credentials(""), None);
    assert_eq!(parse_credentials("ann:x,"), None);
}
