use wg_p2p::editor::{
    accepted_records, art_tooltip, connection_items, find_response, key_to_digest, key_tooltip,
    keys_found, EditorFields, FindAction, KeySearch,
};

fn art_key() -> Vec<u8> {
    (0..32u32).map(|i| ((20 * 31 + i * 17) % 256) as u8).collect()
}

#[test]
fn short_key_shows_invalid_message() {
    assert_eq!(key_tooltip(&[0u8; 31], "Invalid Public Key!"), "Invalid Public Key!");
    assert_eq!(key_tooltip(&[], "Invalid Private Key!"), "Invalid Private Key!");
}

#[test]
fn key_tooltip_shows_escaped_random_art() {
    let expected = "<tt>+-----------------+\n|         .=+*    |\n|         =oO =   |\n|        . X * o  |\n|       . + B =   |\n|        S * E    |\n|       . = X o   |\n|        . &amp; o o  |\n|         + % +   |\n|          o *    |\n+-----------------+</tt>";
    assert_eq!(key_tooltip(&art_key(), "Invalid Public Key!"), expected);
}

#[test]
fn art_tooltip_trims_and_escapes() {
    assert_eq!(art_tooltip("  a&b \n"), "<tt>a&amp;b</tt>");
    assert_eq!(art_tooltip("\n"), "<tt></tt>");
}

#[test]
fn find_dialog_cancel_hides() {
    let r = find_response(true, "alice".to_string(), &None, Some("key".to_string()));
    assert!(matches!(r, FindAction::Hide));
}

#[test]
fn find_dialog_same_term_takes_selection() {
    let latest = Some("alice".to_string());
    let r = find_response(false, "alice".to_string(), &latest, Some("a2V5".to_string()));
    assert!(matches!(r, FindAction::UseKey(k) if k == "a2V5"));
    let r = find_response(false, "alice".to_string(), &latest, None);
    assert!(matches!(r, FindAction::Search(n) if n == "alice"));
}

#[test]
fn find_dialog_new_term_searches() {
    let latest = Some("bob".to_string());
    let r = find_response(false, "alice".to_string(), &latest, Some("a2V5".to_string()));
    assert!(matches!(r, FindAction::Search(n) if n == "alice"));
    let r = find_response(false, "alice".to_string(), &None, Some("a2V5".to_string()));
    assert!(matches!(r, FindAction::Search(n) if n == "alice"));
}

fn record(digest: u8, key: u8) -> Vec<u8> {
    let mut r = vec![digest; 32];
    r.extend(vec![key; 32]);
    r
}

#[test]
fn only_records_whose_digest_matches_pass() {
    let records = vec![record(1, 2), vec![1, 2, 3], record(5, 6), record(9, 9)];
    let digests: Vec<Option<Vec<u8>>> = records
        .iter()
        .map(|r| key_to_digest(r).map(|k| if k[0] == 6 { vec![0u8; 32] } else { vec![k[0] - 1; 32] }))
        .collect();
    assert!(digests[1].is_none());
    let keys = accepted_records(&records, &digests);
    assert_eq!(keys, vec![vec![2u8; 32]]);
}

#[test]
fn key_part_of_record() {
    assert_eq!(key_to_digest(&record(3, 4)), Some(vec![4u8; 32]));
    assert_eq!(key_to_digest(&vec![0u8; 63]), None);
    assert_eq!(key_to_digest(&vec![0u8; 65]), None);
}

#[test]
fn search_outcomes() {
    let digests: Vec<Option<Vec<u8>>> = vec![];
    assert!(matches!(keys_found(Err("Timeout"), &digests), KeySearch::Failed(t) if t == "Error: Timeout"));
    let none: Vec<Vec<u8>> = vec![];
    assert!(matches!(keys_found(Ok(&none), &digests), KeySearch::NoKeys));
    let records = vec![record(8, 1)];
    let digests = vec![Some(vec![8u8; 32])];
    assert!(matches!(keys_found(Ok(&records), &digests), KeySearch::Found(k) if k == vec![vec![1u8; 32]]));
    let bad = vec![Some(vec![7u8; 32])];
    assert!(matches!(keys_found(Ok(&records), &bad), KeySearch::NoKeys));
}

#[test]
fn connection_items_in_saving_order() {
    let fields = EditorFields {
        local_name: Some("alice".to_string()),
        local_port: None,
        endpoint_address: Some("192.0.2.1:51820".to_string()),
        interface_name: Some("wg2".to_string()),
        local_public_key: Some("cHVi".to_string()),
        remote_public_key: None,
        local_private_key: Some("cHJpdg==".to_string()),
    };
    let items = connection_items(&fields);
    let pairs: Vec<(&str, &str)> = items.iter().map(|(k, v)| (k.as_str(), v.as_str())).collect();
    assert_eq!(
        pairs,
        vec![
            ("local_name", "alice"),
            ("local_port", ""),
            ("endpoint_method", "manual"),
            ("endpoint_address", "192.0.2.1:51820"),
            ("remote_public_key", ""),
            ("interface_name", "wg2"),
            ("local_public_key", "cHVi"),
            ("local_private_key", "cHJpdg=="),
        ]
    );
}
