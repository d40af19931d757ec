use wg_p2p::settings::{item_or, should_store_item};
use wg_p2p::text::escape_markup;

#[test]
fn escape_markup_replaces_ampersands_only() {
    assert_eq!(escape_markup("a&b"), "a&amp;b");
    assert_eq!(escape_markup("&&"), "&amp;&amp;");
    assert_eq!(escape_markup("<tt>"), "<tt>");
    assert_eq!(escape_markup(""), "");
    assert_eq!(escape_markup("ä&ö"), "ä&amp;ö");
}

#[test]
fn items_with_empty_key_or_value_are_not_stored() {
    assert!(should_store_item("local_port", "51820"));
    assert!(!should_store_item("", "51820"));
    assert!(!should_store_item("local_port", ""));
    assert!(!should_store_item("", ""));
}

#[test]
fn missing_item_takes_default() {
    assert_eq!(item_or(&None, "wg0"), "wg0");
    assert_eq!(item_or(&Some("wg7".to_string()), "wg0"), "wg7");
    assert_eq!(item_or(&Some(String::new()), "wg0"), "");
}
