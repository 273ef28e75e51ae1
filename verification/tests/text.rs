use farm_plugins::text::{concat_text, contains_text, first_char_is, has_prefix, replace_star, text_eq};

#[test]
fn text_helpers() {
    assert!(text_eq("abc", "abc"));
    assert!(!text_eq("abc", "abd"));
    assert!(!text_eq("abc", "ab"));
    assert!(has_prefix("https://x", "https://"));
    assert!(!has_prefix("http", "https://"));
    assert!(has_prefix("x", ""));
    assert!(contains_text("/a/node_modules/b", "node_modules"));
    assert!(!contains_text("/a/node_module/b", "node_modules"));
    assert!(contains_text("abc", ""));
    assert!(!contains_text("", "a"));
    assert!(first_char_is("./a", '.'));
    assert!(!first_char_is("", '.'));
    assert_eq!(concat_text("ab", "cd"), "abcd");
}

#[test]
fn replace_star_replaces_every_star() {
    assert_eq!(replace_star("src/*", "utils"), "src/utils");
    assert_eq!(replace_star("*/x/*", "a"), "a/x/a");
    assert_eq!(replace_star("plain", "a"), "plain");
    assert_eq!(replace_star("é*ü", "ß"), "éßü");
}
