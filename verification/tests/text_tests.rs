use sprattus::text::has_id_substring;
use sprattus::text::quote_ident;
use sprattus::text::str_eq;

#[test]
fn string_comparison() {
    assert!(str_eq("", ""));
    assert!(str_eq("prod_id", "prod_id"));
    assert!(!str_eq("prod_id", "prod_1d"));
    assert!(!str_eq("prod", "prod_id"));
    assert!(!str_eq("prod_id", "prod"));
}

#[test]
fn identifier_quoting() {
    assert_eq!(quote_ident("desc"), "\"desc\"");
    assert_eq!(quote_ident(""), "\"\"");
    assert_eq!(quote_ident("Product"), "\"Product\"");
}

#[test]
fn id_substring_detection() {
    assert!(has_id_substring("prod_id"));
    assert!(has_id_substring("id"));
    assert!(has_id_substring("void"));
    assert!(has_id_substring("guidance"));
    assert!(!has_id_substring("title"));
    assert!(!has_id_substring("i"));
    assert!(!has_id_substring(""));
    assert!(!has_id_substring("di"));
    assert!(!has_id_substring("Id"));
}
