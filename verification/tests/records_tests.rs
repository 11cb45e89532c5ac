use alpaca_trading3web::records::{
    mask_encrypted_key, mask_raw_key, new_strategy_id, normalize_symbols, parse_symbols, slugify, strategy_id_for,
};

#[test]
fn test_mask_raw_key() {
    assert_eq!(mask_raw_key(""), "********");
    assert_eq!(mask_raw_key("123"), "********");
    assert_eq!(mask_raw_key("12345678"), "********");

    assert_eq!(mask_raw_key("123456789"), "1234…6789");
    assert_eq!(mask_raw_key("PK1234567890ABCDEFGH"), "PK12…EFGH");
    assert_eq!(mask_raw_key("abcdefghijklmnopqrstuvwxyz"), "abcd…wxyz");
}

#[test]
fn test_slugify() {
    assert_eq!(slugify("Hello World"), "hello-world");
    assert_eq!(slugify("hello-world"), "hello-world");
    assert_eq!(slugify("  hello   world  "), "hello-world");
    assert_eq!(slugify("hello!@#$%^&*()world"), "hello-world");
    assert_eq!(slugify("123 456"), "123-456");
    assert_eq!(slugify("---hello---"), "hello");
    assert_eq!(slugify(""), "");
    assert_eq!(slugify("!@#$"), "");
    assert_eq!(slugify("Complex Title: With Symbols & More!"), "complex-title-with-symbols-more");
    assert_eq!(slugify("unicode-test-🚀-sparkles"), "unicode-test-sparkles");
}

#[test]
fn test_normalize_symbols() {
    assert_eq!(
        normalize_symbols(&["aapl".to_string(), "tsla".to_string(), "msft".to_string()]),
        vec!["AAPL".to_string(), "MSFT".to_string(), "TSLA".to_string()]
    );
    assert_eq!(
        normalize_symbols(&["aapl".to_string(), "AAPL".to_string(), "AaPl".to_string()]),
        vec!["AAPL".to_string()]
    );
    assert_eq!(
        normalize_symbols(&["  aapl  ".to_string(), "\ttsla\n".to_string()]),
        vec!["AAPL".to_string(), "TSLA".to_string()]
    );
    assert_eq!(
        normalize_symbols(&["".to_string(), "   ".to_string(), "aapl".to_string()]),
        vec!["AAPL".to_string()]
    );
    let empty: Vec<String> = vec![];
    assert_eq!(normalize_symbols(&empty), Vec::<String>::new());
}

#[test]
fn normalized_list_ignores_order_and_repeats() {
    let a = normalize_symbols(&["msft".to_string(), "spy".to_string(), "aapl".to_string(), "SPY".to_string()]);
    let b = normalize_symbols(&["AAPL".to_string(), " spy".to_string(), "Msft ".to_string()]);
    assert_eq!(a, b);
    assert_eq!(normalize_symbols(&a), a);
}

#[test]
fn slugs_are_clean() {
    for text in ["--a--b--", "Ünïcödé!", "A  B", "x-", "-", "Foo_Bar.Baz"] {
        let slug = slugify(text);
        assert!(!slug.starts_with('-') && !slug.ends_with('-'));
        assert!(!slug.contains("--"));
        assert!(slug.chars().all(|c| c.is_ascii_lowercase() || c.is_ascii_digit() || c == '-'));
    }
    assert_eq!(slugify("Foo_Bar.Baz"), "foo-bar-baz");
}

#[test]
fn strategy_ids() {
    assert_eq!(strategy_id_for("My Strategy!", "0123456789abcdef0123456789abcdef"), "my-strategy-01234567");
    let id = new_strategy_id("Alpha Beta");
    assert!(id.starts_with("alpha-beta-"));
    assert_eq!(id.len(), "alpha-beta-".len() + 8);
    assert!(id["alpha-beta-".len()..].chars().all(|c| c.is_ascii_hexdigit()));
}

#[test]
fn parse_stored_symbol_lists() {
    assert_eq!(parse_symbols("[\"aapl\",\"Msft\"]"), vec!["AAPL".to_string(), "MSFT".to_string()]);
    assert_eq!(parse_symbols("not json"), Vec::<String>::new());
    assert_eq!(parse_symbols("[]"), Vec::<String>::new());
}

#[test]
fn masked_encrypted_keys() {
    assert_eq!(mask_encrypted_key("abcdefghij"), "abcd…ghij");
    assert_eq!(mask_encrypted_key("abc"), "abc…abc");
    assert_eq!(mask_encrypted_key(""), "…");
}

#[test]
fn watch_symbols() {
    assert_eq!(alpaca_trading3web::records::normalize_watch_symbol("  spy ").unwrap(), "SPY");
    assert!(matches!(
        alpaca_trading3web::records::normalize_watch_symbol(" \t"),
        Err(alpaca_trading3web::routes::AppError::ValidationError(m)) if m == "symbol is required"
    ));
}

#[test]
fn unicode_white_space_is_trimmed() {
    assert_eq!(normalize_symbols(&["\u{3000}aapl\u{a0}".to_string(), "\u{2003}".to_string()]), vec!["AAPL".to_string()]);
}

#[test]
fn comma_separated_settings() {
    use_comma_list();
}

fn use_comma_list() {
    let origins = alpaca_trading3web::records::comma_list(
        "http://127.0.0.1:5173, http://localhost:5173 ,, \t,http://localhost:5174",
    );
    assert_eq!(origins, vec!["http://127.0.0.1:5173", "http://localhost:5173", "http://localhost:5174"]);
    assert!(alpaca_trading3web::records::comma_list("").is_empty());
    assert_eq!(alpaca_trading3web::records::comma_list("one"), vec!["one"]);
}

#[test]
fn slugs_keep_letters_in_order_and_are_stable() {
    for text in ["Hello, World 42!", "--Ab--Cd--", "ünï-A_b", "", "!!!"] {
        let slug = slugify(text);
        let letters: String = slug.chars().filter(|c| *c != '-').collect();
        let expected: String =
            text.chars().filter(|c| c.is_ascii_alphanumeric()).map(|c| c.to_ascii_lowercase()).collect();
        assert_eq!(letters, expected);
        assert_eq!(slugify(&slug), slug);
    }
}
