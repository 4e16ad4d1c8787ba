use xcloud::utils::Utils;

#[test]
fn test_sanitize() {
    let input = "Hello, World!";
    let expected = "HelloWorld";
    assert_eq!(Utils::sanitize(input), expected);
}

#[test]
fn sanitize_is_idempotent_on_examples() {
    for t in ["users;drop", "a b\tc", "__x__", "", "Ünïcödé-名前!", "1;DROP TABLE x;--"] {
        let once = Utils::sanitize(t);
        assert_eq!(Utils::sanitize(&once), once);
    }
}

#[test]
fn sanitize_keeps_underscores_and_digits() {
    assert_eq!(Utils::sanitize("user_data_2024"), "user_data_2024");
    assert_eq!(Utils::sanitize("\"users\"; DROP TABLE x; --"), "usersDROPTABLEx");
}

#[test]
fn sanitize_keeps_unicode_letters() {
    assert_eq!(Utils::sanitize("café-名前"), "café名前");
}

#[test]
fn sanitize_of_only_punctuation_is_empty() {
    assert_eq!(Utils::sanitize(";-- '\""), "");
    assert_eq!(Utils::sanitize(""), "");
}

#[test]
fn colliding_names_share_a_table() {
    assert_eq!(Utils::sanitize("a;b"), Utils::sanitize("ab"));
    assert_eq!(Utils::sanitize("users;drop"), Utils::sanitize("usersdrop"));
}

