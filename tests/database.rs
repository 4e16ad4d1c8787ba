use xcloud::command::Command;
use xcloud::database::{delete_data, delete_table, get_data, init_table, set_data, update_data};

fn texts(plan: &[Command]) -> Vec<String> {
    plan.iter().map(|c| c.sql()).collect()
}

fn params(plan: &[Command]) -> Vec<Vec<String>> {
    plan.iter().map(|c| c.params()).collect()
}

const CREATE_USERS: &str =
    "CREATE TABLE IF NOT EXISTS \"users\" (key TEXT PRIMARY KEY, value TEXT NOT NULL)";

#[test]
fn init_table_creates_if_absent() {
    let plan = init_table("users");
    assert_eq!(texts(&plan), vec![CREATE_USERS]);
    assert_eq!(params(&plan), vec![Vec::<String>::new()]);
    assert!(!plan[0].fetches());
}

#[test]
fn set_data_provisions_then_upserts() {
    let plan = set_data("users", "1", "alice");
    assert_eq!(
        texts(&plan),
        vec![CREATE_USERS, "INSERT OR REPLACE INTO \"users\" (key, value) VALUES (?1, ?2)"]
    );
    assert_eq!(params(&plan)[1], vec!["1", "alice"]);
    assert!(!plan[1].fetches());
}

#[test]
fn update_data_binds_value_first() {
    let plan = update_data("users", "2", "x");
    assert_eq!(
        texts(&plan),
        vec![CREATE_USERS, "UPDATE \"users\" SET value = ?1 WHERE key = ?2"]
    );
    assert_eq!(params(&plan)[1], vec!["x", "2"]);
}

#[test]
fn get_data_provisions_then_selects() {
    let plan = get_data("users", "1");
    assert_eq!(
        texts(&plan),
        vec![CREATE_USERS, "SELECT value FROM \"users\" WHERE key = ?1"]
    );
    assert_eq!(params(&plan)[1], vec!["1"]);
    assert!(plan[1].fetches());
    assert!(!plan[0].fetches());
}

#[test]
fn delete_data_does_not_provision() {
    let plan = delete_data("users", "1");
    assert_eq!(texts(&plan), vec!["DELETE FROM \"users\" WHERE key = ?1"]);
    assert_eq!(params(&plan), vec![vec!["1".to_string()]]);
}

#[test]
fn delete_table_drops_if_exists() {
    let plan = delete_table("users");
    assert_eq!(texts(&plan), vec!["DROP TABLE IF EXISTS \"users\""]);
    assert_eq!(params(&plan), vec![Vec::<String>::new()]);
}

#[test]
fn table_name_is_sanitized_in_every_statement() {
    let plan = set_data("us\"ers; DROP TABLE x; --", "k", "v");
    assert_eq!(
        texts(&plan)[1],
        "INSERT OR REPLACE INTO \"usersDROPTABLEx\" (key, value) VALUES (?1, ?2)"
    );
    assert_eq!(texts(&delete_table("a b")), vec!["DROP TABLE IF EXISTS \"ab\""]);
}

#[test]
fn keys_and_values_are_bound_never_written() {
    let key = "1' OR '1'='1";
    let value = "\"); DROP TABLE users; --";
    let plan = set_data("users", key, value);
    for text in texts(&plan) {
        assert!(!text.contains(key));
        assert!(!text.contains(value));
    }
    assert_eq!(params(&plan)[1], vec![key, value]);
}

#[test]
fn colliding_table_names_send_the_same_statements() {
    assert_eq!(texts(&set_data("a;b", "k", "v")), texts(&set_data("ab", "k", "v")));
    assert_eq!(texts(&get_data("a;b", "k")), texts(&get_data("ab", "k")));
    assert_eq!(texts(&delete_table("a;b")), texts(&delete_table("ab")));
}
