use xcloud::tables::{User, UserPreferences};

#[test]
fn hashed_password_has_bcrypt_shape() {
    let h = User::hash_password("password123").ok().unwrap();
    assert_eq!(h.len(), 60);
    assert!(h.starts_with("$2b$12$"));
    assert_ne!(h, "password123");
}

#[test]
fn stored_hash_verifies_its_password_only() {
    let h = "$2b$04$EGdrhbKUv8Oc9vGiXX0HQOxSg445d458Muh7DAHskb6QbtCvdxcie".to_string();
    let prefs = UserPreferences { theme: "dark", screen_reader: false };
    let user = User::new(1, "user", h, "", prefs);
    assert_eq!(user.verify_password("correctbatteryhorsestapler").ok(), Some(true));
    assert_eq!(user.verify_password("wrong").ok(), Some(false));
}

#[test]
fn malformed_hash_is_an_error() {
    let prefs = UserPreferences { theme: "light", screen_reader: true };
    let user = User::new(2, "other", "not a hash".to_string(), "o@example.org", prefs);
    assert!(user.verify_password("anything").is_err());
}
