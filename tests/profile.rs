use user_store::error::{Invalid, UserError};
use user_store::profile::{filter_users_by_age, HasId, Theme, User, UserPreferences};
use user_store::repository::Repository;
use user_store::validate::{check_fields, contains_at, email_domain};

#[test]
fn test_user_creation() {
    let user = User::new("Test User".to_string(), 25, "test@example.com".to_string());
    assert!(user.is_ok());

    let user = user.unwrap();
    assert_eq!(user.name, "Test User");
    assert_eq!(user.age, 25);
}

#[test]
fn test_invalid_email() {
    let user = User::new("Test User".to_string(), 25, "invalid-email".to_string());
    assert!(user.is_err());
}

#[test]
fn profile_errors_name_each_rule() {
    let e = User::new("".to_string(), 25, "a@b.com".to_string()).unwrap_err();
    assert_eq!(e, UserError::Validation(Invalid::EmptyName));
    let e = User::new("Al".to_string(), 25, "ab.com".to_string()).unwrap_err();
    assert_eq!(e, UserError::Validation(Invalid::MissingAt));
    let e = User::new("Al".to_string(), 151, "a@b.com".to_string()).unwrap_err();
    assert_eq!(e, UserError::Validation(Invalid::AgeOutOfRange));
    assert!(User::new("Al".to_string(), 150, "a@b.com".to_string()).is_ok());
}

#[test]
fn new_profile_has_no_id_or_preferences() {
    let u = User::new("Al".to_string(), 40, "al@x.org".to_string()).unwrap();
    assert_eq!(u.id, 0);
    assert_eq!(u.get_id(), 0);
    assert!(u.preferences.is_none());
    assert_eq!(u.get_display_name(), "Al");
}

#[test]
fn email_domain_takes_segment_after_first_at() {
    assert_eq!(email_domain("alice@example.com"), Some("example.com"));
    assert_eq!(email_domain("a@b@c"), Some("b"));
    assert_eq!(email_domain("a@"), Some(""));
    assert_eq!(email_domain("plain"), None);
    assert_eq!(email_domain(""), None);
    let u = User::new("Al".to_string(), 40, "al@x.org".to_string()).unwrap();
    assert_eq!(u.get_email_domain(), Some("x.org"));
}

#[test]
fn at_sign_detection() {
    assert!(contains_at("@"));
    assert!(contains_at("x@"));
    assert!(!contains_at(""));
    assert!(!contains_at("xyz"));
    assert_eq!(check_fields("n", "e@", None), Ok(()));
    assert_eq!(check_fields("", "nope", Some(200)), Err(UserError::Validation(Invalid::EmptyName)));
}

#[test]
fn preferences_are_set_and_replaced() {
    let prefs = UserPreferences { theme: Theme::Dark, notifications_enabled: true, language: "en".to_string() };
    let u = User::new("Al".to_string(), 40, "al@x.org".to_string()).unwrap().with_preferences(prefs);
    assert_eq!(u.preferences.as_ref().unwrap().theme, Theme::Dark);
    let mut u = u;
    u.set_preferences(UserPreferences { theme: Theme::default(), notifications_enabled: false, language: "fr".to_string() });
    let p = u.preferences.as_ref().unwrap();
    assert_eq!(p.theme, Theme::Auto);
    assert!(!p.notifications_enabled);
    assert_eq!(p.language, "fr");
    assert_eq!(u.name, "Al");
}

#[test]
fn filter_keeps_adults_in_order() {
    let users = vec![
        User::new("A".to_string(), 17, "a@x".to_string()).unwrap(),
        User::new("B".to_string(), 18, "b@x".to_string()).unwrap(),
        User::new("C".to_string(), 40, "c@x".to_string()).unwrap(),
        User::new("D".to_string(), 3, "d@x".to_string()).unwrap(),
    ];
    let adults = filter_users_by_age(&users, 18);
    let names: Vec<&str> = adults.iter().map(|u| u.name.as_str()).collect();
    assert_eq!(names, vec!["B", "C"]);
    assert!(filter_users_by_age(&[], 0).is_empty());
}

#[test]
fn repository_assigns_increasing_ids() {
    let mut repo: Repository<User> = Repository::new();
    let a = repo.add(User::new("Alice".to_string(), 28, "alice@example.com".to_string()).unwrap());
    let b = repo.add(User::new("Bob".to_string(), 35, "bob@example.com".to_string()).unwrap());
    assert_eq!((a, b), (1, 2));
    assert_eq!(repo.get(2).unwrap().name, "Bob");
    assert_eq!(repo.get(2).unwrap().id, 2);
    assert!(repo.get(3).is_none());
    let all = repo.get_all();
    assert_eq!(all.len(), 2);
    assert_eq!(all[0].name, "Alice");
    assert_eq!(all[1].get_id(), 2);
}

#[test]
fn error_messages() {
    assert_eq!(UserError::Validation(Invalid::EmptyName).message(), "Name cannot be empty");
    assert_eq!(UserError::NotFound(3).message(), "User not found");
    assert!(UserError::Validation(Invalid::MissingAt).is_validation());
    assert!(!UserError::NotFound(3).is_validation());
}
