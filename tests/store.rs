use user_store::database::{User, UserDatabase};
use user_store::error::{Invalid, UserError};
use user_store::profile::{Theme, UserPreferences};

#[test]
fn ids_increase_across_failures() {
    let mut db = UserDatabase::new();
    let a = db.add_user("A".to_string(), "a@x".to_string()).unwrap();
    assert!(db.add_user("".to_string(), "a@x".to_string()).is_err());
    assert!(db.update_user_age(a, 200).is_err());
    assert!(db.update_user_age(77, 20).is_err());
    let b = db.add_user("B".to_string(), "b@x".to_string()).unwrap();
    assert!(db.insert("C".to_string(), "nope".to_string(), None, None).is_err());
    let c = db.insert("C".to_string(), "c@x".to_string(), Some(9), None).unwrap();
    assert_eq!((a, b, c), (1, 2, 3));
    assert!(a < b && b < c);
}

#[test]
fn empty_name_changes_nothing() {
    let mut db = UserDatabase::new();
    db.add_user("A".to_string(), "a@x".to_string()).unwrap();
    let r = db.add_user("".to_string(), "a@b.com".to_string());
    assert_eq!(r, Err(UserError::Validation(Invalid::EmptyName)));
    assert_eq!(db.list_users().len(), 1);
    assert_eq!(db.next_id(), 2);
}

#[test]
fn email_without_at_is_rejected() {
    let mut db = UserDatabase::new();
    let r = db.add_user("Alice".to_string(), "not-an-email".to_string());
    assert_eq!(r, Err(UserError::Validation(Invalid::MissingAt)));
    assert_eq!(db.next_id(), 1);
}

#[test]
fn age_above_limit_is_rejected() {
    let mut db = UserDatabase::new();
    let r = db.insert("Alice".to_string(), "a@b.com".to_string(), Some(151), None);
    assert_eq!(r, Err(UserError::Validation(Invalid::AgeOutOfRange)));
    assert!(db.list_users().is_empty());
    assert_eq!(db.insert("Alice".to_string(), "a@b.com".to_string(), Some(150), None), Ok(1));
}

#[test]
fn inserted_record_reads_back() {
    let mut db = UserDatabase::new();
    let id = db.add_user("Bob".to_string(), "b@c.com".to_string()).unwrap();
    let u = db.get_user(id).unwrap();
    assert_eq!(u.name, "Bob");
    assert_eq!(u.email, "b@c.com");
    assert_eq!(u.age, None);
    assert_eq!(u.id, id);
    assert!(db.get_user(id + 1).is_none());
}

#[test]
fn update_age_then_read() {
    let mut db = UserDatabase::new();
    let id = db.add_user("Bob".to_string(), "b@c.com".to_string()).unwrap();
    assert_eq!(db.update_user_age(id, 30), Ok(()));
    assert_eq!(db.get_user(id).unwrap().age, Some(30));
    assert_eq!(db.update_user_age(9999, 30), Err(UserError::NotFound(9999)));
    assert_eq!(db.update_user_age(id, 151), Err(UserError::Validation(Invalid::AgeOutOfRange)));
    assert_eq!(db.get_user(id).unwrap().age, Some(30));
}

#[test]
fn list_is_a_snapshot() {
    let mut db = UserDatabase::new();
    db.add_user("A".to_string(), "a@x".to_string()).unwrap();
    let before = db.list_users();
    db.add_user("B".to_string(), "b@x".to_string()).unwrap();
    db.update_user_age(1, 44).unwrap();
    let after = db.list_users();
    assert_eq!(after.len(), before.len() + 1);
    assert_eq!(before.len(), 1);
    assert_eq!(before[0].name, "A");
    assert_eq!(before[0].age, None);
    assert_eq!(after[0].age, Some(44));
    assert_eq!(after[1].name, "B");
}

#[test]
fn get_twice_gives_same_record() {
    let mut db = UserDatabase::new();
    let id = db.insert(
        "Eve".to_string(),
        "e@v.io".to_string(),
        Some(33),
        Some(UserPreferences { theme: Theme::Light, notifications_enabled: true, language: "de".to_string() }),
    )
    .unwrap();
    let first = db.get_user(id).map(|u| (u.id, u.name.clone(), u.email.clone(), u.age));
    let second = db.get_user(id).map(|u| (u.id, u.name.clone(), u.email.clone(), u.age));
    assert_eq!(first, second);
    assert_eq!(db.get_user(id).unwrap().preferences.as_ref().unwrap().language, "de");
    assert!(db.get_user(5).is_none() && db.get_user(5).is_none());
}

#[test]
fn record_setters() {
    let mut u = User::new(4, "Zed".to_string(), "z@z".to_string());
    assert_eq!(u.age, None);
    assert_eq!(u.set_age(151), Err(UserError::Validation(Invalid::AgeOutOfRange)));
    assert_eq!(u.age, None);
    assert_eq!(u.set_age(0), Ok(()));
    assert_eq!(u.age, Some(0));
    let c = u.clone();
    assert_eq!((c.id, c.name.as_str(), c.age), (4, "Zed", Some(0)));
}

#[test]
fn display_info_formats_with_and_without_age() {
    let mut u = User::new(1, "John Doe".to_string(), "john@example.com".to_string());
    assert_eq!(u.display_info(), "John Doe - john@example.com");
    u.set_age(30).unwrap();
    assert_eq!(u.display_info(), "John Doe (30) - john@example.com");
    u.set_age(7).unwrap();
    assert_eq!(u.display_info(), "John Doe (7) - john@example.com");
    u.set_age(150).unwrap();
    assert_eq!(u.display_info(), "John Doe (150) - john@example.com");
    u.set_age(100).unwrap();
    assert_eq!(u.display_info(), "John Doe (100) - john@example.com");
}

#[test]
fn decimal_rendering_appends() {
    let mut s = "n=".to_string();
    user_store::render::push_decimal(&mut s, 0);
    assert_eq!(s, "n=0");
    let mut s = String::new();
    user_store::render::push_decimal(&mut s, 255);
    assert_eq!(s, "255");
    let mut s = String::new();
    user_store::render::push_decimal(&mut s, 42);
    assert_eq!(s, "42");
}
