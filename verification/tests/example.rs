use grit::example::get_user;
use grit::example::is_valid_id;
use grit::example::User;
use grit::example::UserDirectory;
use grit::example::UserError;

#[test]
fn an_empty_id_is_invalid() {
    assert!(!is_valid_id(""));
}

#[test]
fn a_nonempty_id_is_valid() {
    assert!(is_valid_id("alice"));
}

#[test]
fn lookup_finds_an_inserted_user() {
    let mut d = UserDirectory::new();
    d.insert("alice".to_string(), User { name: "Alice A.".to_string() });
    d.insert("bob".to_string(), User { name: "Bob B.".to_string() });
    let u = match get_user(&d, "alice") {
        Ok(u) => u,
        Err(_) => panic!("alice is present"),
    };
    assert_eq!(u.name, "Alice A.");
}

#[test]
fn lookup_of_a_missing_user_reports_not_found() {
    let mut d = UserDirectory::new();
    d.insert("alice".to_string(), User { name: "Alice A.".to_string() });
    let r = get_user(&d, "ghost");
    assert!(matches!(r, Err(UserError::NotFound)));
}

#[test]
fn insert_with_an_existing_id_replaces_in_place() {
    let mut d = UserDirectory::new();
    d.insert("alice".to_string(), User { name: "Old".to_string() });
    d.insert("bob".to_string(), User { name: "Bob B.".to_string() });
    d.insert("alice".to_string(), User { name: "New".to_string() });
    assert_eq!(d.len(), 2);
    let u = match get_user(&d, "alice") {
        Ok(u) => u,
        Err(_) => panic!("alice is present"),
    };
    assert_eq!(u.name, "New");
}
