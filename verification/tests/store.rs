use geochat::store::Users;

#[test]
fn register_then_authenticate_succeeds() {
    let mut users = Users::new();
    let id = users.register("alice", "correct horse").expect("registration");
    assert_eq!(id, 0);
    assert_eq!(users.authenticate("alice", "correct horse"), Some(0));
}

#[test]
fn authenticate_with_wrong_password_fails() {
    let mut users = Users::new();
    users.register("alice", "correct horse").expect("registration");
    assert_eq!(users.authenticate("alice", "battery staple"), None);
    assert_eq!(users.authenticate("alice", ""), None);
    assert_eq!(users.authenticate("alice", "correct horse "), None);
}

#[test]
fn authenticate_unknown_name_fails_like_bad_password() {
    let users = Users::new();
    assert_eq!(users.authenticate("nobody", "whatever"), None);
}

#[test]
fn duplicate_registration_rejected() {
    let mut users = Users::new();
    let first = users.register("alice", "pw one");
    let second = users.register("alice", "pw two");
    assert_eq!(first, Some(0));
    assert_eq!(second, None);
    // Exactly one record with that name exists afterward.
    assert_eq!(users.users.len(), 1);
    assert_eq!(users.get_by_name("alice").map(|u| u.id), Some(0));
    // The surviving record still holds the first password.
    assert_eq!(users.authenticate("alice", "pw one"), Some(0));
    assert_eq!(users.authenticate("alice", "pw two"), None);
}

#[test]
fn ids_strictly_increase_and_never_repeat() {
    let mut users = Users::new();
    let a = users.register("alice", "pw").unwrap();
    let b = users.register("bob", "pw").unwrap();
    let c = users.register("carol", "pw").unwrap();
    assert!(a < b && b < c);
    assert_eq!((a, b, c), (0, 1, 2));
}

#[test]
fn new_user_starts_at_origin() {
    let mut users = Users::new();
    users.register("alice", "pw").unwrap();
    let u = users.get_by_id(0).expect("present");
    assert_eq!((u.lat, u.lon), (0, 0));
    assert_eq!(u.name.as_str(), "alice");
}

#[test]
fn update_position_overwrites() {
    let mut users = Users::new();
    users.register("alice", "pw").unwrap();
    users.update_position(0, 48_850_000, 2_350_000);
    let u = users.get_by_id(0).expect("present");
    assert_eq!((u.lat, u.lon), (48_850_000, 2_350_000));
}

#[test]
fn update_position_on_missing_id_is_a_noop() {
    let mut users = Users::new();
    users.register("alice", "pw").unwrap();
    users.update_position(999, 10_000_000, 10_000_000);
    assert_eq!(users.users.len(), 1);
    let u = users.get_by_id(0).expect("present");
    assert_eq!((u.lat, u.lon), (0, 0));
    assert!(users.get_by_id(999).is_none());
}

#[test]
fn update_position_clamps_off_globe_input() {
    let mut users = Users::new();
    users.register("alice", "pw").unwrap();
    users.update_position(0, 95_000_000, -200_000_000);
    let u = users.get_by_id(0).expect("present");
    assert_eq!((u.lat, u.lon), (90_000_000, -180_000_000));
}

#[test]
fn contains_username_tracks_registrations() {
    let mut users = Users::new();
    assert!(!users.contains_username("alice"));
    users.register("alice", "pw").unwrap();
    assert!(users.contains_username("alice"));
    assert!(!users.contains_username("alic"));
    assert!(!users.contains_username("alicea"));
}

#[test]
fn in_range_by_ids() {
    let mut users = Users::new();
    users.register("alice", "pw").unwrap();
    users.register("bob", "pw").unwrap();
    // Both at the origin by default: in range, either way round.
    assert!(users.in_range(0, 1));
    assert!(users.in_range(1, 0));
    assert!(users.in_range(0, 0));
    // Move bob a degree away: out of range.
    users.update_position(1, 1_000_000, 0);
    assert!(!users.in_range(0, 1));
    assert!(!users.in_range(1, 0));
    // Bring him to 0.05 degrees of longitude: back in range.
    users.update_position(1, 0, 50_000);
    assert!(users.in_range(0, 1));
    // A missing id is never in range.
    assert!(!users.in_range(0, 7));
    assert!(!users.in_range(7, 0));
}

#[test]
fn distance_and_window_between_users() {
    let mut users = Users::new();
    users.register("alice", "pw").unwrap();
    users.register("bob", "pw").unwrap();
    users.update_position(1, 0, 50_000);
    let a = users.get_by_id(0).expect("alice");
    let b = users.get_by_id(1).expect("bob");
    assert_eq!(a.distance_to(b), 5_560);
    assert_eq!(b.distance_to(a), 5_560);
    assert_eq!(a.distance_to(a), 0);
    assert!(a.within_bounds(b, 100_000));
    assert!(!a.within_bounds(b, 50_000));
}

#[test]
fn add_hashed_stores_the_hash_verbatim() {
    let mut users = Users::new();
    let id = users.add_hashed("alice", "not a real hash".to_string());
    assert_eq!(id, 0);
    let u = users.get_by_id(0).expect("present");
    assert_eq!(u.password.as_str(), "not a real hash");
    // A malformed stored hash verifies no password.
    assert_eq!(users.authenticate("alice", "not a real hash"), None);
    assert_eq!(users.authenticate("alice", "pw"), None);
}

#[test]
fn stored_hash_is_not_the_password() {
    let mut users = Users::new();
    users.register("alice", "pw").unwrap();
    let u = users.get_by_id(0).expect("present");
    assert_ne!(u.password.as_str(), "pw");
    assert!(u.password.starts_with("$rpbkdf2$"));
}
