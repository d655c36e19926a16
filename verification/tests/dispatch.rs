use geochat::dispatch::{route_inbound, Core, Effect, Inbound, Message};

// Tests use a plain integer as the delivery handle; the library never
// looks inside it.
type TestCore = Core<u32>;

fn opened(core: &mut TestCore, handle: u32) -> u64 {
    match core.handle_message(Message::Open { socket: handle }) {
        Effect::OpenedId { id } => id,
        _ => panic!("open must reply with the allocated id"),
    }
}

fn registered(core: &mut TestCore, conn: u64, name: &str, pw: &str) -> bool {
    match core.handle_message(Message::Register {
        id: conn,
        username: name.to_string(),
        password: pw.to_string(),
    }) {
        Effect::RegisterResponse { status } => status,
        _ => panic!("register must reply with a status"),
    }
}

fn logged_in(core: &mut TestCore, conn: u64, name: &str, pw: &str) -> bool {
    match core.handle_message(Message::Login {
        id: conn,
        username: name.to_string(),
        password: pw.to_string(),
    }) {
        Effect::LoginResponse { status } => status,
        _ => panic!("login must reply with a status"),
    }
}

fn delivered(core: &mut TestCore, user_id: u64, msg: &str) -> Option<(String, String, Vec<u64>)> {
    match core.handle_message(Message::Message {
        user_id,
        msg: msg.to_string(),
    }) {
        Effect::Deliver {
            username,
            msg,
            targets,
        } => Some((username, msg, targets)),
        Effect::Silent => None,
        _ => panic!("a chat message yields a broadcast or nothing"),
    }
}

#[test]
fn connection_ids_strictly_increase() {
    let mut core = TestCore::new();
    let a = opened(&mut core, 10);
    let b = opened(&mut core, 11);
    let c = opened(&mut core, 12);
    assert_eq!((a, b, c), (0, 1, 2));
    assert_eq!(core.servers.len(), 3);
    // Closing does not make an id reusable.
    core.handle_message(Message::Close { id: b });
    let d = opened(&mut core, 13);
    assert_eq!(d, 3);
}

#[test]
fn register_binds_connection() {
    let mut core = TestCore::new();
    let conn = opened(&mut core, 10);
    assert!(registered(&mut core, conn, "alice", "pw"));
    let entry = core.servers.get(conn).expect("registered connection");
    assert_eq!(entry.user_id, Some(0));
    assert_eq!(entry.socket, 10);
}

#[test]
fn duplicate_register_over_connections() {
    let mut core = TestCore::new();
    let c1 = opened(&mut core, 10);
    let c2 = opened(&mut core, 11);
    // Exactly one of two same-name registrations succeeds.
    assert!(registered(&mut core, c1, "alice", "pw one"));
    assert!(!registered(&mut core, c2, "alice", "pw two"));
    assert_eq!(core.users.users.len(), 1);
    // The losing connection stays unbound.
    assert_eq!(core.servers.get(c2).unwrap().user_id, None);
}

#[test]
fn login_binds_and_rejects_bad_credentials() {
    let mut core = TestCore::new();
    let c1 = opened(&mut core, 10);
    assert!(registered(&mut core, c1, "alice", "pw"));
    let c2 = opened(&mut core, 11);
    assert!(!logged_in(&mut core, c2, "alice", "wrong"));
    assert_eq!(core.servers.get(c2).unwrap().user_id, None);
    assert!(!logged_in(&mut core, c2, "nobody", "pw"));
    assert!(logged_in(&mut core, c2, "alice", "pw"));
    assert_eq!(core.servers.get(c2).unwrap().user_id, Some(0));
}

#[test]
fn rebinding_a_bound_connection_is_rejected() {
    let mut core = TestCore::new();
    let c1 = opened(&mut core, 10);
    assert!(registered(&mut core, c1, "alice", "pw"));
    assert!(registered(&mut core, c1, "bob", "pw"));
    // The login succeeds as authentication, but the binding stays.
    assert!(logged_in(&mut core, c1, "bob", "pw"));
    assert_eq!(core.servers.get(c1).unwrap().user_id, Some(0));
}

#[test]
fn broadcast_reaches_exactly_the_in_range_bound_connections() {
    let mut core = TestCore::new();
    let c_alice = opened(&mut core, 10);
    let c_bob = opened(&mut core, 11);
    let c_carol = opened(&mut core, 12);
    let _c_idle = opened(&mut core, 13); // never binds
    assert!(registered(&mut core, c_alice, "alice", "pw"));
    assert!(registered(&mut core, c_bob, "bob", "pw"));
    assert!(registered(&mut core, c_carol, "carol", "pw"));
    // alice at (0, 0), bob at (0, 0.05), carol at (0, 1.0).
    core.handle_message(Message::Location {
        user_id: 1,
        lat: 0,
        lon: 50_000,
    });
    core.handle_message(Message::Location {
        user_id: 2,
        lat: 0,
        lon: 1_000_000,
    });
    let (username, msg, targets) = delivered(&mut core, 0, "hello").expect("broadcast");
    assert_eq!(username, "alice");
    assert_eq!(msg, "hello");
    // alice's own connection and bob's are in range; carol's is not,
    // and the unbound connection is never a target.
    assert_eq!(targets, vec![c_alice, c_bob]);
    // From bob's side the same pair is in range both ways.
    let (_, _, t2) = delivered(&mut core, 1, "hi").expect("broadcast");
    assert_eq!(t2, vec![c_alice, c_bob]);
    // Carol broadcasts into the void: only she hears herself.
    let (_, _, t3) = delivered(&mut core, 2, "anyone?").expect("broadcast");
    assert_eq!(t3, vec![c_carol]);
}

#[test]
fn oversized_message_never_delivered() {
    let mut core = TestCore::new();
    let c = opened(&mut core, 10);
    assert!(registered(&mut core, c, "alice", "pw"));
    let long = "x".repeat(301);
    assert!(delivered(&mut core, 0, &long).is_none());
    let max = "x".repeat(300);
    let (_, echoed, targets) = delivered(&mut core, 0, &max).expect("at the cap it goes out");
    assert_eq!(echoed.len(), 300);
    assert_eq!(targets, vec![c]);
}

#[test]
fn message_from_unknown_sender_dropped() {
    let mut core = TestCore::new();
    opened(&mut core, 10);
    assert!(delivered(&mut core, 42, "hello").is_none());
}

#[test]
fn closed_connection_never_targeted() {
    let mut core = TestCore::new();
    let c_alice = opened(&mut core, 10);
    let c_bob = opened(&mut core, 11);
    assert!(registered(&mut core, c_alice, "alice", "pw"));
    assert!(registered(&mut core, c_bob, "bob", "pw"));
    let (_, _, before) = delivered(&mut core, 0, "hi").expect("broadcast");
    assert_eq!(before, vec![c_alice, c_bob]);
    core.handle_message(Message::Close { id: c_bob });
    assert!(core.servers.get(c_bob).is_none());
    let (_, _, after) = delivered(&mut core, 0, "hi again").expect("broadcast");
    assert_eq!(after, vec![c_alice]);
    // Closing twice is a harmless no-op.
    core.handle_message(Message::Close { id: c_bob });
    assert_eq!(core.servers.len(), 1);
}

#[test]
fn position_update_race_with_close_is_silent() {
    let mut core = TestCore::new();
    let c = opened(&mut core, 10);
    assert!(registered(&mut core, c, "alice", "pw"));
    // A location report for a user id that was never created: no-op.
    let effect = core.handle_message(Message::Location {
        user_id: 99,
        lat: 1,
        lon: 2,
    });
    assert!(matches!(effect, Effect::Silent));
    assert_eq!(core.users.users.len(), 1);
    let u = core.users.get_by_id(0).unwrap();
    assert_eq!((u.lat, u.lon), (0, 0));
}

#[test]
fn routing_drops_what_the_protocol_forbids() {
    // Unbound connections may not report positions or chat.
    assert!(route_inbound::<u32>(0, None, Inbound::Location { lat: 1, lon: 2 }).is_none());
    assert!(route_inbound::<u32>(
        0,
        None,
        Inbound::SendMessage {
            msg: "hi".to_string()
        }
    )
    .is_none());
    // Bound ones may.
    assert!(matches!(
        route_inbound::<u32>(3, Some(7), Inbound::Location { lat: 1, lon: 2 }),
        Some(Message::Location {
            user_id: 7,
            lat: 1,
            lon: 2
        })
    ));
    match route_inbound::<u32>(
        3,
        Some(7),
        Inbound::SendMessage {
            msg: "hi".to_string(),
        },
    ) {
        Some(Message::Message { user_id, msg }) => {
            assert_eq!(user_id, 7);
            assert_eq!(msg, "hi");
        }
        _ => panic!("bound chat must route"),
    }
    // Oversize chat is dropped at the door.
    assert!(route_inbound::<u32>(
        3,
        Some(7),
        Inbound::SendMessage {
            msg: "x".repeat(301)
        }
    )
    .is_none());
    // Login and register route regardless of binding.
    match route_inbound::<u32>(
        3,
        None,
        Inbound::Login {
            username: "alice".to_string(),
            password: "pw".to_string(),
        },
    ) {
        Some(Message::Login { id, username, .. }) => {
            assert_eq!(id, 3);
            assert_eq!(username, "alice");
        }
        _ => panic!("login must route"),
    }
    match route_inbound::<u32>(
        4,
        Some(9),
        Inbound::Register {
            username: "bob".to_string(),
            password: "pw".to_string(),
        },
    ) {
        Some(Message::Register { id, username, .. }) => {
            assert_eq!(id, 4);
            assert_eq!(username, "bob");
        }
        _ => panic!("register must route"),
    }
}
