use kseri::connection::{Connection, ConnectionManager, CLIENT_TIMEOUT_MS};

#[test]
fn registry_add_get_remove() {
    let mut reg: ConnectionManager<u8> = ConnectionManager::new();
    reg.add_connection(1, Connection::new(1, 10, 0));
    reg.add_connection(2, Connection::new(2, 20, 0));
    assert_eq!(reg.get_connections_count(), 2);
    assert_eq!(reg.get_connection(2).unwrap().tx, 20);
    reg.add_connection(2, Connection::new(2, 21, 5));
    assert_eq!(reg.get_connections_count(), 2);
    assert_eq!(reg.get_connection(2).unwrap().tx, 21);
    assert!(reg.set_session(1, Some(99)));
    assert!(reg.set_player_name(1, Some("A".to_string())));
    assert_eq!(reg.get_connection(1).unwrap().session_id, Some(99));
    assert_eq!(reg.session_of(1), Some(99));
    assert_eq!(reg.session_of(2), None);
    assert!(!reg.set_session(3, None));
    if let Some(c) = reg.get_connection_mut(2) {
        c.last_ping = 500;
    }
    assert_eq!(reg.get_connection(2).unwrap().last_ping, 500);
    assert!(reg.get_connection_mut(7).is_none());
    let gone = reg.remove_connection(1).unwrap();
    assert_eq!(gone.player_name, Some("A".to_string()));
    assert!(reg.remove_connection(1).is_none());
    assert_eq!(reg.get_connections_count(), 1);
}

#[test]
fn silent_connections_time_out() {
    let mut reg: ConnectionManager<()> = ConnectionManager::new();
    reg.add_connection(1, Connection::new(1, (), 0));
    reg.add_connection(2, Connection::new(2, (), 0));
    reg.add_connection(3, Connection::new(3, (), 0));
    assert!(reg.touch(2, 1000));
    assert!(reg.cleanup_timed_out(CLIENT_TIMEOUT_MS).is_empty());
    let dropped = reg.cleanup_timed_out(CLIENT_TIMEOUT_MS + 1);
    assert_eq!(dropped, vec![1, 3]);
    assert_eq!(reg.get_connections_count(), 1);
    let mut c = Connection::new(9, (), 0);
    assert!(!c.is_timed_out(CLIENT_TIMEOUT_MS));
    c.update_ping(10);
    assert!(!c.is_timed_out(CLIENT_TIMEOUT_MS + 1));
    assert!(c.is_timed_out(CLIENT_TIMEOUT_MS + 11));
}
