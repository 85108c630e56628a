use kseri::card::{Card, PlayerId, Rank, Suit};
use kseri::connection::{Connection, ConnectionManager};
use kseri::handler::{handle_client_message, handle_disconnect};
use kseri::messages::{ClientMessage, ServerMessage};
use kseri::session::SessionManager;

const A: u128 = 100;
const B: u128 = 200;

fn setup() -> (SessionManager, ConnectionManager<()>) {
    let mut reg = ConnectionManager::new();
    reg.add_connection(A, Connection::new(A, (), 0));
    reg.add_connection(B, Connection::new(B, (), 0));
    (SessionManager::new(), reg)
}

fn join(s: &mut SessionManager, r: &mut ConnectionManager<()>, conn: u128, name: &str) -> Vec<(u128, ServerMessage)> {
    handle_client_message(s, r, conn, ClientMessage::JoinQueue { player_name: name.to_string() }, 1)
}

#[test]
fn ping_gets_pong_and_refreshes() {
    let (mut s, mut r) = setup();
    let out = handle_client_message(&mut s, &mut r, A, ClientMessage::Ping, 42);
    assert_eq!(out, vec![(A, ServerMessage::Pong)]);
    assert_eq!(r.get_connection(A).unwrap().last_ping, 42);
}

#[test]
fn unbound_requests_are_answered_with_error() {
    let (mut s, mut r) = setup();
    let err = ServerMessage::Error { message: "Not in a game session".to_string() };
    assert_eq!(handle_client_message(&mut s, &mut r, A, ClientMessage::RequestState, 1), vec![(A, err.clone())]);
    let play = ClientMessage::PlayCard { card: Card::new(Suit::Clubs, Rank::Two) };
    assert_eq!(handle_client_message(&mut s, &mut r, A, play, 1), vec![(A, err)]);
}

#[test]
fn join_flow_waits_then_starts() {
    let (mut s, mut r) = setup();
    let out = join(&mut s, &mut r, A, "A");
    assert_eq!(out.len(), 2);
    assert!(matches!(&out[0], (A, ServerMessage::Connected { player_id: PlayerId(0), .. })));
    assert_eq!(out[1], (A, ServerMessage::WaitingForOpponent));
    assert_eq!(r.get_connection(A).unwrap().player_name, Some("A".to_string()));

    let out = join(&mut s, &mut r, B, "B");
    assert_eq!(out.len(), 3);
    assert!(matches!(&out[0], (B, ServerMessage::Connected { player_id: PlayerId(1), .. })));
    assert!(matches!(&out[1], (A, ServerMessage::GameStarted { your_turn: true, .. })));
    assert!(matches!(&out[2], (B, ServerMessage::GameStarted { your_turn: false, .. })));
    let sid = r.session_of(B).unwrap();
    assert_eq!(s.connection_to_session.get(&A), Some(&sid));
    assert_eq!(s.connection_to_session.get(&B), Some(&sid));

    let again = join(&mut s, &mut r, B, "B");
    assert_eq!(
        again,
        vec![(B, ServerMessage::Error { message: "Failed to join game: Already in a game session".to_string() })]
    );
}

#[test]
fn play_and_state_through_the_handler() {
    let (mut s, mut r) = setup();
    join(&mut s, &mut r, A, "A");
    join(&mut s, &mut r, B, "B");
    let state = handle_client_message(&mut s, &mut r, A, ClientMessage::RequestState, 2);
    assert!(matches!(&state[0], (A, ServerMessage::StateUpdate { your_turn: true, hand_count: 4, .. })));

    let sid = *s.connection_to_session.get(&A).unwrap();
    let idx = s.sessions.iter().position(|x| x.id == sid).unwrap();
    let b_card = s.sessions[idx].game_state.player_hands[1][0];
    let out = handle_client_message(&mut s, &mut r, B, ClientMessage::PlayCard { card: b_card }, 3);
    assert_eq!(out, vec![(B, ServerMessage::InvalidMove { reason: "Not your turn".to_string() })]);

    let a_card = s.sessions[idx].game_state.player_hands[0][0];
    let out = handle_client_message(&mut s, &mut r, A, ClientMessage::PlayCard { card: a_card }, 4);
    assert!(matches!(&out[0], (A, ServerMessage::CardPlayed { player: PlayerId(0), .. })));
    assert!(matches!(&out[1], (B, ServerMessage::CardPlayed { player: PlayerId(0), .. })));
    assert_eq!(s.sessions[idx].game_state.current_turn, PlayerId(1));
}

#[test]
fn disconnect_and_reconnect_through_the_handler() {
    let (mut s, mut r) = setup();
    join(&mut s, &mut r, A, "A");
    let out = join(&mut s, &mut r, B, "B");
    let token = match &out[0] {
        (_, ServerMessage::Connected { session_token, .. }) => session_token.clone(),
        other => panic!("unexpected {:?}", other),
    };
    let notice = handle_disconnect(&mut s, &mut r, B, 10);
    assert_eq!(notice, vec![(A, ServerMessage::OpponentDisconnected { timeout_seconds: 30 })]);
    assert!(r.get_connection(B).is_none());

    let b2: u128 = 300;
    r.add_connection(b2, Connection::new(b2, (), 20));
    let out = handle_client_message(&mut s, &mut r, b2, ClientMessage::Reconnect { session_token: token.clone() }, 20);
    assert_eq!(out.len(), 3);
    assert_eq!(out[0], (b2, ServerMessage::Connected { player_id: PlayerId(1), session_token: token }));
    assert!(matches!(&out[1], (300, ServerMessage::StateUpdate { .. })));
    assert_eq!(out[2], (A, ServerMessage::OpponentReconnected));

    let bad = handle_client_message(&mut s, &mut r, b2, ClientMessage::Reconnect { session_token: "x".to_string() }, 21);
    assert_eq!(
        bad,
        vec![(b2, ServerMessage::Error { message: "Failed to reconnect: Invalid session token".to_string() })]
    );
    assert!(handle_disconnect(&mut s, &mut r, 999, 22).is_empty());
}
