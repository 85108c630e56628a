use kseri::card::{Card, PlayerId, Rank, Suit};
use kseri::messages::ServerMessage;
use kseri::session::{GameSession, SessionManager, RECONNECT_TIMEOUT_MS, SESSION_TIMEOUT_MS, WAITING_TIMEOUT_MS};

const A: u128 = 0xa;
const B: u128 = 0xb;

fn paired(now: u64) -> (SessionManager, u128, String, String) {
    let mut m = SessionManager::new();
    let (_, _, t1) = m.join_or_create_game(A, "A".to_string(), now).unwrap();
    let (sid, _, t2) = m.join_or_create_game(B, "B".to_string(), now).unwrap();
    (m, sid, t1, t2)
}

#[test]
fn pairing_scenario() {
    let mut m = SessionManager::new();
    let (sid_a, pid_a, t1) = m.join_or_create_game(A, "A".to_string(), 0).unwrap();
    assert_eq!(pid_a, PlayerId(0));
    assert!(!t1.is_empty());
    assert!(m.check_game_ready(sid_a, 0).is_none());

    let (sid, pid_b, t2) = m.join_or_create_game(B, "B".to_string(), 5).unwrap();
    assert_eq!(pid_b, PlayerId(1));
    assert_ne!(t1, t2);
    let msgs = m.check_game_ready(sid, 5).unwrap();
    assert_eq!(msgs.len(), 2);
    match &msgs[0] {
        (conn, ServerMessage::GameStarted { opponent_name, your_turn, initial_hand, table_cards }) => {
            assert_eq!(*conn, A);
            assert_eq!(opponent_name, "B");
            assert!(*your_turn);
            assert_eq!(initial_hand.len(), 4);
            assert_eq!(table_cards.len(), 4);
        },
        other => panic!("unexpected {:?}", other),
    }
    match &msgs[1] {
        (conn, ServerMessage::GameStarted { opponent_name, your_turn, initial_hand, table_cards }) => {
            assert_eq!(*conn, B);
            assert_eq!(opponent_name, "A");
            assert!(!*your_turn);
            assert_eq!(initial_hand.len(), 4);
            assert_eq!(table_cards.len(), 4);
        },
        other => panic!("unexpected {:?}", other),
    }
    assert_eq!(m.waiting_queue.len(), 0);
}

#[test]
fn joining_twice_is_refused() {
    let mut m = SessionManager::new();
    m.join_or_create_game(A, "A".to_string(), 0).unwrap();
    let e = m.join_or_create_game(A, "A".to_string(), 1).err().unwrap();
    assert_eq!(e, "Already in a game session");
}

#[test]
fn tokens_are_session_id_dash_random_id() {
    let (m, sid, _, t2) = paired(0);
    assert_eq!(t2.len(), 73);
    assert_eq!(&t2[..36], uuid::Uuid::from_u128(sid).to_string());
    assert_eq!(&t2[36..37], "-");
    let s = &m.sessions[m.sessions.len() - 1];
    assert_eq!(s.get_player_by_token(&t2).unwrap().connection_id, B);
    let seat0 = s.players[0].as_ref().unwrap();
    let seat1 = s.players[1].as_ref().unwrap();
    assert_ne!(seat0.session_token, seat1.session_token);
    assert_eq!(s.get_player_by_token(&seat0.session_token).unwrap().connection_id, A);
    let ids: std::collections::HashSet<u128> = m.sessions.iter().map(|x| x.id).collect();
    assert_eq!(ids.len(), m.sessions.len());
    assert!(s.get_player_by_token("nope").is_none());
}

#[test]
fn match_capture_scenario() {
    let (mut m, sid, _, _) = paired(0);
    let idx = m.sessions.len() - 1;
    {
        let g = &mut m.sessions[idx].game_state;
        let seven_h = Card::new(Suit::Hearts, Rank::Seven);
        let seven_d = Card::new(Suit::Diamonds, Rank::Seven);
        g.deck.retain(|x| *x != seven_h && *x != seven_d);
        g.player_hands[0].retain(|x| *x != seven_h && *x != seven_d);
        g.player_hands[1].retain(|x| *x != seven_h && *x != seven_d);
        g.table_cards.retain(|x| *x != seven_h && *x != seven_d);
        g.deck.extend(g.table_cards.drain(..));
        g.table_cards = vec![seven_h];
        let moved = g.player_hands[0].pop().unwrap();
        g.deck.push(moved);
        g.player_hands[0].insert(0, seven_d);
        while g.player_hands[0].len() < 4 {
            let x = g.deck.remove(0);
            g.player_hands[0].push(x);
        }
        while g.player_hands[1].len() < 4 {
            let x = g.deck.remove(0);
            g.player_hands[1].push(x);
        }
        assert!(g.validate_state().is_ok());
    }
    let msgs = m.play_card(sid, A, Card::new(Suit::Diamonds, Rank::Seven), 10).unwrap();
    let played = ServerMessage::CardPlayed {
        player: PlayerId(0),
        card: Card::new(Suit::Diamonds, Rank::Seven),
        captured_cards: vec![Card::new(Suit::Hearts, Rank::Seven), Card::new(Suit::Diamonds, Rank::Seven)],
        is_kseri: true,
    };
    assert_eq!(msgs[0], (A, played.clone()));
    assert_eq!(msgs[1], (B, played));
    assert_eq!(msgs.len(), 4);
    // 10 for the Kseri; two cards are far from a majority.
    assert!(matches!(msgs[2], (A, ServerMessage::StateUpdate { your_turn: false, your_score: 10, .. })));
    assert!(matches!(msgs[3], (B, ServerMessage::StateUpdate { your_turn: true, opponent_score: 10, .. })));
    let g = &m.sessions[idx].game_state;
    assert_eq!(g.kseri_count, [1, 0]);
    assert_eq!(g.player_scores[0].len(), 2);
    assert_eq!(g.current_turn, PlayerId(1));

    let a_card = g.player_hands[0][0];
    let e = m.play_card(sid, A, a_card, 11).err().unwrap();
    assert_eq!(e, "Not your turn");
    let e = m.play_card(sid, 0xdead, Card::new(Suit::Clubs, Rank::Two), 11).err().unwrap();
    assert_eq!(e, "Player not found in session");
    let e = m.play_card(12345, A, Card::new(Suit::Clubs, Rank::Two), 11).err().unwrap();
    assert_eq!(e, "Session not found");
}

#[test]
fn jack_sweep_scenario() {
    let (mut m, sid, _, _) = paired(0);
    let idx = m.sessions.len() - 1;
    let table = vec![
        Card::new(Suit::Hearts, Rank::Seven),
        Card::new(Suit::Clubs, Rank::King),
        Card::new(Suit::Diamonds, Rank::Three),
    ];
    let jack = Card::new(Suit::Spades, Rank::Jack);
    {
        let g = &mut m.sessions[idx].game_state;
        g.table_cards = table.clone();
        g.player_hands[0] = vec![jack, Card::new(Suit::Hearts, Rank::Two)];
    }
    let msgs = m.play_card(sid, A, jack, 10).unwrap();
    match &msgs[0].1 {
        ServerMessage::CardPlayed { captured_cards, is_kseri, .. } => {
            assert_eq!(captured_cards.len(), 4);
            assert!(!*is_kseri);
        },
        other => panic!("unexpected {:?}", other),
    }
    let g = &m.sessions[idx].game_state;
    assert_eq!(g.player_scores[0].len(), 4);
    assert!(g.table_cards.is_empty());
}

#[test]
fn disconnect_then_reconnect_scenario() {
    let (mut m, sid, _, t2) = paired(0);
    let note = m.handle_player_disconnect(sid, B, 1000).unwrap();
    assert_eq!(note, (A, ServerMessage::OpponentDisconnected { timeout_seconds: 30 }));

    let b2: u128 = 0xbb;
    let (rsid, pid, msgs) = m.reconnect_player(b2, t2.clone(), 1000 + RECONNECT_TIMEOUT_MS - 1).unwrap();
    assert_eq!(rsid, sid);
    assert_eq!(pid, PlayerId(1));
    assert_eq!(msgs[0], ServerMessage::Connected { player_id: PlayerId(1), session_token: t2 });
    assert_eq!(Some(msgs[1].clone()), m.get_state_for_player(sid, b2));
    assert_eq!(m.get_opponent_connection(sid, PlayerId(1)), Some(A));
    assert_eq!(m.get_opponent_connection(sid, PlayerId(0)), Some(b2));
    assert_eq!(m.connection_to_session.get(&b2), Some(&sid));
}

#[test]
fn grace_expiry_scenario() {
    let (mut m, sid, _, t2) = paired(0);
    m.handle_player_disconnect(sid, B, 1000);
    let e = m.reconnect_player(0xbb, t2.clone(), 1000 + RECONNECT_TIMEOUT_MS + 1).err().unwrap();
    assert_eq!(e, "Reconnection timeout expired");
    assert_eq!(m.get_opponent_connection(sid, PlayerId(0)), None);
    let e = m.reconnect_player(0xbb, "unknown".to_string(), 1000).err().unwrap();
    assert_eq!(e, "Invalid session token");

    m.cleanup_expired_sessions(SESSION_TIMEOUT_MS);
    assert!(m.sessions.iter().any(|s| s.id == sid));
    m.cleanup_expired_sessions(SESSION_TIMEOUT_MS + 1);
    assert!(m.sessions.is_empty());
    assert!(m.connection_to_session.is_empty());
}

#[test]
fn both_away_past_grace_expires() {
    let (mut m, sid, _, _) = paired(0);
    m.handle_player_disconnect(sid, A, 100);
    assert!(m.handle_player_disconnect(sid, B, 200).is_none());
    let s = m.sessions.iter().find(|s| s.id == sid).unwrap();
    assert!(!s.is_expired(200 + RECONNECT_TIMEOUT_MS));
    assert!(s.is_expired(200 + RECONNECT_TIMEOUT_MS + 1));
}

#[test]
fn waiting_entries_expire() {
    let mut m = SessionManager::new();
    m.join_or_create_game(A, "A".to_string(), 0).unwrap();
    m.cleanup_expired_sessions(WAITING_TIMEOUT_MS - 1);
    assert_eq!(m.waiting_queue.len(), 1);
    m.cleanup_expired_sessions(WAITING_TIMEOUT_MS);
    assert_eq!(m.waiting_queue.len(), 0);
}

#[test]
fn state_requests_repeat_exactly() {
    let (m, sid, _, _) = paired(0);
    let first = m.get_state_for_player(sid, A).unwrap();
    let second = m.get_state_for_player(sid, A).unwrap();
    assert_eq!(first, second);
    assert!(matches!(first, ServerMessage::StateUpdate { hand_count: 4, opponent_hand_count: 4, deck_remaining: 40, your_turn: true, .. }));
}

#[test]
fn game_end_scenario_with_majority() {
    let (mut m, sid, _, _) = paired(0);
    let idx = m.sessions.len() - 1;
    let deck = kseri::deck::Deck::new().cards;
    let last = deck[51];
    {
        let g = &mut m.sessions[idx].game_state;
        g.deck = Vec::new();
        g.table_cards = vec![deck[50]];
        g.player_hands = [vec![last], Vec::new()];
        g.player_scores = [deck[..26].to_vec(), deck[26..50].to_vec()];
        g.current_turn = PlayerId(0);
        g.last_capture_player = Some(PlayerId(0));
        g.kseri_count = [0, 0];
        assert!(g.validate_state().is_ok());
    }
    // King of Spades on the Queen of Spades: no capture; the game ends and the last capturer
    // takes the table, ending with 28 cards against 24.
    let msgs = m.play_card(sid, A, last, 10).unwrap();
    let g = &m.sessions[idx].game_state;
    assert!(g.game_over);
    assert_eq!(g.player_scores[0].len(), 28);
    assert_eq!(g.player_scores[1].len(), 24);
    let scores = g.calculate_scores();
    assert_eq!(scores, [1 + 1 + 3 + 1 + 3, 1 + 2 + 1]);
    assert_eq!(msgs.len(), 6);
    match &msgs[4] {
        (conn, ServerMessage::GameOver { winner, final_scores, captured_cards }) => {
            assert_eq!(*conn, A);
            assert_eq!(*winner, Some(PlayerId(0)));
            assert_eq!(*final_scores, scores);
            assert_eq!(captured_cards[0].len(), 28);
        },
        other => panic!("unexpected {:?}", other),
    }
}

#[test]
fn session_seats_and_events() {
    let mut s = GameSession::new(7);
    let (first, t0) = s.add_player(1, "x".to_string()).unwrap();
    let (second, _) = s.add_player(2, "y".to_string()).unwrap();
    assert_eq!((first, second), (PlayerId(0), PlayerId(1)));
    assert_eq!(s.add_player(3, "z".to_string()).err().unwrap(), "Game session is full");
    assert!(s.is_ready());
    assert_eq!(s.get_player_by_connection(2).unwrap().name, "y");
    assert_eq!(s.get_opponent(PlayerId(0)).unwrap().connection_id, 2);
    assert_eq!(s.get_player_by_token(&t0).unwrap().player_id, PlayerId(0));
    for i in 0..60u64 {
        s.add_event(kseri::messages::GameEventType::CardsDealt, i);
    }
    assert_eq!(s.event_history.len(), 50);
    assert_eq!(s.event_history[0].timestamp, 10);
    assert_eq!(s.last_activity, 59);
}
