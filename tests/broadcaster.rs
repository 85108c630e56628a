use kseri::broadcaster::{
    batch_step, route_batch, BatchEvent, BroadcastMessage, BroadcastTarget, MessageBatch, MessagePriority,
    MAX_BATCH_SIZE,
};
use kseri::messages::ServerMessage;
use kseri::session::SessionManager;

#[test]
fn test_message_batch() {
    let mut batch = MessageBatch::new(0);

    let msg = BroadcastMessage {
        target: BroadcastTarget::Single(0x1234_5678_9abc_def0_1234_5678_9abc_def0),
        message: ServerMessage::Pong,
        priority: MessagePriority::Normal,
    };

    assert!(batch.add(msg.clone()));
    assert_eq!(batch.messages.len(), 1);

    for _ in 1..MAX_BATCH_SIZE {
        assert!(batch.add(msg.clone()));
    }

    assert!(!batch.add(msg.clone()));
    assert_eq!(batch.messages.len(), MAX_BATCH_SIZE);
}

#[test]
fn test_priority_ordering() {
    let low = MessagePriority::Low;
    let normal = MessagePriority::Normal;
    let high = MessagePriority::High;
    let critical = MessagePriority::Critical;

    assert!(low < normal);
    assert!(normal < high);
    assert!(high < critical);
}

fn queued(target: BroadcastTarget, message: ServerMessage, priority: MessagePriority) -> BroadcastMessage {
    BroadcastMessage { target, message, priority }
}

#[test]
fn batch_flush_rules() {
    let mut batch = MessageBatch::new(1000);
    assert!(!batch.should_send(5000));
    batch.add(queued(BroadcastTarget::Single(1), ServerMessage::Pong, MessagePriority::Normal));
    assert!(!batch.should_send(1009));
    assert!(batch.should_send(1010));
    batch.add(queued(BroadcastTarget::Single(1), ServerMessage::Pong, MessagePriority::High));
    assert!(batch.should_send(1001));
    assert_eq!(batch.take_messages().len(), 2);
    assert!(MessagePriority::Critical.is_urgent());
    assert!(!MessagePriority::Normal.is_urgent());
    assert_eq!(MessagePriority::Critical.rank(), 3);
}

#[test]
fn routing_groups_by_connection_in_order() {
    let sessions = SessionManager::new();
    let batch = vec![
        queued(BroadcastTarget::Single(7), ServerMessage::Pong, MessagePriority::Normal),
        queued(BroadcastTarget::Multiple(vec![8, 7]), ServerMessage::WaitingForOpponent, MessagePriority::Low),
        queued(BroadcastTarget::All, ServerMessage::OpponentReconnected, MessagePriority::Normal),
        queued(BroadcastTarget::Session(99), ServerMessage::OpponentReconnected, MessagePriority::Normal),
        queued(BroadcastTarget::Single(8), ServerMessage::Error { message: "x".to_string() }, MessagePriority::Critical),
    ];
    let groups = route_batch(batch, &sessions);
    assert_eq!(groups.len(), 2);
    assert_eq!(groups[0].0, 7);
    assert_eq!(groups[0].1, vec![ServerMessage::Pong, ServerMessage::WaitingForOpponent]);
    assert_eq!(groups[1].0, 8);
    assert_eq!(
        groups[1].1,
        vec![ServerMessage::WaitingForOpponent, ServerMessage::Error { message: "x".to_string() }]
    );
}

#[test]
fn routing_expands_a_session_to_its_connected_seats() {
    let mut sessions = SessionManager::new();
    sessions.join_or_create_game(1, "A".to_string(), 0).unwrap();
    let (sid, _, _) = sessions.join_or_create_game(2, "B".to_string(), 0).unwrap();
    let groups = route_batch(
        vec![queued(BroadcastTarget::Session(sid), ServerMessage::Pong, MessagePriority::Normal)],
        &sessions,
    );
    assert_eq!(groups, vec![(1, vec![ServerMessage::Pong]), (2, vec![ServerMessage::Pong])]);
    sessions.handle_player_disconnect(sid, 2, 10);
    let groups = route_batch(
        vec![queued(BroadcastTarget::Session(sid), ServerMessage::Pong, MessagePriority::Normal)],
        &sessions,
    );
    assert_eq!(groups, vec![(1, vec![ServerMessage::Pong])]);
}

#[test]
fn batch_steps_queue_flush_and_spill() {
    let normal = queued(BroadcastTarget::Single(1), ServerMessage::Pong, MessagePriority::Normal);
    let urgent = queued(BroadcastTarget::Single(2), ServerMessage::Pong, MessagePriority::Critical);

    let (b, out) = batch_step(MessageBatch::new(0), BatchEvent::Received(normal.clone()), 1);
    assert!(out.is_none());
    assert_eq!(b.messages.len(), 1);
    assert_eq!(b.created_at, 0);

    let (b, out) = batch_step(b, BatchEvent::Tick, 5);
    assert!(out.is_none());
    let (b, out) = batch_step(b, BatchEvent::Tick, 10);
    assert_eq!(out.unwrap().len(), 1);
    assert!(b.messages.is_empty());
    assert_eq!(b.created_at, 10);

    let (b, _) = batch_step(b, BatchEvent::Received(normal.clone()), 11);
    let (b, out) = batch_step(b, BatchEvent::Received(urgent.clone()), 12);
    let flushed = out.unwrap();
    assert_eq!(flushed.len(), 2);
    assert_eq!(flushed[1].priority, MessagePriority::Critical);
    assert!(b.messages.is_empty());

    let mut full = MessageBatch::new(20);
    for _ in 0..MAX_BATCH_SIZE {
        full.add(normal.clone());
    }
    let (b, out) = batch_step(full, BatchEvent::Received(normal.clone()), 21);
    assert_eq!(out.unwrap().len(), MAX_BATCH_SIZE);
    assert_eq!(b.messages.len(), 1);
    assert_eq!(b.created_at, 21);
}
