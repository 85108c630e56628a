use vstd::prelude::*;
use crate::card::{Card, PlayerId, copy_cards};

verus! {

/// A message from a client.
#[derive(Debug, Clone, PartialEq, Eq)]
pub enum ClientMessage {
    JoinQueue { player_name: String },
    Reconnect { session_token: String },
    PlayCard { card: Card },
    RequestState,
    Ping,
}

/// A message to a client.
#[derive(Debug, Clone, PartialEq, Eq)]
pub enum ServerMessage {
    Connected { player_id: PlayerId, session_token: String },
    WaitingForOpponent,
    GameStarted {
        opponent_name: String,
        your_turn: bool,
        initial_hand: Vec<Card>,
        table_cards: Vec<Card>,
    },
    CardPlayed { player: PlayerId, card: Card, captured_cards: Vec<Card>, is_kseri: bool },
    NewCards { cards: Vec<Card> },
    StateUpdate {
        hand_count: u8,
        opponent_hand_count: u8,
        table_cards: Vec<Card>,
        your_score: u32,
        opponent_score: u32,
        deck_remaining: u8,
        your_turn: bool,
        last_capture_player: Option<PlayerId>,
    },
    InvalidMove { reason: String },
    OpponentDisconnected { timeout_seconds: u32 },
    OpponentReconnected,
    GameOver { winner: Option<PlayerId>, final_scores: [u32; 2], captured_cards: [Vec<Card>; 2] },
    Error { message: String },
    Pong,
}

/// The content of a `ServerMessage`, with texts and card lists as sequences.
pub enum MessageView {
    Connected { player_id: PlayerId, session_token: Seq<char> },
    WaitingForOpponent,
    GameStarted {
        opponent_name: Seq<char>,
        your_turn: bool,
        initial_hand: Seq<Card>,
        table_cards: Seq<Card>,
    },
    CardPlayed { player: PlayerId, card: Card, captured_cards: Seq<Card>, is_kseri: bool },
    NewCards { cards: Seq<Card> },
    StateUpdate {
        hand_count: u8,
        opponent_hand_count: u8,
        table_cards: Seq<Card>,
        your_score: u32,
        opponent_score: u32,
        deck_remaining: u8,
        your_turn: bool,
        last_capture_player: Option<PlayerId>,
    },
    InvalidMove { reason: Seq<char> },
    OpponentDisconnected { timeout_seconds: u32 },
    OpponentReconnected,
    GameOver { winner: Option<PlayerId>, final_scores: [u32; 2], captured_cards: Seq<Seq<Card>> },
    Error { message: Seq<char> },
    Pong,
}

impl View for ServerMessage {
    type V = MessageView;

    open spec fn view(&self) -> MessageView {
        match self {
            ServerMessage::Connected { player_id, session_token } => MessageView::Connected {
                player_id: *player_id,
                session_token: session_token@,
            },
            ServerMessage::WaitingForOpponent => MessageView::WaitingForOpponent,
            ServerMessage::GameStarted { opponent_name, your_turn, initial_hand, table_cards } =>
                MessageView::GameStarted {
                opponent_name: opponent_name@,
                your_turn: *your_turn,
                initial_hand: initial_hand@,
                table_cards: table_cards@,
            },
            ServerMessage::CardPlayed { player, card, captured_cards, is_kseri } =>
                MessageView::CardPlayed {
                player: *player,
                card: *card,
                captured_cards: captured_cards@,
                is_kseri: *is_kseri,
            },
            ServerMessage::NewCards { cards } => MessageView::NewCards { cards: cards@ },
            ServerMessage::StateUpdate {
                hand_count,
                opponent_hand_count,
                table_cards,
                your_score,
                opponent_score,
                deck_remaining,
                your_turn,
                last_capture_player,
            } => MessageView::StateUpdate {
                hand_count: *hand_count,
                opponent_hand_count: *opponent_hand_count,
                table_cards: table_cards@,
                your_score: *your_score,
                opponent_score: *opponent_score,
                deck_remaining: *deck_remaining,
                your_turn: *your_turn,
                last_capture_player: *last_capture_player,
            },
            ServerMessage::InvalidMove { reason } => MessageView::InvalidMove { reason: reason@ },
            ServerMessage::OpponentDisconnected { timeout_seconds } =>
                MessageView::OpponentDisconnected { timeout_seconds: *timeout_seconds },
            ServerMessage::OpponentReconnected => MessageView::OpponentReconnected,
            ServerMessage::GameOver { winner, final_scores, captured_cards } =>
                MessageView::GameOver {
                winner: *winner,
                final_scores: *final_scores,
                captured_cards: seq![captured_cards[0]@, captured_cards[1]@],
            },
            ServerMessage::Error { message } => MessageView::Error { message: message@ },
            ServerMessage::Pong => MessageView::Pong,
        }
    }
}

impl ServerMessage {
    /// A copy of the message with the same content.
    pub fn duplicate(&self) -> (r: ServerMessage)
        ensures
            r@ == self@,
    {
        match self {
            ServerMessage::Connected { player_id, session_token } => ServerMessage::Connected {
                player_id: *player_id,
                session_token: session_token.clone(),
            },
            ServerMessage::WaitingForOpponent => ServerMessage::WaitingForOpponent,
            ServerMessage::GameStarted { opponent_name, your_turn, initial_hand, table_cards } =>
                ServerMessage::GameStarted {
                opponent_name: opponent_name.clone(),
                your_turn: *your_turn,
                initial_hand: copy_cards(initial_hand),
                table_cards: copy_cards(table_cards),
            },
            ServerMessage::CardPlayed { player, card, captured_cards, is_kseri } =>
                ServerMessage::CardPlayed {
                player: *player,
                card: *card,
                captured_cards: copy_cards(captured_cards),
                is_kseri: *is_kseri,
            },
            ServerMessage::NewCards { cards } => ServerMessage::NewCards { cards: copy_cards(cards) },
            ServerMessage::StateUpdate {
                hand_count,
                opponent_hand_count,
                table_cards,
                your_score,
                opponent_score,
                deck_remaining,
                your_turn,
                last_capture_player,
            } => ServerMessage::StateUpdate {
                hand_count: *hand_count,
                opponent_hand_count: *opponent_hand_count,
                table_cards: copy_cards(table_cards),
                your_score: *your_score,
                opponent_score: *opponent_score,
                deck_remaining: *deck_remaining,
                your_turn: *your_turn,
                last_capture_player: *last_capture_player,
            },
            ServerMessage::InvalidMove { reason } => ServerMessage::InvalidMove { reason: reason.clone() },
            ServerMessage::OpponentDisconnected { timeout_seconds } =>
                ServerMessage::OpponentDisconnected { timeout_seconds: *timeout_seconds },
            ServerMessage::OpponentReconnected => ServerMessage::OpponentReconnected,
            ServerMessage::GameOver { winner, final_scores, captured_cards } => {
                let r = ServerMessage::GameOver {
                    winner: *winner,
                    final_scores: *final_scores,
                    captured_cards: [copy_cards(&captured_cards[0]), copy_cards(&captured_cards[1])],
                };
                r
            },
            ServerMessage::Error { message } => ServerMessage::Error { message: message.clone() },
            ServerMessage::Pong => ServerMessage::Pong,
        }
    }
}

/// What happened in a session, kept for diagnostics.
#[derive(Debug, Clone)]
pub enum GameEventType {
    PlayerJoined(PlayerId, String),
    PlayerDisconnected(PlayerId),
    PlayerReconnected(PlayerId),
    CardPlayed(PlayerId, Card),
    CardsDealt,
    GameEnded(Option<PlayerId>),
}

/// An event with the session it belongs to and its time in milliseconds.
#[derive(Debug, Clone)]
pub struct GameEvent {
    pub session_id: u128,
    pub event_type: GameEventType,
    pub timestamp: u64,
}

} // verus!
