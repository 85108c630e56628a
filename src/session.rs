use vstd::prelude::*;
use vstd::string::StringExecFns;
use std::collections::HashMap;
use crate::card::{Card, PlayerId, copy_cards};
use crate::game_engine::{
    GameModel, KseriGameState, captured_by, makes_kseri, play_model, score, winner,
    lemma_score_bounds,
};
use crate::messages::{GameEvent, GameEventType, MessageView, ServerMessage};
use crate::outside::{fresh_id, id_text, lemma_uuid_text_injective, uuid_text};

verus! {

broadcast use vstd::std_specs::hash::group_hash_axioms;

/// A player may rejoin within this many milliseconds of dropping.
pub const RECONNECT_TIMEOUT_MS: u64 = 30000;

/// The same grace window in whole seconds, as announced to the opponent.
pub const RECONNECT_TIMEOUT_SECS: u32 = 30;

/// A session is dropped this many milliseconds after it was created.
pub const SESSION_TIMEOUT_MS: u64 = 1800000;

/// A waiting entry is dropped this many milliseconds after it was queued.
pub const WAITING_TIMEOUT_MS: u64 = 300000;

/// At most this many events are kept per session.
pub const EVENT_HISTORY_LIMIT: usize = 50;

/// Milliseconds from `then` to `now`; zero when `then` lies ahead.
pub open spec fn elapsed(now: u64, then: u64) -> int {
    if now >= then {
        now - then
    } else {
        0
    }
}

/// The token of a seat: the session id's text, a dash, and the text of a second id.
pub open spec fn token_text(session: u128, nonce: u128) -> Seq<char> {
    uuid_text(session) + seq!['-'] + uuid_text(nonce)
}

/// One occupied seat of a session.
#[derive(Debug, Clone)]
pub struct Player {
    pub connection_id: u128,
    pub name: String,
    pub player_id: PlayerId,
    pub session_token: String,
    pub connected: bool,
    pub disconnected_at: Option<u64>,
}

/// Whether a seat is taken by the connection `conn`.
pub open spec fn seat_has_connection(seat: Option<Player>, conn: u128) -> bool {
    match seat {
        Some(p) => p.connection_id == conn,
        None => false,
    }
}

/// Whether a seat is taken by a player holding `token`.
pub open spec fn seat_has_token(seat: Option<Player>, token: Seq<char>) -> bool {
    match seat {
        Some(p) => p.session_token@ == token,
        None => false,
    }
}

/// Whether a seat is taken by a connected player.
pub open spec fn seat_connected(seat: Option<Player>) -> bool {
    match seat {
        Some(p) => p.connected,
        None => false,
    }
}

/// The first seat taken by `conn`.
pub open spec fn connection_seat(players: [Option<Player>; 2], conn: u128) -> Option<int> {
    if seat_has_connection(players[0], conn) {
        Some(0)
    } else if seat_has_connection(players[1], conn) {
        Some(1)
    } else {
        None
    }
}

/// The first seat whose player holds `token`.
pub open spec fn token_seat(players: [Option<Player>; 2], token: Seq<char>) -> Option<int> {
    if seat_has_token(players[0], token) {
        Some(0)
    } else if seat_has_token(players[1], token) {
        Some(1)
    } else {
        None
    }
}

/// A session between two seats and its game.
pub struct GameSession {
    pub id: u128,
    pub players: [Option<Player>; 2],
    pub game_state: KseriGameState,
    pub created_at: u64,
    pub last_activity: u64,
    pub event_history: Vec<GameEvent>,
}

/// The time of the later disconnection among the players present, if any disconnected.
pub open spec fn last_disconnect(players: [Option<Player>; 2]) -> Option<u64> {
    let d0 = match players[0] {
        Some(p) => p.disconnected_at,
        None => None,
    };
    let d1 = match players[1] {
        Some(p) => p.disconnected_at,
        None => None,
    };
    match (d0, d1) {
        (Some(a), Some(b)) => Some(if a >= b { a } else { b }),
        (Some(a), None) => Some(a),
        (None, Some(b)) => Some(b),
        (None, None) => None,
    }
}

/// Whether a session should be dropped at `now`: every present player has been away longer
/// than the grace window, or the session is older than its time to live.
pub open spec fn session_expired(s: GameSession, now: u64) -> bool {
    let all_away = !seat_connected(s.players[0]) && !seat_connected(s.players[1]);
    (all_away && match last_disconnect(s.players) {
        Some(t) => elapsed(now, t) > RECONNECT_TIMEOUT_MS,
        None => false,
    }) || elapsed(now, s.created_at) > SESSION_TIMEOUT_MS
}

/// A session as `GameSession::new` makes it at `now`: no players, no events, a freshly dealt
/// game with seat 0 to play.
pub open spec fn fresh_session(r: GameSession, now: u64) -> bool {
    &&& r.wf()
    &&& r.players[0].is_none()
    &&& r.players[1].is_none()
    &&& r.created_at == now
    &&& r.last_activity == now
    &&& r.event_history@.len() == 0
    &&& r.game_state@.deck.len() == 40
    &&& r.game_state@.table.len() == 4
    &&& r.game_state@.hands[0].len() == 4
    &&& r.game_state@.hands[1].len() == 4
    &&& r.game_state@.won[0].len() == 0
    &&& r.game_state@.won[1].len() == 0
    &&& r.game_state.current_turn == PlayerId(0)
    &&& r.game_state.last_capture_player.is_none()
    &&& !r.game_state.game_over
    &&& r.game_state.kseri_count == [0u32, 0u32]
}

impl GameSession {
    /// The session invariant: a valid game, each seat's player carries that seat's id, and
    /// the event history is bounded.
    pub open spec fn wf(&self) -> bool {
        &&& self.game_state.wf()
        &&& (self.players[0] matches Some(p) ==> p.player_id == PlayerId(0))
        &&& (self.players[1] matches Some(p) ==> p.player_id == PlayerId(1))
        &&& self.event_history@.len() <= EVENT_HISTORY_LIMIT
    }

    /// A session with no players around a fresh game, with a random id.
    pub fn new(now: u64) -> (r: GameSession)
        ensures
            fresh_session(r, now),
    {
        GameSession {
            id: fresh_id(),
            players: [None, None],
            game_state: KseriGameState::new(),
            created_at: now,
            last_activity: now,
            event_history: Vec::new(),
        }
    }

    /// Seats a player in the first free seat, with a token made from a random id.
    pub fn add_player(&mut self, connection_id: u128, name: String) -> (r: Result<(PlayerId, String), &'static str>)
        ensures
            exists|nonce: u128| Self::seated(*old(self), *final(self), connection_id, name, nonce, r),
    {
        let nonce = fresh_id();
        self.add_player_with_nonce(connection_id, name, nonce)
    }

    /// What `add_player_with_nonce` does, for a given second id.
    pub open spec fn seated(
        before: GameSession,
        after: GameSession,
        connection_id: u128,
        name: String,
        nonce: u128,
        r: Result<(PlayerId, String), &'static str>,
    ) -> bool {
        let slot: int = if before.players[0].is_none() {
            0
        } else {
            1
        };
        if before.players[0].is_some() && before.players[1].is_some() {
            &&& r matches Err(e) && e@ == "Game session is full"@
            &&& after == before
        } else {
            &&& r matches Ok((pid, token)) && pid == PlayerId(slot as u8) && token@ == token_text(
                before.id,
                nonce,
            ) && forall|other: u128| other != nonce ==> #[trigger] token_text(before.id, other) != token@
            &&& after.players[slot] matches Some(p) && p.connection_id == connection_id && p.name
                == name && p.player_id == PlayerId(slot as u8) && p.session_token@ == token_text(
                before.id,
                nonce,
            ) && p.connected && p.disconnected_at.is_none()
            &&& after.players[1 - slot] == before.players[1 - slot]
            &&& after.id == before.id
            &&& after.game_state == before.game_state
            &&& after.created_at == before.created_at
            &&& after.last_activity == before.last_activity
            &&& after.event_history == before.event_history
        }
    }

    /// Seats a player in the first free seat; the token is the session id's text, a dash and
    /// the text of `nonce`. Fails when both seats are taken.
    pub fn add_player_with_nonce(&mut self, connection_id: u128, name: String, nonce: u128) -> (r: Result<
        (PlayerId, String),
        &'static str,
    >)
        ensures
            Self::seated(*old(self), *final(self), connection_id, name, nonce, r),
            old(self).wf() ==> final(self).wf(),
    {
        proof {
            reveal_strlit("Game session is full");
        }
        let slot: usize = if self.players[0].is_none() {
            0
        } else if self.players[1].is_none() {
            1
        } else {
            return Err("Game session is full");
        };
        let player_id = PlayerId(slot as u8);
        let token = make_token(self.id, nonce);
        let kept = token.clone();
        self.players[slot] = Some(
            Player {
                connection_id,
                name,
                player_id,
                session_token: token,
                connected: true,
                disconnected_at: None,
            },
        );
        Ok((player_id, kept))
    }

    pub fn is_ready(&self) -> (r: bool)
        ensures
            r == (self.players[0].is_some() && self.players[1].is_some()),
    {
        self.players[0].is_some() && self.players[1].is_some()
    }

    /// The player seated by `connection_id`, if any.
    pub fn get_player_by_connection(&self, connection_id: u128) -> (r: Option<&Player>)
        ensures
            match connection_seat(self.players, connection_id) {
                Some(j) => r == Some(&self.players[j].unwrap()),
                None => r.is_none(),
            },
    {
        match &self.players[0] {
            Some(p) => {
                if p.connection_id == connection_id {
                    return Some(p);
                }
            },
            None => {},
        }
        match &self.players[1] {
            Some(p) => {
                if p.connection_id == connection_id {
                    return Some(p);
                }
            },
            None => {},
        }
        None
    }

    /// The player holding `token`, if any.
    pub fn get_player_by_token(&self, token: &str) -> (r: Option<&Player>)
        ensures
            match token_seat(self.players, token@) {
                Some(j) => r == Some(&self.players[j].unwrap()),
                None => r.is_none(),
            },
    {
        let wanted = String::from_str(token);
        match &self.players[0] {
            Some(p) => {
                if p.session_token.eq(&wanted) {
                    return Some(p);
                }
            },
            None => {},
        }
        match &self.players[1] {
            Some(p) => {
                if p.session_token.eq(&wanted) {
                    return Some(p);
                }
            },
            None => {},
        }
        None
    }

    /// The player in the other seat: seat 1 for seat 0, seat 0 otherwise.
    pub fn get_opponent(&self, player_id: PlayerId) -> (r: Option<&Player>)
        ensures
            r == if player_id.0 == 0 {
                match self.players[1] {
                    Some(p) => Some(&p),
                    None => None,
                }
            } else {
                match self.players[0] {
                    Some(p) => Some(&p),
                    None => None,
                }
            },
    {
        let idx: usize = if player_id.0 == 0 {
            1
        } else {
            0
        };
        self.players[idx].as_ref()
    }

    /// Records an event at `now`, keeping only the latest events.
    pub fn add_event(&mut self, event_type: GameEventType, now: u64)
        ensures
            final(self).event_history@ == if old(self).event_history@.len() + 1 > EVENT_HISTORY_LIMIT {
                old(self).event_history@.push(
                    GameEvent { session_id: old(self).id, event_type, timestamp: now },
                ).drop_first()
            } else {
                old(self).event_history@.push(GameEvent { session_id: old(self).id, event_type, timestamp: now })
            },
            final(self).last_activity == now,
            final(self).id == old(self).id,
            final(self).players == old(self).players,
            final(self).game_state == old(self).game_state,
            final(self).created_at == old(self).created_at,
            old(self).wf() ==> final(self).wf(),
    {
        let event = GameEvent { session_id: self.id, event_type, timestamp: now };
        self.event_history.push(event);
        if self.event_history.len() > EVENT_HISTORY_LIMIT {
            self.event_history.remove(0);
        }
        self.last_activity = now;
    }

    /// Whether the session should be dropped at `now`.
    pub fn is_expired(&self, now: u64) -> (r: bool)
        ensures
            r == session_expired(*self, now),
    {
        let c0 = match &self.players[0] {
            Some(p) => p.connected,
            None => false,
        };
        let c1 = match &self.players[1] {
            Some(p) => p.connected,
            None => false,
        };
        if !c0 && !c1 {
            let d0 = match &self.players[0] {
                Some(p) => p.disconnected_at,
                None => None,
            };
            let d1 = match &self.players[1] {
                Some(p) => p.disconnected_at,
                None => None,
            };
            let latest = match (d0, d1) {
                (Some(a), Some(b)) => Some(if a >= b { a } else { b }),
                (Some(a), None) => Some(a),
                (None, Some(b)) => Some(b),
                (None, None) => None,
            };
            match latest {
                Some(t) => {
                    if now >= t && now - t > RECONNECT_TIMEOUT_MS {
                        return true;
                    }
                },
                None => {},
            }
        }
        now >= self.created_at && now - self.created_at > SESSION_TIMEOUT_MS
    }
}

/// A connection waiting for an opponent.
pub struct WaitingPlayer {
    pub connection_id: u128,
    pub name: String,
    pub joined_at: u64,
}

/// `i` is the first position of a session with id `id`.
pub open spec fn is_first_session(ss: Seq<GameSession>, id: u128, i: int) -> bool {
    0 <= i < ss.len() && ss[i].id == id && forall|j: int| 0 <= j < i ==> ss[j].id != id
}

/// Position of the first session with id `id`, if any.
pub open spec fn session_index(ss: Seq<GameSession>, id: u128) -> Option<int> {
    if exists|i: int| is_first_session(ss, id, i) {
        Some(choose|i: int| is_first_session(ss, id, i))
    } else {
        None
    }
}

pub(crate) proof fn lemma_first_session(ss: Seq<GameSession>, id: u128, i: int)
    requires
        is_first_session(ss, id, i),
    ensures
        session_index(ss, id) == Some(i),
{
    let k = choose|k: int| is_first_session(ss, id, k);
    assert(is_first_session(ss, id, k));
    if k < i {
        assert(ss[k].id != id);
    } else if i < k {
        assert(ss[i].id != id);
    }
}

/// No two sessions share an id.
pub open spec fn distinct_ids(ss: Seq<GameSession>) -> bool {
    forall|a: int, b: int| 0 <= a < b < ss.len() ==> #[trigger] ss[a].id != #[trigger] ss[b].id
}

/// Whether some session has id `id`.
pub open spec fn id_in_use(ss: Seq<GameSession>, id: u128) -> bool {
    exists|i: int| 0 <= i < ss.len() && ss[i].id == id
}

/// With distinct ids, looking up a session's id finds that session.
pub proof fn lemma_lookup_own_id(ss: Seq<GameSession>, i: int)
    requires
        distinct_ids(ss),
        0 <= i < ss.len(),
    ensures
        session_index(ss, ss[i].id) == Some(i),
{
    assert forall|j: int| 0 <= j < i implies ss[j].id != ss[i].id by {}
    lemma_first_session(ss, ss[i].id, i);
}

/// Changing sessions without changing their ids keeps the ids distinct.
proof fn lemma_ids_kept(a: Seq<GameSession>, b: Seq<GameSession>)
    requires
        distinct_ids(a),
        a.len() == b.len(),
        forall|k: int| 0 <= k < a.len() ==> #[trigger] b[k].id == a[k].id,
    ensures
        distinct_ids(b),
{
    assert forall|x: int, y: int| 0 <= x < y < b.len() implies #[trigger] b[x].id != #[trigger] b[y].id by {
        assert(b[x].id == a[x].id && b[y].id == a[y].id);
    }
}

/// Adding a session with an unused id keeps the ids distinct.
proof fn lemma_ids_push(a: Seq<GameSession>, s: GameSession)
    requires
        distinct_ids(a),
        !id_in_use(a, s.id),
    ensures
        distinct_ids(a.push(s)),
{
    let b = a.push(s);
    assert forall|x: int, y: int| 0 <= x < y < b.len() implies #[trigger] b[x].id != #[trigger] b[y].id by {
        assert(b[x] == a[x]);
        if y < a.len() {
            assert(b[y] == a[y]);
        } else {
            assert(b[y] == s);
        }
    }
}

/// Outgoing messages with their contents as views.
pub open spec fn outbox_view(v: Seq<(u128, ServerMessage)>) -> Seq<(u128, MessageView)> {
    v.map_values(|e: (u128, ServerMessage)| (e.0, e.1@))
}

/// The personal view of a game for `seat`.
pub open spec fn state_view(m: GameModel, seat: int) -> MessageView {
    MessageView::StateUpdate {
        hand_count: m.hands[seat].len() as u8,
        opponent_hand_count: m.hands[1 - seat].len() as u8,
        table_cards: m.table,
        your_score: score(m, seat) as u32,
        opponent_score: score(m, 1 - seat) as u32,
        deck_remaining: m.deck.len() as u8,
        your_turn: m.turn == PlayerId(seat as u8),
        last_capture_player: m.last_capture,
    }
}

/// The start message for `seat`: the opponent's name, whether it is this seat's turn, its
/// hand and the table.
pub open spec fn started_view(s: GameSession, seat: int) -> MessageView {
    MessageView::GameStarted {
        opponent_name: s.players[1 - seat].unwrap().name@,
        your_turn: s.game_state.current_turn == PlayerId(seat as u8),
        initial_hand: s.game_state@.hands[seat],
        table_cards: s.game_state@.table,
    }
}

/// The same session, but for its event history and last activity.
pub open spec fn same_but_history(a: GameSession, b: GameSession) -> bool {
    &&& a.id == b.id
    &&& a.players == b.players
    &&& a.game_state == b.game_state
    &&& a.created_at == b.created_at
}

/// A freshly seated, connected player.
pub open spec fn seated_as(seat: Option<Player>, conn: u128, name: String, slot: int, token: Seq<char>) -> bool {
    seat matches Some(p) && p.connection_id == conn && p.name == name && p.player_id == PlayerId(
        slot as u8,
    ) && p.session_token@ == token && p.connected && p.disconnected_at.is_none()
}

/// The personal view for the connection `conn` of session `sid`, when it is seated there.
pub open spec fn state_request(ss: Seq<GameSession>, sid: u128, conn: u128) -> Option<MessageView> {
    match session_index(ss, sid) {
        Some(i) => match connection_seat(ss[i].players, conn) {
            Some(j) => Some(state_view(ss[i].game_state@, j)),
            None => None,
        },
        None => None,
    }
}

/// Whether some seat of the session holds `token`.
pub open spec fn holds_token(s: GameSession, token: Seq<char>) -> bool {
    token_seat(s.players, token).is_some()
}

/// `i` is the first position of a session with a seat holding `token`.
pub open spec fn is_first_token_session(ss: Seq<GameSession>, token: Seq<char>, i: int) -> bool {
    0 <= i < ss.len() && holds_token(ss[i], token) && forall|j: int| 0 <= j < i ==> !holds_token(ss[j], token)
}

/// Position of the first session with a seat holding `token`, if any.
pub open spec fn token_session(ss: Seq<GameSession>, token: Seq<char>) -> Option<int> {
    if exists|i: int| is_first_token_session(ss, token, i) {
        Some(choose|i: int| is_first_token_session(ss, token, i))
    } else {
        None
    }
}

proof fn lemma_first_token_session(ss: Seq<GameSession>, token: Seq<char>, i: int)
    requires
        is_first_token_session(ss, token, i),
    ensures
        token_session(ss, token) == Some(i),
{
    let k = choose|k: int| is_first_token_session(ss, token, k);
    assert(is_first_token_session(ss, token, k));
    if k < i {
        assert(!holds_token(ss[k], token));
    } else if i < k {
        assert(!holds_token(ss[i], token));
    }
}

/// One entry per connected seat, seat 0 first: `v0` for seat 0, `v1` for seat 1.
pub open spec fn connected_pair(players: [Option<Player>; 2], v0: MessageView, v1: MessageView) -> Seq<
    (u128, MessageView),
> {
    (if seat_connected(players[0]) {
        seq![(players[0].unwrap().connection_id, v0)]
    } else {
        Seq::empty()
    }) + (if seat_connected(players[1]) {
        seq![(players[1].unwrap().connection_id, v1)]
    } else {
        Seq::empty()
    })
}

/// Whether a play by `seat` empties both hands while cards remain, so that four more are dealt
/// to each seat.
pub open spec fn deals_after(m: GameModel, seat: int) -> bool {
    m.hands[seat].len() + m.hands[1 - seat].len() == 1 && m.deck.len() > 0
}

/// The end-of-game message for a finished game.
pub open spec fn game_over_view(m: GameModel) -> MessageView {
    MessageView::GameOver {
        winner: winner(m),
        final_scores: [score(m, 0) as u32, score(m, 1) as u32],
        captured_cards: m.won,
    }
}

/// The messages a legal play sends, in order: the play to every connected seat; the new
/// hands when cards were dealt; each seat's personal state; the result when the game ended.
pub open spec fn play_outbox(
    players: [Option<Player>; 2],
    before: GameModel,
    after: GameModel,
    seat: int,
    card: Card,
) -> Seq<(u128, MessageView)> {
    let played = MessageView::CardPlayed {
        player: PlayerId(seat as u8),
        card,
        captured_cards: captured_by(before.table, card),
        is_kseri: makes_kseri(before.table, card),
    };
    connected_pair(players, played, played) + (if deals_after(before, seat) {
        connected_pair(
            players,
            MessageView::NewCards { cards: after.hands[0] },
            MessageView::NewCards { cards: after.hands[1] },
        )
    } else {
        Seq::empty()
    }) + connected_pair(players, state_view(after, 0), state_view(after, 1)) + (if after.over {
        connected_pair(players, game_over_view(after), game_over_view(after))
    } else {
        Seq::empty()
    })
}

/// Appends one message per connected seat: `m0` for seat 0, `m1` for seat 1.
fn push_connected(
    out: &mut Vec<(u128, ServerMessage)>,
    players: &[Option<Player>; 2],
    m0: ServerMessage,
    m1: ServerMessage,
)
    ensures
        outbox_view(final(out)@) == outbox_view(old(out)@) + connected_pair(*players, m0@, m1@),
{
    let ghost start = out@;
    match &players[0] {
        Some(p) => {
            if p.connected {
                out.push((p.connection_id, m0));
            }
        },
        None => {},
    }
    let ghost mid = out@;
    proof {
        assert(outbox_view(mid) =~= outbox_view(start) + (if seat_connected(players[0]) {
            seq![(players[0].unwrap().connection_id, m0@)]
        } else {
            Seq::empty()
        }));
    }
    match &players[1] {
        Some(p) => {
            if p.connected {
                out.push((p.connection_id, m1));
            }
        },
        None => {},
    }
    proof {
        assert(outbox_view(out@) =~= outbox_view(start) + connected_pair(*players, m0@, m1@));
    }
}

/// The sessions that survive a cleanup at `now`, in order.
pub open spec fn live_sessions(ss: Seq<GameSession>, now: u64) -> Seq<GameSession> {
    ss.filter(|s: GameSession| !session_expired(s, now))
}

/// The waiting entries that survive a cleanup at `now`, in order.
pub open spec fn live_waiting(ws: Seq<WaitingPlayer>, now: u64) -> Seq<WaitingPlayer> {
    ws.filter(|w: WaitingPlayer| elapsed(now, w.joined_at) < WAITING_TIMEOUT_MS)
}

/// Whether `conn` is seated in a session that has expired at `now`.
pub open spec fn in_expired_session(ss: Seq<GameSession>, now: u64, conn: u128) -> bool {
    exists|i: int|
        0 <= i < ss.len() && session_expired(#[trigger] ss[i], now) && (seat_has_connection(ss[i].players[0], conn)
            || seat_has_connection(ss[i].players[1], conn))
}

/// The connections seated in sessions that have expired at `now`.
pub open spec fn expired_connections(ss: Seq<GameSession>, now: u64) -> Set<u128> {
    Set::new(|conn: u128| in_expired_session(ss, now, conn))
}

/// The effect of `play_card`.
pub open spec fn played(
    before: SessionManager,
    after: SessionManager,
    session_id: u128,
    connection_id: u128,
    card: Card,
    r: Result<Vec<(u128, ServerMessage)>, String>,
) -> bool {
    &&& after.waiting_queue == before.waiting_queue
    &&& after.connection_to_session == before.connection_to_session
    &&& after.sessions@.len() == before.sessions@.len()
    &&& match session_index(before.sessions@, session_id) {
        None => (r matches Err(e) && e@ == "Session not found"@) && after.sessions == before.sessions,
        Some(i) => {
            let s = before.sessions@[i];
            let g = s.game_state;
            match connection_seat(s.players, connection_id) {
                None => (r matches Err(e) && e@ == "Player not found in session"@)
                    && after.sessions == before.sessions,
                Some(j) => {
                    let legal = !g.game_over && g.current_turn == PlayerId(j as u8) && g@.hands[j].contains(card);
                    &&& (g.current_turn != PlayerId(j as u8) ==> (r matches Err(e) && e@ == "Not your turn"@))
                    &&& (g.current_turn == PlayerId(j as u8) && g.game_over ==> (r matches Err(e) && e@ == "Game is over"@))
                    &&& (g.current_turn == PlayerId(j as u8) && !g.game_over && !g@.hands[j].contains(card)
                        ==> (r matches Err(e) && e@ == "Card not in hand"@))
                    &&& (!legal ==> after.sessions@ == before.sessions@)
                    &&& (legal ==> {
                        let t = after.sessions@[i];
                        let next = play_model(g@, j, card);
                        &&& r matches Ok(msgs) && outbox_view(msgs@) == play_outbox(s.players, g@, next, j, card)
                        &&& t.game_state@ == next
                        &&& t.id == s.id && t.players == s.players && t.created_at == s.created_at
                        &&& forall|k: int| 0 <= k < before.sessions@.len() && k != i
                            ==> after.sessions@[k] == before.sessions@[k]
                    })
                },
            }
        },
    }
}

/// The effect of `reconnect_player`.
pub open spec fn reconnected(
    before: SessionManager,
    after: SessionManager,
    connection_id: u128,
    session_token: String,
    now: u64,
    r: Result<(u128, PlayerId, Vec<ServerMessage>), String>,
) -> bool {
    &&& after.waiting_queue == before.waiting_queue
    &&& match token_session(before.sessions@, session_token@) {
        None => (r matches Err(e) && e@ == "Invalid session token"@) && after == before,
        Some(i) => {
            let s = before.sessions@[i];
            let j = token_seat(s.players, session_token@).unwrap();
            let p = s.players[j].unwrap();
            if p.disconnected_at matches Some(t) && elapsed(now, t) > RECONNECT_TIMEOUT_MS {
                (r matches Err(e) && e@ == "Reconnection timeout expired"@) && after == before
            } else {
                let t = after.sessions@[i];
                &&& r matches Ok((sid, pid, msgs)) && sid == s.id && pid == PlayerId(j as u8)
                    && msgs@.map_values(|m: ServerMessage| m@) == seq![
                    MessageView::Connected { player_id: PlayerId(j as u8), session_token: session_token@ },
                    state_view(s.game_state@, j),
                ]
                &&& after.sessions@.len() == before.sessions@.len()
                &&& forall|k: int| 0 <= k < before.sessions@.len() && k != i
                    ==> after.sessions@[k] == before.sessions@[k]
                &&& t.id == s.id && t.game_state == s.game_state && t.created_at == s.created_at
                &&& t.players[1 - j] == s.players[1 - j]
                &&& t.players[j] == Some(Player { connection_id, connected: true, disconnected_at: None, ..p })
                &&& session_index(after.sessions@, s.id) == Some(i)
                &&& after.connection_to_session@ == before.connection_to_session@.insert(connection_id, s.id)
            }
        },
    }
}

/// The effect of `check_game_ready`.
pub open spec fn readied(
    before: SessionManager,
    after: SessionManager,
    session_id: u128,
    r: Option<Vec<(u128, ServerMessage)>>,
) -> bool {
    &&& after.waiting_queue == before.waiting_queue
    &&& after.connection_to_session == before.connection_to_session
    &&& after.sessions@.len() == before.sessions@.len()
    &&& match session_index(before.sessions@, session_id) {
        Some(i) => {
            let s = before.sessions@[i];
            if s.players[0].is_some() && s.players[1].is_some() {
                &&& r matches Some(msgs) && outbox_view(msgs@) == seq![
                    (s.players[0].unwrap().connection_id, started_view(s, 0)),
                    (s.players[1].unwrap().connection_id, started_view(s, 1)),
                ]
                &&& same_but_history(after.sessions@[i], s)
                &&& forall|j: int| 0 <= j < before.sessions@.len() && j != i
                    ==> after.sessions@[j] == before.sessions@[j]
            } else {
                r.is_none() && after.sessions == before.sessions
            }
        },
        None => r.is_none() && after.sessions == before.sessions,
    }
}

/// The effect of `handle_player_disconnect`.
pub open spec fn disconnected(
    before: SessionManager,
    after: SessionManager,
    session_id: u128,
    connection_id: u128,
    now: u64,
    r: Option<(u128, ServerMessage)>,
) -> bool {
    &&& after.waiting_queue == before.waiting_queue
    &&& after.sessions@.len() == before.sessions@.len()
    &&& match session_index(before.sessions@, session_id) {
        None => r.is_none() && after == before,
        Some(i) => {
            let s = before.sessions@[i];
            match connection_seat(s.players, connection_id) {
                None => r.is_none() && after == before,
                Some(j) => {
                    let p = s.players[j].unwrap();
                    let t = after.sessions@[i];
                    &&& t.players[j] == Some(Player { connected: false, disconnected_at: Some(now), ..p })
                    &&& t.players[1 - j] == s.players[1 - j]
                    &&& t.id == s.id && t.game_state == s.game_state && t.created_at == s.created_at
                    &&& forall|k: int| 0 <= k < before.sessions@.len() && k != i
                        ==> after.sessions@[k] == before.sessions@[k]
                    &&& after.connection_to_session@ == before.connection_to_session@.remove(connection_id)
                    &&& if seat_connected(s.players[1 - j]) {
                        r matches Some((c, m)) && c == s.players[1 - j].unwrap().connection_id
                            && m@ == (MessageView::OpponentDisconnected { timeout_seconds: RECONNECT_TIMEOUT_SECS })
                    } else {
                        r.is_none()
                    }
                },
            }
        },
    }
}

/// The connection of the opponent of `player_id` in session `session_id`, while connected.
pub open spec fn opponent_connection(ss: Seq<GameSession>, session_id: u128, player_id: PlayerId) -> Option<u128> {
    match session_index(ss, session_id) {
        Some(i) => {
            let other = if player_id.0 == 0 {
                ss[i].players[1]
            } else {
                ss[i].players[0]
            };
            match other {
                Some(p) => if p.connected {
                    Some(p.connection_id)
                } else {
                    None
                },
                None => None,
            }
        },
        None => None,
    }
}

/// The two seats' personal states mirror each other: hand counts and scores swap, the table,
/// the deck count and the last capturer agree, and exactly one of them has the turn.
pub proof fn lemma_state_views_mirror(m: GameModel)
    requires
        m.turn.0 < 2,
    ensures
        match (state_view(m, 0), state_view(m, 1)) {
            (
                MessageView::StateUpdate {
                    hand_count: h0,
                    opponent_hand_count: o0,
                    table_cards: t0,
                    your_score: y0,
                    opponent_score: s0,
                    deck_remaining: d0,
                    your_turn: w0,
                    last_capture_player: l0,
                },
                MessageView::StateUpdate {
                    hand_count: h1,
                    opponent_hand_count: o1,
                    table_cards: t1,
                    your_score: y1,
                    opponent_score: s1,
                    deck_remaining: d1,
                    your_turn: w1,
                    last_capture_player: l1,
                },
            ) => h1 == o0 && o1 == h0 && t1 == t0 && y1 == s0 && s1 == y0 && d1 == d0 && w1 == !w0 && l1 == l0,
            _ => false,
        },
{
}

/// Idempotence of state requests: the personal state is a function of the sessions alone, so
/// two requests with no change in between give equal messages.
pub proof fn lemma_state_request_idempotent(a: SessionManager, b: SessionManager, sid: u128, conn: u128)
    requires
        a.sessions@ == b.sessions@,
    ensures
        state_request(a.sessions@, sid, conn) == state_request(b.sessions@, sid, conn),
{
}

/// Dropping sessions keeps the remaining ids distinct.
proof fn lemma_live_distinct(ss: Seq<GameSession>, now: u64)
    requires
        distinct_ids(ss),
    ensures
        distinct_ids(live_sessions(ss, now)),
    decreases ss.len(),
{
    broadcast use vstd::seq_lib::group_filter_ensures;
    if ss.len() > 0 {
        let pred = |s: GameSession| !session_expired(s, now);
        let init = ss.drop_last();
        assert(init.push(ss.last()) =~= ss);
        init.lemma_filter_push(ss.last(), pred);
        assert(distinct_ids(init)) by {
            assert forall|a: int, b: int| 0 <= a < b < init.len() implies #[trigger] init[a].id != #[trigger] init[b].id by {
                assert(init[a] == ss[a] && init[b] == ss[b]);
            }
        }
        lemma_live_distinct(init, now);
        let l = live_sessions(ss, now);
        let li = live_sessions(init, now);
        if pred(ss.last()) {
            assert forall|a: int, b: int| 0 <= a < b < l.len() implies #[trigger] l[a].id != #[trigger] l[b].id by {
                if b == l.len() - 1 {
                    let x = l[a];
                    assert(li[a] == x);
                    assert(li.contains(x));
                    init.lemma_filter_contains_rev(pred, x);
                    let k = choose|k: int| 0 <= k < init.len() && init[k] == x;
                    assert(ss[k] == x);
                    assert(l[b] == ss[ss.len() - 1]);
                } else {
                    assert(l[a] == li[a] && l[b] == li[b]);
                }
            }
        }
    }
}

/// The directory of sessions, the waiting queue and the index from connection to session.
pub struct SessionManager {
    pub sessions: Vec<GameSession>,
    pub waiting_queue: Vec<WaitingPlayer>,
    pub connection_to_session: HashMap<u128, u128>,
}

/// The personal state message for `player_id`.
fn state_message(game: &KseriGameState, player_id: PlayerId) -> (r: ServerMessage)
    requires
        game.wf(),
        player_id.0 < 2,
    ensures
        r@ == state_view(game@, player_id.0 as int),
{
    proof {
        lemma_score_bounds(game@);
    }
    let player_idx: usize = player_id.0 as usize;
    let opponent_idx: usize = 1 - player_idx;
    let scores = game.calculate_scores();
    ServerMessage::StateUpdate {
        hand_count: game.player_hands[player_idx].len() as u8,
        opponent_hand_count: game.player_hands[opponent_idx].len() as u8,
        table_cards: copy_cards(&game.table_cards),
        your_score: scores[player_idx],
        opponent_score: scores[opponent_idx],
        deck_remaining: game.deck.len() as u8,
        your_turn: game.current_turn == player_id,
        last_capture_player: game.last_capture_player,
    }
}

/// The effect of a join, for a given fresh session and two token ids.
pub open spec fn joined(
    before: SessionManager,
    after: SessionManager,
    connection_id: u128,
    player_name: String,
    now: u64,
    fresh: GameSession,
    nonce_first: u128,
    nonce_second: u128,
    r: Result<(u128, PlayerId, String), String>,
) -> bool {
    let sid = fresh.id;
    if before.connection_to_session@.contains_key(connection_id) {
        &&& r matches Err(e) && e@ == "Already in a game session"@
        &&& after == before
    } else if before.waiting_queue@.len() > 0 {
        let w = before.waiting_queue@[0];
        let s = after.sessions@.last();
        &&& r matches Ok((id, pid, token)) && id == sid && pid == PlayerId(1) && token@ == token_text(
            sid,
            nonce_second,
        )
        &&& after.waiting_queue@ == before.waiting_queue@.drop_first()
        &&& after.sessions@.len() == before.sessions@.len() + 1
        &&& after.sessions@.drop_last() == before.sessions@
        &&& seated_as(s.players[0], w.connection_id, w.name, 0, token_text(sid, nonce_first))
        &&& seated_as(s.players[1], connection_id, player_name, 1, token_text(sid, nonce_second))
        &&& s.players[0].unwrap().session_token@ != s.players[1].unwrap().session_token@
        &&& session_index(after.sessions@, sid) == Some(after.sessions@.len() - 1)
        &&& s.id == sid && s.game_state == fresh.game_state && s.created_at == fresh.created_at
        &&& after.connection_to_session@ == before.connection_to_session@.insert(w.connection_id, sid).insert(
            connection_id,
            sid,
        )
    } else {
        let s = after.sessions@.last();
        &&& r matches Ok((id, pid, token)) && id == sid && pid == PlayerId(0) && token@ == token_text(
            sid,
            nonce_first,
        )
        &&& after.waiting_queue@.len() == before.waiting_queue@.len() + 1
        &&& after.waiting_queue@.drop_last() == before.waiting_queue@
        &&& after.waiting_queue@.last().connection_id == connection_id
        &&& after.waiting_queue@.last().name == player_name
        &&& after.waiting_queue@.last().joined_at == now
        &&& after.sessions@.len() == before.sessions@.len() + 1
        &&& after.sessions@.drop_last() == before.sessions@
        &&& seated_as(s.players[0], connection_id, player_name, 0, token_text(sid, nonce_first))
        &&& s.players[1].is_none()
        &&& session_index(after.sessions@, sid) == Some(after.sessions@.len() - 1)
        &&& s.id == sid && s.game_state == fresh.game_state && s.created_at == fresh.created_at
        &&& after.connection_to_session@ == before.connection_to_session@.insert(connection_id, sid)
    }
}

impl SessionManager {
    /// Every session is well formed and no two sessions share an id.
    pub open spec fn wf(&self) -> bool {
        &&& forall|i: int| 0 <= i < self.sessions@.len() ==> (#[trigger] self.sessions@[i]).wf()
        &&& distinct_ids(self.sessions@)
    }

    pub fn new() -> (r: SessionManager)
        ensures
            r.wf(),
            r.sessions@.len() == 0,
            r.waiting_queue@.len() == 0,
            r.connection_to_session@ == Map::<u128, u128>::empty(),
    {
        SessionManager { sessions: Vec::new(), waiting_queue: Vec::new(), connection_to_session: HashMap::new() }
    }

    /// Position of the first session with id `id`.
    fn find_session(&self, id: u128) -> (r: Option<usize>)
        ensures
            match r {
                Some(i) => session_index(self.sessions@, id) == Some(i as int) && i < self.sessions@.len(),
                None => session_index(self.sessions@, id).is_none(),
            },
    {
        let mut i: usize = 0;
        while i < self.sessions.len()
            invariant
                i <= self.sessions@.len(),
                forall|j: int| 0 <= j < i ==> self.sessions@[j].id != id,
            decreases self.sessions@.len() - i,
        {
            if self.sessions[i].id == id {
                proof {
                    lemma_first_session(self.sessions@, id, i as int);
                }
                return Some(i);
            }
            i = i + 1;
        }
        None
    }

    /// Whether some session has id `id`.
    fn has_id(&self, id: u128) -> (r: bool)
        ensures
            r == id_in_use(self.sessions@, id),
    {
        let mut i: usize = 0;
        while i < self.sessions.len()
            invariant
                i <= self.sessions@.len(),
                forall|j: int| 0 <= j < i ==> self.sessions@[j].id != id,
            decreases self.sessions@.len() - i,
        {
            if self.sessions[i].id == id {
                return true;
            }
            i = i + 1;
        }
        false
    }

    /// An id no session has: `candidate` when it is free, else the least free value from 0 to
    /// the number of sessions (one of which is free, as there are more of them than sessions).
    fn unused_session_id(&self, candidate: u128) -> (r: u128)
        ensures
            !id_in_use(self.sessions@, r),
            !id_in_use(self.sessions@, candidate) ==> r == candidate,
    {
        if !self.has_id(candidate) {
            return candidate;
        }
        let n: u128 = self.sessions.len() as u128;
        let mut k: u128 = 0;
        while k <= n
            invariant
                n == self.sessions@.len(),
                n < 0xffff_ffff_ffff_ffff_ffff_ffff_ffff_ffffu128,
                id_in_use(self.sessions@, candidate),
                k <= n + 1,
                forall|x: u128| x < k ==> id_in_use(self.sessions@, x),
            decreases n + 1 - k,
        {
            if !self.has_id(k) {
                return k;
            }
            k = k + 1;
        }
        proof {
            let ids = self.sessions@.map_values(|s: GameSession| s.id as int);
            let range = vstd::set_lib::set_int_range(0, n as int + 1);
            vstd::set_lib::lemma_int_range(0, n as int + 1);
            ids.lemma_cardinality_of_set();
            vstd::seq_lib::seq_to_set_is_finite(ids);
            assert forall|x: int| range.contains(x) implies ids.to_set().contains(x) by {
                let y = x as u128;
                assert(id_in_use(self.sessions@, y));
                let j = choose|j: int| 0 <= j < self.sessions@.len() && self.sessions@[j].id == y;
                assert(ids[j] == x);
            }
            vstd::set_lib::lemma_len_subset(range, ids.to_set());
        }
        0
    }

    /// Joins the queue, or pairs with the connection waiting longest in a new session.
    ///
    /// Fails when the connection is already indexed to a session. When nobody waits, the
    /// connection takes seat 0 of a new session and waits; otherwise the waiting connection
    /// takes seat 0 and this one seat 1 of a new session.
    pub fn join_or_create_game(&mut self, connection_id: u128, player_name: String, now: u64) -> (r: Result<
        (u128, PlayerId, String),
        String,
    >)
        requires
            old(self).wf(),
        ensures
            final(self).wf(),
            exists|fresh: GameSession, n0: u128, n1: u128|
                fresh_session(fresh, now) && joined(*old(self), *final(self), connection_id, player_name, now, fresh, n0, n1, r),
    {
        let mut fresh = GameSession::new(now);
        fresh.id = self.unused_session_id(fresh.id);
        let n0 = fresh_id();
        let drawn = fresh_id();
        let n1 = if drawn != n0 {
            drawn
        } else if n0 < u128::MAX {
            n0 + 1
        } else {
            0
        };
        self.join_with_session(connection_id, player_name, now, fresh, n0, n1)
    }

    /// `join_or_create_game` with the new session and the token ids given.
    pub fn join_with_session(
        &mut self,
        connection_id: u128,
        player_name: String,
        now: u64,
        fresh: GameSession,
        nonce_first: u128,
        nonce_second: u128,
    ) -> (r: Result<(u128, PlayerId, String), String>)
        requires
            old(self).wf(),
            fresh.wf(),
            fresh.players[0].is_none(),
            fresh.players[1].is_none(),
            !id_in_use(old(self).sessions@, fresh.id),
            nonce_first != nonce_second,
        ensures
            final(self).wf(),
            joined(*old(self), *final(self), connection_id, player_name, now, fresh, nonce_first, nonce_second, r),
    {
        proof {
            reveal_strlit("Already in a game session");
        }
        if self.connection_to_session.contains_key(&connection_id) {
            return Err(String::from_str("Already in a game session"));
        }
        let mut session = fresh;
        let session_id = session.id;
        if self.waiting_queue.len() > 0 {
            let waiting = self.waiting_queue.remove(0);
            let waiting_conn = waiting.connection_id;
            let first = session.add_player_with_nonce(waiting_conn, waiting.name, nonce_first);
            let second = session.add_player_with_nonce(connection_id, player_name, nonce_second);
            let token = match second {
                Ok((_, t)) => t,
                Err(_) => String::new(),
            };
            self.sessions.push(session);
            self.connection_to_session.insert(waiting_conn, session_id);
            self.connection_to_session.insert(connection_id, session_id);
            proof {
                assert(self.sessions@.drop_last() =~= old(self).sessions@);
                assert forall|i: int| 0 <= i < self.sessions@.len() implies (#[trigger] self.sessions@[i]).wf() by {
                    if i < old(self).sessions@.len() {
                        assert(self.sessions@[i] == old(self).sessions@[i]);
                    }
                }
                assert(self.sessions@ =~= old(self).sessions@.push(self.sessions@.last()));
                lemma_ids_push(old(self).sessions@, self.sessions@.last());
                lemma_lookup_own_id(self.sessions@, self.sessions@.len() - 1);
            }
            Ok((session_id, PlayerId(1), token))
        } else {
            let kept_name = player_name.clone();
            self.waiting_queue.push(WaitingPlayer { connection_id, name: kept_name, joined_at: now });
            let first = session.add_player_with_nonce(connection_id, player_name, nonce_first);
            let token = match first {
                Ok((_, t)) => t,
                Err(_) => String::new(),
            };
            self.sessions.push(session);
            self.connection_to_session.insert(connection_id, session_id);
            proof {
                assert(self.sessions@.drop_last() =~= old(self).sessions@);
                assert(self.waiting_queue@.drop_last() =~= old(self).waiting_queue@);
                assert forall|i: int| 0 <= i < self.sessions@.len() implies (#[trigger] self.sessions@[i]).wf() by {
                    if i < old(self).sessions@.len() {
                        assert(self.sessions@[i] == old(self).sessions@[i]);
                    }
                }
                assert(self.sessions@ =~= old(self).sessions@.push(self.sessions@.last()));
                lemma_ids_push(old(self).sessions@, self.sessions@.last());
                lemma_lookup_own_id(self.sessions@, self.sessions@.len() - 1);
            }
            Ok((session_id, PlayerId(0), token))
        }
    }

    /// The start messages, one per seat, once both seats of session `session_id` are taken;
    /// none otherwise.
    pub fn check_game_ready(&mut self, session_id: u128, now: u64) -> (r: Option<Vec<(u128, ServerMessage)>>)
        requires
            old(self).wf(),
        ensures
            final(self).wf(),
            readied(*old(self), *final(self), session_id, r),
    {
        let idx = match self.find_session(session_id) {
            Some(i) => i,
            None => {
                return None;
            },
        };
        if !self.sessions[idx].is_ready() {
            return None;
        }
        let ghost s = self.sessions@[idx as int];
        let mut messages: Vec<(u128, ServerMessage)> = Vec::new();
        let mut seat: usize = 0;
        while seat < 2
            invariant
                seat <= 2,
                idx < self.sessions@.len(),
                self.sessions@ == old(self).sessions@,
                s == self.sessions@[idx as int],
                s.players[0].is_some() && s.players[1].is_some(),
                outbox_view(messages@) == seq![
                    (s.players[0].unwrap().connection_id, started_view(s, 0)),
                    (s.players[1].unwrap().connection_id, started_view(s, 1)),
                ].take(seat as int),
            decreases 2 - seat,
        {
            let session = &self.sessions[idx];
            let game = &session.game_state;
            let me = session.players[seat].as_ref().unwrap();
            let opponent = session.players[1 - seat].as_ref().unwrap();
            let msg = ServerMessage::GameStarted {
                opponent_name: opponent.name.clone(),
                your_turn: game.current_turn == PlayerId(seat as u8),
                initial_hand: copy_cards(&game.player_hands[seat]),
                table_cards: copy_cards(&game.table_cards),
            };
            let ghost before = messages@;
            messages.push((me.connection_id, msg));
            proof {
                assert(outbox_view(messages@) =~= outbox_view(before).push((me.connection_id, msg@)));
                assert(outbox_view(messages@) =~= seq![
                    (s.players[0].unwrap().connection_id, started_view(s, 0)),
                    (s.players[1].unwrap().connection_id, started_view(s, 1)),
                ].take(seat as int + 1));
            }
            seat = seat + 1;
        }
        proof {
            let expected = seq![
                (s.players[0].unwrap().connection_id, started_view(s, 0)),
                (s.players[1].unwrap().connection_id, started_view(s, 1)),
            ];
            assert(expected.take(2) =~= expected);
            assert(outbox_view(messages@) == expected);
        }
        let joined_name = self.sessions[idx].players[1].as_ref().unwrap().name.clone();
        self.sessions[idx].add_event(GameEventType::PlayerJoined(PlayerId(1), joined_name), now);
        proof {
            assert forall|i: int| 0 <= i < self.sessions@.len() implies (#[trigger] self.sessions@[i]).wf() by {
                if i != idx as int {
                    assert(self.sessions@[i] == old(self).sessions@[i]);
                }
            }
            assert forall|k: int| 0 <= k < self.sessions@.len() implies #[trigger] self.sessions@[k].id == old(self).sessions@[k].id by {
                if k != idx as int {
                    assert(self.sessions@[k] == old(self).sessions@[k]);
                }
            }
            lemma_ids_kept(old(self).sessions@, self.sessions@);
        }
        Some(messages)
    }

    /// Rebinds the seat holding `session_token` to `connection_id`.
    ///
    /// Fails when no seat holds the token, or when its player dropped more than the grace
    /// window ago. Otherwise returns the session, the seat and, in order, a `Connected`
    /// message and the seat's personal state.
    pub fn reconnect_player(&mut self, connection_id: u128, session_token: String, now: u64) -> (r: Result<
        (u128, PlayerId, Vec<ServerMessage>),
        String,
    >)
        requires
            old(self).wf(),
        ensures
            final(self).wf(),
            reconnected(*old(self), *final(self), connection_id, session_token, now, r),
    {
        proof {
            reveal_strlit("Invalid session token");
            reveal_strlit("Reconnection timeout expired");
        }
        let mut idx: usize = 0;
        let mut found: Option<usize> = None;
        while idx < self.sessions.len()
            invariant_except_break
                found.is_none(),
            invariant
                idx <= self.sessions@.len(),
                forall|k: int| 0 <= k < idx ==> !holds_token(self.sessions@[k], session_token@),
            ensures
                match found {
                    Some(i) => is_first_token_session(self.sessions@, session_token@, i as int),
                    None => forall|k: int| 0 <= k < self.sessions@.len() ==> !holds_token(self.sessions@[k], session_token@),
                },
            decreases self.sessions@.len() - idx,
        {
            if self.sessions[idx].get_player_by_token(session_token.as_str()).is_some() {
                found = Some(idx);
                break;
            }
            idx = idx + 1;
        }
        let i = match found {
            Some(i) => i,
            None => {
                proof {
                    if exists|k: int| is_first_token_session(self.sessions@, session_token@, k) {
                        let k = choose|k: int| is_first_token_session(self.sessions@, session_token@, k);
                        assert(!holds_token(self.sessions@[k], session_token@));
                    }
                }
                return Err(String::from_str("Invalid session token"));
            },
        };
        proof {
            lemma_first_token_session(self.sessions@, session_token@, i as int);
        }
        let j: usize = if self.sessions[i].players[0].is_some() && self.sessions[i].players[0].as_ref().unwrap().session_token.eq(&session_token) {
            0
        } else {
            1
        };
        let updated = {
            let p = self.sessions[i].players[j].as_ref().unwrap();
            match p.disconnected_at {
                Some(t) => {
                    if now >= t && now - t > RECONNECT_TIMEOUT_MS {
                        return Err(String::from_str("Reconnection timeout expired"));
                    }
                },
                None => {},
            }
            Player {
                connection_id,
                name: p.name.clone(),
                player_id: p.player_id,
                session_token: p.session_token.clone(),
                connected: true,
                disconnected_at: None,
            }
        };
        let player_id = updated.player_id;
        self.sessions[i].players[j] = Some(updated);
        let session_id = self.sessions[i].id;
        self.connection_to_session.insert(connection_id, session_id);
        let mut messages: Vec<ServerMessage> = Vec::new();
        messages.push(ServerMessage::Connected { player_id, session_token });
        proof {
            assert(self.sessions@[i as int].game_state.wf());
        }
        messages.push(state_message(&self.sessions[i].game_state, player_id));
        self.sessions[i].add_event(GameEventType::PlayerReconnected(player_id), now);
        proof {
            assert(messages@.map_values(|m: ServerMessage| m@) =~= seq![
                MessageView::Connected { player_id: PlayerId(j as u8), session_token: session_token@ },
                state_view(old(self).sessions@[i as int].game_state@, j as int),
            ]);
            assert forall|k: int| 0 <= k < self.sessions@.len() implies (#[trigger] self.sessions@[k]).wf() by {
                if k != i as int {
                    assert(self.sessions@[k] == old(self).sessions@[k]);
                }
            }
            assert forall|k: int| 0 <= k < self.sessions@.len() implies #[trigger] self.sessions@[k].id == old(self).sessions@[k].id by {
                if k != i as int {
                    assert(self.sessions@[k] == old(self).sessions@[k]);
                }
            }
            lemma_ids_kept(old(self).sessions@, self.sessions@);
            lemma_lookup_own_id(self.sessions@, i as int);
        }
        Ok((session_id, player_id, messages))
    }

    /// Plays `card` for the seat of `connection_id` in session `session_id`.
    ///
    /// Fails, changing nothing, when the session or the seat is not found or the game refuses
    /// the play (with the game's reason). Otherwise the game moves as `play_model` says and
    /// the messages are those of `play_outbox`.
    pub fn play_card(&mut self, session_id: u128, connection_id: u128, card: Card, now: u64) -> (r: Result<
        Vec<(u128, ServerMessage)>,
        String,
    >)
        requires
            old(self).wf(),
        ensures
            final(self).wf(),
            played(*old(self), *final(self), session_id, connection_id, card, r),
    {
        proof {
            reveal_strlit("Session not found");
            reveal_strlit("Player not found in session");
        }
        let idx = match self.find_session(session_id) {
            Some(i) => i,
            None => {
                return Err(String::from_str("Session not found"));
            },
        };
        let player_id = match self.sessions[idx].get_player_by_connection(connection_id) {
            Some(p) => p.player_id,
            None => {
                return Err(String::from_str("Player not found in session"));
            },
        };
        let ghost s = self.sessions@[idx as int];
        let ghost j = connection_seat(s.players, connection_id).unwrap();
        proof {
            assert(s.wf());
            assert(player_id == PlayerId(j as u8));
            lemma_score_bounds(s.game_state@);
        }
        let p_idx: usize = player_id.0 as usize;
        let other_idx: usize = 1 - p_idx;
        let will_deal = self.sessions[idx].game_state.player_hands[p_idx].len()
            + self.sessions[idx].game_state.player_hands[other_idx].len() == 1
            && self.sessions[idx].game_state.deck.len() > 0;
        let result = match self.sessions[idx].game_state.play_card(player_id, card) {
            Ok(res) => res,
            Err(e) => {
                proof {
                    assert(self.sessions@ =~= old(self).sessions@);
                }
                return Err(e);
            },
        };
        let ghost after = self.sessions@[idx as int].game_state@;
        proof {
            assert(self.sessions@[idx as int].game_state.wf());
            lemma_score_bounds(after);
        }
        let mut messages: Vec<(u128, ServerMessage)> = Vec::new();
        let session = &self.sessions[idx];
        let game = &session.game_state;
        push_connected(
            &mut messages,
            &session.players,
            ServerMessage::CardPlayed {
                player: player_id,
                card,
                captured_cards: copy_cards(&result.captured_cards),
                is_kseri: result.is_kseri,
            },
            ServerMessage::CardPlayed {
                player: player_id,
                card,
                captured_cards: copy_cards(&result.captured_cards),
                is_kseri: result.is_kseri,
            },
        );
        let ghost after_played = outbox_view(messages@);
        if will_deal {
            push_connected(
                &mut messages,
                &session.players,
                ServerMessage::NewCards { cards: copy_cards(&game.player_hands[0]) },
                ServerMessage::NewCards { cards: copy_cards(&game.player_hands[1]) },
            );
        }
        let ghost after_dealt = outbox_view(messages@);
        push_connected(
            &mut messages,
            &session.players,
            state_message(game, PlayerId(0)),
            state_message(game, PlayerId(1)),
        );
        let ghost after_state = outbox_view(messages@);
        let winner_seat = game.get_winner();
        if result.game_ended {
            let scores = game.calculate_scores();
            let scores_again = game.calculate_scores();
            push_connected(
                &mut messages,
                &session.players,
                ServerMessage::GameOver {
                    winner: winner_seat,
                    final_scores: [scores[0], scores[1]],
                    captured_cards: [copy_cards(&game.player_scores[0]), copy_cards(&game.player_scores[1])],
                },
                ServerMessage::GameOver {
                    winner: winner_seat,
                    final_scores: [scores_again[0], scores_again[1]],
                    captured_cards: [copy_cards(&game.player_scores[0]), copy_cards(&game.player_scores[1])],
                },
            );
        }
        proof {
            let before = s.game_state@;
            assert(deals_after(before, j) == will_deal);
            let played = MessageView::CardPlayed {
                player: PlayerId(j as u8),
                card,
                captured_cards: captured_by(before.table, card),
                is_kseri: makes_kseri(before.table, card),
            };
            assert(after_played =~= connected_pair(s.players, played, played));
            if after.over {
                assert(outbox_view(messages@) =~= after_state + connected_pair(s.players, game_over_view(after), game_over_view(after)));
            }
            assert(outbox_view(messages@) =~= play_outbox(s.players, before, after, j, card));
        }
        if result.game_ended {
            self.sessions[idx].add_event(GameEventType::GameEnded(winner_seat), now);
        } else {
            self.sessions[idx].add_event(GameEventType::CardPlayed(player_id, card), now);
        }
        proof {
            assert forall|k: int| 0 <= k < self.sessions@.len() implies (#[trigger] self.sessions@[k]).wf() by {
                if k != idx as int {
                    assert(self.sessions@[k] == old(self).sessions@[k]);
                }
            }
            assert forall|k: int| 0 <= k < self.sessions@.len() implies #[trigger] self.sessions@[k].id == old(self).sessions@[k].id by {
                if k != idx as int {
                    assert(self.sessions@[k] == old(self).sessions@[k]);
                }
            }
            lemma_ids_kept(old(self).sessions@, self.sessions@);
        }
        Ok(messages)
    }

    /// Marks the seat of `connection_id` in session `session_id` as dropped at `now` and
    /// removes the connection from the index. Returns the notice for the opponent when the
    /// opponent is connected.
    pub fn handle_player_disconnect(&mut self, session_id: u128, connection_id: u128, now: u64) -> (r: Option<
        (u128, ServerMessage),
    >)
        requires
            old(self).wf(),
        ensures
            final(self).wf(),
            disconnected(*old(self), *final(self), session_id, connection_id, now, r),
    {
        let idx = self.find_session(session_id)?;
        let j: usize = match &self.sessions[idx].players[0] {
            Some(p) => {
                if p.connection_id == connection_id {
                    0
                } else {
                    match &self.sessions[idx].players[1] {
                        Some(q) => {
                            if q.connection_id == connection_id {
                                1
                            } else {
                                return None;
                            }
                        },
                        None => {
                            return None;
                        },
                    }
                }
            },
            None => match &self.sessions[idx].players[1] {
                Some(q) => {
                    if q.connection_id == connection_id {
                        1
                    } else {
                        return None;
                    }
                },
                None => {
                    return None;
                },
            },
        };
        let updated = {
            let p = self.sessions[idx].players[j].as_ref().unwrap();
            Player {
                connection_id: p.connection_id,
                name: p.name.clone(),
                player_id: p.player_id,
                session_token: p.session_token.clone(),
                connected: false,
                disconnected_at: Some(now),
            }
        };
        let player_id = updated.player_id;
        self.sessions[idx].players[j] = Some(updated);
        self.connection_to_session.remove(&connection_id);
        let notice = match &self.sessions[idx].players[1 - j] {
            Some(o) => {
                if o.connected {
                    Some((o.connection_id, ServerMessage::OpponentDisconnected { timeout_seconds: RECONNECT_TIMEOUT_SECS }))
                } else {
                    None
                }
            },
            None => None,
        };
        if notice.is_some() {
            self.sessions[idx].add_event(GameEventType::PlayerDisconnected(player_id), now);
        }
        proof {
            assert forall|k: int| 0 <= k < self.sessions@.len() implies (#[trigger] self.sessions@[k]).wf() by {
                if k != idx as int {
                    assert(self.sessions@[k] == old(self).sessions@[k]);
                }
            }
            assert forall|k: int| 0 <= k < self.sessions@.len() implies #[trigger] self.sessions@[k].id == old(self).sessions@[k].id by {
                if k != idx as int {
                    assert(self.sessions@[k] == old(self).sessions@[k]);
                }
            }
            lemma_ids_kept(old(self).sessions@, self.sessions@);
        }
        notice
    }

    /// Drops the sessions that have expired at `now` together with the index entries of
    /// their players, and the waiting entries at least as old as the waiting time to live.
    pub fn cleanup_expired_sessions(&mut self, now: u64)
        requires
            old(self).wf(),
        ensures
            final(self).wf(),
            final(self).sessions@ == live_sessions(old(self).sessions@, now),
            forall|i: int|
                0 <= i < old(self).sessions@.len() && session_expired(#[trigger] old(self).sessions@[i], now)
                    ==> session_index(final(self).sessions@, old(self).sessions@[i].id).is_none(),
            final(self).waiting_queue@ == live_waiting(old(self).waiting_queue@, now),
            final(self).connection_to_session@ == old(self).connection_to_session@.remove_keys(
                expired_connections(old(self).sessions@, now),
            ),
    {
        broadcast use vstd::seq_lib::group_filter_ensures;
        let ghost orig = self.sessions@;
        let mut rest: Vec<GameSession> = Vec::new();
        std::mem::swap(&mut rest, &mut self.sessions);
        let mut i: usize = 0;
        let n = rest.len();
        while i < n
            invariant
                n == orig.len(),
                i <= n,
                rest@ == orig.skip(i as int),
                self.sessions@ == live_sessions(orig.take(i as int), now),
                self.connection_to_session@ == old(self).connection_to_session@.remove_keys(
                    expired_connections(orig.take(i as int), now),
                ),
                forall|k: int| 0 <= k < orig.len() ==> (#[trigger] orig[k]).wf(),
                self.waiting_queue == old(self).waiting_queue,
            decreases n - i,
        {
            let session = rest.remove(0);
            let ghost before_index = self.connection_to_session@;
            proof {
                assert(session == orig[i as int]);
                assert(orig.take(i as int + 1) =~= orig.take(i as int).push(session));
                orig.take(i as int).lemma_filter_push(session, |s: GameSession| !session_expired(s, now));
                assert(rest@ =~= orig.skip(i as int + 1));
            }
            if session.is_expired(now) {
                match &session.players[0] {
                    Some(p) => {
                        self.connection_to_session.remove(&p.connection_id);
                    },
                    None => {},
                }
                match &session.players[1] {
                    Some(p) => {
                        self.connection_to_session.remove(&p.connection_id);
                    },
                    None => {},
                }
            } else {
                self.sessions.push(session);
            }
            proof {
                let prev = orig.take(i as int);
                let next = orig.take(i as int + 1);
                assert forall|c: u128| #[trigger] expired_connections(next, now).contains(c) == (expired_connections(prev, now).contains(c)
                    || (session_expired(session, now) && (seat_has_connection(session.players[0], c) || seat_has_connection(session.players[1], c)))) by {
                    if in_expired_session(next, now, c) {
                        let k = choose|k: int| 0 <= k < next.len() && session_expired(#[trigger] next[k], now) && (seat_has_connection(next[k].players[0], c)
                            || seat_has_connection(next[k].players[1], c));
                        if k < prev.len() {
                            assert(prev[k] == next[k]);
                        }
                    }
                    if in_expired_session(prev, now, c) {
                        let k = choose|k: int| 0 <= k < prev.len() && session_expired(#[trigger] prev[k], now) && (seat_has_connection(prev[k].players[0], c)
                            || seat_has_connection(prev[k].players[1], c));
                        assert(next[k] == prev[k]);
                    }
                    if session_expired(session, now) && (seat_has_connection(session.players[0], c) || seat_has_connection(session.players[1], c)) {
                        assert(next[i as int] == session);
                    }
                }
                assert(self.connection_to_session@ =~= old(self).connection_to_session@.remove_keys(
                    expired_connections(next, now)));
            }
            i = i + 1;
        }
        proof {
            assert(orig.take(n as int) =~= orig);
        }
        let ghost wq = self.waiting_queue@;
        let mut waiting: Vec<WaitingPlayer> = Vec::new();
        std::mem::swap(&mut waiting, &mut self.waiting_queue);
        let mut w: usize = 0;
        let wn = waiting.len();
        while w < wn
            invariant
                wn == wq.len(),
                w <= wn,
                waiting@ == wq.skip(w as int),
                self.waiting_queue@ == live_waiting(wq.take(w as int), now),
                self.sessions@ == live_sessions(orig, now),
                self.connection_to_session@ == old(self).connection_to_session@.remove_keys(
                    expired_connections(orig, now),
                ),
            decreases wn - w,
        {
            let entry = waiting.remove(0);
            proof {
                assert(entry == wq[w as int]);
                assert(wq.take(w as int + 1) =~= wq.take(w as int).push(entry));
                wq.take(w as int).lemma_filter_push(entry, |x: WaitingPlayer| elapsed(now, x.joined_at) < WAITING_TIMEOUT_MS);
                assert(waiting@ =~= wq.skip(w as int + 1));
            }
            if now < entry.joined_at || now - entry.joined_at < WAITING_TIMEOUT_MS {
                self.waiting_queue.push(entry);
            }
            w = w + 1;
        }
        proof {
            assert(wq.take(wn as int) =~= wq);
            lemma_live_distinct(orig, now);
            assert forall|i: int|
                0 <= i < orig.len() && session_expired(#[trigger] orig[i], now) implies session_index(
                self.sessions@,
                orig[i].id,
            ).is_none() by {
                if exists|k: int| is_first_session(self.sessions@, orig[i].id, k) {
                    let k = choose|k: int| is_first_session(self.sessions@, orig[i].id, k);
                    let kept = self.sessions@[k];
                    assert(live_sessions(orig, now).contains(kept));
                    orig.lemma_filter_contains_rev(|s: GameSession| !session_expired(s, now), kept);
                    let x = choose|x: int| 0 <= x < orig.len() && orig[x] == kept;
                    assert(!session_expired(kept, now)) by {
                        orig.lemma_filter_pred(|s: GameSession| !session_expired(s, now), k);
                    }
                    if x < i {
                        assert(orig[x].id != orig[i].id);
                    } else if i < x {
                        assert(orig[i].id != orig[x].id);
                    }
                }
            }
            assert forall|k: int| 0 <= k < self.sessions@.len() implies (#[trigger] self.sessions@[k]).wf() by {
                let kept = self.sessions@[k];
                assert(live_sessions(orig, now)[k] == kept);
                assert(live_sessions(orig, now).contains(kept));
                orig.lemma_filter_contains_rev(|s: GameSession| !session_expired(s, now), kept);
                assert(orig.contains(kept));
                let x = choose|x: int| 0 <= x < orig.len() && orig[x] == kept;
                assert(orig[x].wf());
            }
        }
    }

    /// The personal state of the connection `connection_id` in session `session_id`.
    pub fn get_state_for_player(&self, session_id: u128, connection_id: u128) -> (r: Option<ServerMessage>)
        requires
            self.wf(),
        ensures
            match r {
                Some(m) => state_request(self.sessions@, session_id, connection_id) == Some(m@),
                None => state_request(self.sessions@, session_id, connection_id).is_none(),
            },
    {
        let idx = self.find_session(session_id)?;
        let session = &self.sessions[idx];
        let player = session.get_player_by_connection(connection_id)?;
        proof {
            assert(self.sessions@[idx as int].wf());
        }
        Some(state_message(&session.game_state, player.player_id))
    }

    /// The connection of the opponent of `player_id` in session `session_id`, while connected.
    pub fn get_opponent_connection(&self, session_id: u128, player_id: PlayerId) -> (r: Option<u128>)
        ensures
            r == opponent_connection(self.sessions@, session_id, player_id),
    {
        let idx = self.find_session(session_id)?;
        match self.sessions[idx].get_opponent(player_id) {
            Some(p) => {
                if p.connected {
                    Some(p.connection_id)
                } else {
                    None
                }
            },
            None => None,
        }
    }
}

/// The token text for `session` and `nonce`.
fn make_token(session: u128, nonce: u128) -> (r: String)
    ensures
        r@ == token_text(session, nonce),
        forall|other: u128| other != nonce ==> #[trigger] token_text(session, other) != r@,
{
    proof {
        reveal_strlit("-");
    }
    let head = id_text(session);
    let tail = id_text(nonce);
    let mut token = head.concat("-");
    token.append(tail.as_str());
    proof {
        assert forall|other: u128| other != nonce implies #[trigger] token_text(session, other) != token@ by {
            if token_text(session, other) == token@ {
                let t = token_text(session, other);
                assert(t.subrange(37, t.len() as int) =~= uuid_text(other));
                assert(token@.subrange(37, 73) =~= uuid_text(nonce));
                lemma_uuid_text_injective(other, nonce);
            }
        }
    }
    token
}

} // verus!
