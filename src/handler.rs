use vstd::prelude::*;
use vstd::string::StringExecFns;
use crate::card::{Card, PlayerId};
use crate::connection::{ConnectionManager, has_entry, is_entry, recorded};
use crate::messages::{ClientMessage, MessageView, ServerMessage};
use crate::session::{
    GameSession, SessionManager, disconnected, fresh_session, joined, opponent_connection, outbox_view, played, readied,
    reconnected, state_request,
};

verus! {

/// The session the directory's index binds `conn` to.
pub open spec fn indexed_session(index: Map<u128, u128>, conn: u128) -> Option<u128> {
    if index.contains_key(conn) {
        Some(index[conn])
    } else {
        None
    }
}

/// The session the directory binds `conn` to.
fn session_of(sessions: &SessionManager, conn: u128) -> (r: Option<u128>)
    ensures
        r == indexed_session(sessions.connection_to_session@, conn),
{
    match sessions.connection_to_session.get(&conn) {
        Some(sid) => Some(*sid),
        None => None,
    }
}

/// The player name a message gives its connection: the one it joins with.
pub open spec fn named(message: ClientMessage) -> Option<String> {
    match message {
        ClientMessage::JoinQueue { player_name } => Some(player_name),
        _ => None,
    }
}

/// The session a message binds its connection to: after a successful join or reconnection
/// (the first message sent is `Connected`), the session the directory now binds it to.
pub open spec fn bound_by(
    message: ClientMessage,
    index: Map<u128, u128>,
    conn: u128,
    out: Seq<(u128, MessageView)>,
) -> Option<u128> {
    if (message is JoinQueue || message is Reconnect) && out.len() > 0 && out[0].1 is Connected {
        indexed_session(index, conn)
    } else {
        None
    }
}

/// Reply of a connection that is not bound to a session.
pub open spec fn unbound_reply(conn: u128) -> Seq<(u128, MessageView)> {
    seq![(conn, MessageView::Error { message: "Not in a game session"@ })]
}

/// The messages of a reconnection: the rebound player's messages, then a notice to the
/// opponent when the opponent is connected.
pub open spec fn reconnect_outbox(conn: u128, msgs: Seq<ServerMessage>, opponent: Option<u128>) -> Seq<(u128, MessageView)> {
    msgs.map_values(|m: ServerMessage| (conn, m@)) + match opponent {
        Some(o) => seq![(o, MessageView::OpponentReconnected)],
        None => Seq::empty(),
    }
}

/// What handling `JoinQueue` does: the join, then the start messages or `WaitingForOpponent`.
pub open spec fn join_handled(
    before: SessionManager,
    after: SessionManager,
    conn: u128,
    player_name: String,
    now: u64,
    out: Seq<(u128, MessageView)>,
) -> bool {
    exists|
        fresh: GameSession,
        n0: u128,
        n1: u128,
        mid: SessionManager,
        r: Result<(u128, PlayerId, String), String>,
    |
        joined(before, mid, conn, player_name, now, fresh, n0, n1, r) && match r {
            Err(e) => after == mid && out == seq![
                (conn, MessageView::Error { message: "Failed to join game: "@ + e@ }),
            ],
            Ok((sid, pid, token)) => exists|ready: Option<Vec<(u128, ServerMessage)>>|
                readied(mid, after, sid, ready) && out == seq![
                    (conn, MessageView::Connected { player_id: pid, session_token: token@ }),
                ] + match ready {
                    Some(m) => outbox_view(m@),
                    None => seq![(conn, MessageView::WaitingForOpponent)],
                },
        }
}

/// What handling `Reconnect` does: the rebinding, then its messages and the opponent's notice.
pub open spec fn reconnect_handled(
    before: SessionManager,
    after: SessionManager,
    conn: u128,
    session_token: String,
    now: u64,
    out: Seq<(u128, MessageView)>,
) -> bool {
    exists|r: Result<(u128, PlayerId, Vec<ServerMessage>), String>|
        reconnected(before, after, conn, session_token, now, r) && out == match r {
            Err(e) => seq![(conn, MessageView::Error { message: "Failed to reconnect: "@ + e@ })],
            Ok((sid, pid, msgs)) => reconnect_outbox(conn, msgs@, opponent_connection(after.sessions@, sid, pid)),
        }
}

/// What handling `message` from `conn` does to the directory and sends, given the session the
/// connection was bound to.
pub open spec fn handled(
    before: SessionManager,
    after: SessionManager,
    bound: Option<u128>,
    conn: u128,
    message: ClientMessage,
    now: u64,
    out: Seq<(u128, MessageView)>,
) -> bool {
    match message {
        ClientMessage::Ping => after == before && out == seq![(conn, MessageView::Pong)],
        ClientMessage::RequestState => after == before && out == match bound {
            None => unbound_reply(conn),
            Some(sid) => match state_request(before.sessions@, sid, conn) {
                Some(v) => seq![(conn, v)],
                None => seq![(conn, MessageView::Error { message: "Game session not found"@ })],
            },
        },
        ClientMessage::PlayCard { card } => match bound {
            None => after == before && out == unbound_reply(conn),
            Some(sid) => exists|r: Result<Vec<(u128, ServerMessage)>, String>|
                played(before, after, sid, conn, card, r) && out == match r {
                    Ok(m) => outbox_view(m@),
                    Err(e) => seq![(conn, MessageView::InvalidMove { reason: e@ })],
                },
        },
        ClientMessage::JoinQueue { player_name } => join_handled(before, after, conn, player_name, now, out),
        ClientMessage::Reconnect { session_token } => reconnect_handled(before, after, conn, session_token, now, out),
    }
}

/// Handles one message from the connection `connection_id` at `now` and returns what is to be
/// sent, each message with its recipient, in order.
///
/// The session of the connection is the one the directory's index binds it to. Afterwards the
/// connection's record is marked as heard from at `now`, and takes the name it joined with and
/// the session it was bound to, if any. `Ping` is answered with `Pong`; `JoinQueue`
/// joins or pairs, then sends the start messages or `WaitingForOpponent`; `Reconnect` rebinds
/// and tells the opponent; `PlayCard` plays in the bound session, a refusal coming back as
/// `InvalidMove`; `RequestState` sends the personal state.
pub fn handle_client_message<T>(
    sessions: &mut SessionManager,
    connections: &mut ConnectionManager<T>,
    connection_id: u128,
    message: ClientMessage,
    now: u64,
) -> (out: Vec<(u128, ServerMessage)>)
    requires
        old(sessions).wf(),
        old(connections).wf(),
    ensures
        final(sessions).wf(),
        final(connections).wf(),
        handled(
            *old(sessions),
            *final(sessions),
            indexed_session(old(sessions).connection_to_session@, connection_id),
            connection_id,
            message,
            now,
            outbox_view(out@),
        ),
        recorded(
            old(connections).connections@,
            final(connections).connections@,
            connection_id,
            now,
            named(message),
            bound_by(message, final(sessions).connection_to_session@, connection_id, outbox_view(out@)),
        ),
{
    let bound = session_of(sessions, connection_id);
    let ghost msg = message;
    let (out, name, rebinds) = match message {
        ClientMessage::Ping => {
            let mut out: Vec<(u128, ServerMessage)> = Vec::new();
            out.push((connection_id, ServerMessage::Pong));
            proof {
                assert(outbox_view(out@) =~= seq![(connection_id, MessageView::Pong)]);
            }
            (out, None, false)
        },
        ClientMessage::RequestState => (handle_request_state(sessions, bound, connection_id), None, false),
        ClientMessage::PlayCard { card } => (handle_play(sessions, bound, connection_id, card, now), None, false),
        ClientMessage::JoinQueue { player_name } => {
            let kept = player_name.clone();
            (handle_join(sessions, connection_id, player_name, now), Some(kept), true)
        },
        ClientMessage::Reconnect { session_token } => (
            handle_reconnect(sessions, connection_id, session_token, now),
            None,
            true,
        ),
    };
    let session = if rebinds && out.len() > 0 {
        match &out[0].1 {
            ServerMessage::Connected { .. } => session_of(sessions, connection_id),
            _ => None,
        }
    } else {
        None
    };
    proof {
        assert(name == named(msg));
        assert(session == bound_by(msg, sessions.connection_to_session@, connection_id, outbox_view(out@)));
    }
    connections.record(connection_id, now, name, session);
    out
}

fn handle_request_state(sessions: &mut SessionManager, bound: Option<u128>, connection_id: u128) -> (out: Vec<(u128, ServerMessage)>)
    requires
        old(sessions).wf(),
    ensures
        final(sessions).wf(),
        handled(*old(sessions), *final(sessions), bound, connection_id, ClientMessage::RequestState, 0, outbox_view(out@)),
{
    proof {
        reveal_strlit("Not in a game session");
        reveal_strlit("Game session not found");
    }
    let mut out: Vec<(u128, ServerMessage)> = Vec::new();
    match bound {
        None => {
            out.push((connection_id, ServerMessage::Error { message: String::from_str("Not in a game session") }));
        },
        Some(sid) => match sessions.get_state_for_player(sid, connection_id) {
            Some(m) => {
                out.push((connection_id, m));
            },
            None => {
                out.push((connection_id, ServerMessage::Error { message: String::from_str("Game session not found") }));
            },
        },
    }
    proof {
        assert(outbox_view(out@) =~= match bound {
            None => unbound_reply(connection_id),
            Some(sid) => match state_request(sessions.sessions@, sid, connection_id) {
                Some(v) => seq![(connection_id, v)],
                None => seq![(connection_id, MessageView::Error { message: "Game session not found"@ })],
            },
        });
    }
    out
}

fn handle_play(sessions: &mut SessionManager, bound: Option<u128>, connection_id: u128, card: Card, now: u64) -> (out: Vec<
    (u128, ServerMessage),
>)
    requires
        old(sessions).wf(),
    ensures
        final(sessions).wf(),
        handled(*old(sessions), *final(sessions), bound, connection_id, ClientMessage::PlayCard { card }, now, outbox_view(out@)),
{
    proof {
        reveal_strlit("Not in a game session");
    }
    match bound {
        None => {
            let mut out: Vec<(u128, ServerMessage)> = Vec::new();
            out.push((connection_id, ServerMessage::Error { message: String::from_str("Not in a game session") }));
            proof {
                assert(outbox_view(out@) =~= unbound_reply(connection_id));
            }
            out
        },
        Some(sid) => {
            let r = sessions.play_card(sid, connection_id, card, now);
            let ghost rv = r;
            match r {
                Ok(msgs) => {
                    proof {
                        assert(played(*old(sessions), *sessions, sid, connection_id, card, rv));
                    }
                    msgs
                },
                Err(e) => {
                    let mut out: Vec<(u128, ServerMessage)> = Vec::new();
                    out.push((connection_id, ServerMessage::InvalidMove { reason: e }));
                    proof {
                        assert(outbox_view(out@) =~= seq![(connection_id, MessageView::InvalidMove { reason: e@ })]);
                        assert(played(*old(sessions), *sessions, sid, connection_id, card, rv));
                    }
                    out
                },
            }
        },
    }
}

fn handle_join(
    sessions: &mut SessionManager,
    connection_id: u128,
    player_name: String,
    now: u64,
) -> (out: Vec<(u128, ServerMessage)>)
    requires
        old(sessions).wf(),
    ensures
        final(sessions).wf(),
        join_handled(*old(sessions), *final(sessions), connection_id, player_name, now, outbox_view(out@)),
{
    proof {
        reveal_strlit("Failed to join game: ");
    }
    let ghost name = player_name;
    let r = sessions.join_or_create_game(connection_id, player_name, now);
    let ghost mid = *sessions;
    let ghost rv = r;
    let ghost w = choose|f: GameSession, a: u128, b: u128|
        fresh_session(f, now) && joined(*old(sessions), mid, connection_id, name, now, f, a, b, rv);
    let mut out: Vec<(u128, ServerMessage)> = Vec::new();
    match r {
        Ok((sid, pid, token)) => {
            let ghost tv = token@;
            out.push((connection_id, ServerMessage::Connected { player_id: pid, session_token: token }));
            let ready = sessions.check_game_ready(sid, now);
            let ghost readyv = ready;
            match ready {
                Some(mut msgs) => {
                    let ghost first = out@;
                    out.append(&mut msgs);
                    proof {
                        assert(outbox_view(out@) =~= outbox_view(first) + outbox_view(readyv.unwrap()@));
                    }
                },
                None => {
                    out.push((connection_id, ServerMessage::WaitingForOpponent));
                },
            }
            proof {
                let head = seq![(connection_id, MessageView::Connected { player_id: pid, session_token: tv })];
                assert(outbox_view(out@) =~= head + match readyv {
                    Some(m) => outbox_view(m@),
                    None => seq![(connection_id, MessageView::WaitingForOpponent)],
                });
                assert(readied(mid, *sessions, sid, readyv));
                assert(joined(*old(sessions), mid, connection_id, name, now, w.0, w.1, w.2, rv));
            }
        },
        Err(e) => {
            let text = String::from_str("Failed to join game: ").concat(e.as_str());
            out.push((connection_id, ServerMessage::Error { message: text }));
            proof {
                assert(outbox_view(out@) =~= seq![
                    (connection_id, MessageView::Error { message: "Failed to join game: "@ + e@ }),
                ]);
                assert(joined(*old(sessions), mid, connection_id, name, now, w.0, w.1, w.2, rv));
            }
        },
    }
    out
}

fn handle_reconnect(
    sessions: &mut SessionManager,
    connection_id: u128,
    session_token: String,
    now: u64,
) -> (out: Vec<(u128, ServerMessage)>)
    requires
        old(sessions).wf(),
    ensures
        final(sessions).wf(),
        reconnect_handled(*old(sessions), *final(sessions), connection_id, session_token, now, outbox_view(out@)),
{
    proof {
        reveal_strlit("Failed to reconnect: ");
    }
    let ghost token = session_token;
    let r = sessions.reconnect_player(connection_id, session_token, now);
    let ghost rv = r;
    let mut out: Vec<(u128, ServerMessage)> = Vec::new();
    match r {
        Ok((sid, pid, msgs)) => {
            let ghost mv = msgs@;
            let mut k: usize = 0;
            while k < msgs.len()
                invariant
                    k <= msgs@.len(),
                    mv == msgs@,
                    outbox_view(out@) == mv.take(k as int).map_values(|m: ServerMessage| (connection_id, m@)),
                decreases msgs@.len() - k,
            {
                let m = msgs[k].duplicate();
                let ghost prev = out@;
                let ghost mview = m@;
                out.push((connection_id, m));
                proof {
                    assert(outbox_view(out@) =~= outbox_view(prev).push((connection_id, mview)));
                    assert(mv.take(k as int + 1) =~= mv.take(k as int).push(mv[k as int]));
                    assert(mv.take(k as int + 1).map_values(|m: ServerMessage| (connection_id, m@)) =~= mv.take(
                        k as int,
                    ).map_values(|m: ServerMessage| (connection_id, m@)).push((connection_id, mview)));
                }
                k = k + 1;
            }
            proof {
                assert(mv.take(k as int) =~= mv);
            }
            let opponent = sessions.get_opponent_connection(sid, pid);
            let ghost before_notice = out@;
            match opponent {
                Some(o) => {
                    out.push((o, ServerMessage::OpponentReconnected));
                },
                None => {},
            }
            proof {
                assert(outbox_view(out@) =~= reconnect_outbox(connection_id, mv, opponent));
                assert(reconnected(*old(sessions), *sessions, connection_id, token, now, rv));
            }
        },
        Err(e) => {
            let text = String::from_str("Failed to reconnect: ").concat(e.as_str());
            out.push((connection_id, ServerMessage::Error { message: text }));
            proof {
                assert(outbox_view(out@) =~= seq![
                    (connection_id, MessageView::Error { message: "Failed to reconnect: "@ + e@ }),
                ]);
                assert(reconnected(*old(sessions), *sessions, connection_id, token, now, rv));
            }
        },
    }
    out
}

/// Handles the end of the connection `connection_id` at `now`: it leaves the registry, its
/// seat in the session the directory binds it to is marked as dropped, and the opponent's
/// notice, if any, is returned.
pub fn handle_disconnect<T>(sessions: &mut SessionManager, connections: &mut ConnectionManager<T>, connection_id: u128, now: u64) -> (out:
    Vec<(u128, ServerMessage)>)
    requires
        old(sessions).wf(),
        old(connections).wf(),
    ensures
        final(sessions).wf(),
        final(connections).wf(),
        !has_entry(old(connections).connections@, connection_id) ==> final(connections).connections@ == old(
            connections,
        ).connections@,
        has_entry(old(connections).connections@, connection_id) ==> exists|i: int|
            is_entry(old(connections).connections@, connection_id, i) && final(connections).connections@ == old(
                connections,
            ).connections@.remove(i),
        match indexed_session(old(sessions).connection_to_session@, connection_id) {
            None => *final(sessions) == *old(sessions) && out@.len() == 0,
            Some(sid) => exists|r: Option<(u128, ServerMessage)>|
                disconnected(*old(sessions), *final(sessions), sid, connection_id, now, r) && outbox_view(out@)
                    == match r {
                    Some((o, m)) => seq![(o, m@)],
                    None => Seq::empty(),
                },
        },
{
    let bound = session_of(sessions, connection_id);
    connections.remove_connection(connection_id);
    let mut out: Vec<(u128, ServerMessage)> = Vec::new();
    match bound {
        Some(sid) => {
            let r = sessions.handle_player_disconnect(sid, connection_id, now);
            let ghost rv = r;
            match r {
                Some((o, m)) => {
                    out.push((o, m));
                },
                None => {},
            }
            proof {
                assert(outbox_view(out@) =~= match rv {
                    Some((o, m)) => seq![(o, m@)],
                    None => Seq::empty(),
                });
                assert(disconnected(*old(sessions), *sessions, sid, connection_id, now, rv));
            }
        },
        None => {},
    }
    out
}

} // verus!
