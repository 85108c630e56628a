use vstd::prelude::*;
use crate::messages::{MessageView, ServerMessage};
use crate::session::{GameSession, SessionManager, seat_connected, session_index};

verus! {

/// A batch is sent once it is this many milliseconds old.
pub const BATCH_INTERVAL_MS: u64 = 10;

/// A batch holds at most this many messages.
pub const MAX_BATCH_SIZE: usize = 50;

/// Urgency of an outgoing message, from lowest to highest.
#[derive(Debug, Clone, Copy, PartialEq, Eq, PartialOrd, Ord, Structural)]
pub enum MessagePriority {
    Low,
    Normal,
    High,
    Critical,
}

/// Position of a priority in the order Low < Normal < High < Critical.
pub open spec fn priority_rank(p: MessagePriority) -> int {
    match p {
        MessagePriority::Low => 0,
        MessagePriority::Normal => 1,
        MessagePriority::High => 2,
        MessagePriority::Critical => 3,
    }
}

impl MessagePriority {
    /// Position in the order Low < Normal < High < Critical.
    pub fn rank(&self) -> (r: u8)
        ensures
            r as int == priority_rank(*self),
    {
        match self {
            MessagePriority::Low => 0,
            MessagePriority::Normal => 1,
            MessagePriority::High => 2,
            MessagePriority::Critical => 3,
        }
    }

    /// High and Critical messages are sent without waiting for the batch.
    pub fn is_urgent(&self) -> (r: bool)
        ensures
            r == (priority_rank(*self) >= 2),
    {
        self.rank() >= 2
    }
}

/// Who receives a message.
#[derive(Debug, Clone)]
pub enum BroadcastTarget {
    Single(u128),
    Multiple(Vec<u128>),
    Session(u128),
    All,
}

/// A message queued for delivery.
#[derive(Debug, Clone)]
pub struct BroadcastMessage {
    pub target: BroadcastTarget,
    pub message: ServerMessage,
    pub priority: MessagePriority,
}

/// Messages gathered for one flush, with the time the batch was opened.
pub struct MessageBatch {
    pub messages: Vec<BroadcastMessage>,
    pub created_at: u64,
}

impl MessageBatch {
    pub fn new(now: u64) -> (r: MessageBatch)
        ensures
            r.messages@.len() == 0,
            r.created_at == now,
    {
        MessageBatch { messages: Vec::with_capacity(MAX_BATCH_SIZE), created_at: now }
    }

    /// Adds a message unless the batch is full; false when it is.
    pub fn add(&mut self, msg: BroadcastMessage) -> (r: bool)
        ensures
            r == (old(self).messages@.len() < MAX_BATCH_SIZE),
            r ==> final(self).messages@ == old(self).messages@.push(msg),
            !r ==> final(self).messages@ == old(self).messages@,
            final(self).created_at == old(self).created_at,
    {
        if self.messages.len() >= MAX_BATCH_SIZE {
            return false;
        }
        self.messages.push(msg);
        true
    }

    /// Whether the batch should be flushed at `now`: it is not empty, and it is full, or old
    /// enough, or holds an urgent message.
    pub fn should_send(&self, now: u64) -> (r: bool)
        ensures
            r == (self.messages@.len() > 0 && (self.messages@.len() >= MAX_BATCH_SIZE || (now >= self.created_at
                && now - self.created_at >= BATCH_INTERVAL_MS) || exists|i: int|
                0 <= i < self.messages@.len() && priority_rank(#[trigger] self.messages@[i].priority) >= 2)),
    {
        if self.messages.len() == 0 {
            return false;
        }
        if self.messages.len() >= MAX_BATCH_SIZE {
            return true;
        }
        if now >= self.created_at && now - self.created_at >= BATCH_INTERVAL_MS {
            return true;
        }
        let mut i: usize = 0;
        while i < self.messages.len()
            invariant
                i <= self.messages@.len(),
                forall|j: int| 0 <= j < i ==> priority_rank(#[trigger] self.messages@[j].priority) < 2,
            decreases self.messages@.len() - i,
        {
            if self.messages[i].priority.is_urgent() {
                return true;
            }
            i = i + 1;
        }
        false
    }

    /// The gathered messages, in the order they were added.
    pub fn take_messages(self) -> (r: Vec<BroadcastMessage>)
        ensures
            r@ == self.messages@,
    {
        self.messages
    }
}

/// What the batching task sees next: a queued message, or the tick of its timer.
pub enum BatchEvent {
    Received(BroadcastMessage),
    Tick,
}

/// Whether a batch is empty and was opened at `now`.
pub open spec fn opened_at(b: MessageBatch, now: u64) -> bool {
    b.messages@.len() == 0 && b.created_at == now
}

/// Whether `batch` should be flushed at `now` (see `MessageBatch::should_send`).
pub open spec fn due(batch: MessageBatch, now: u64) -> bool {
    batch.messages@.len() > 0 && (batch.messages@.len() >= MAX_BATCH_SIZE || (now >= batch.created_at && now
        - batch.created_at >= BATCH_INTERVAL_MS) || exists|i: int|
        0 <= i < batch.messages@.len() && priority_rank(#[trigger] batch.messages@[i].priority) >= 2)
}

/// One step of the batching task at `now`: the batch to keep and the messages to send, if any.
///
/// A received message joins the batch; an urgent one (High or Critical) flushes the batch with
/// it. When the batch is full, the batch is flushed and the message opens the next one, or is
/// flushed along with it when urgent. On a tick the batch is flushed exactly when it is due.
pub fn batch_step(batch: MessageBatch, event: BatchEvent, now: u64) -> (r: (MessageBatch, Option<Vec<BroadcastMessage>>))
    ensures
        match event {
            BatchEvent::Received(m) => {
                let urgent = priority_rank(m.priority) >= 2;
                if batch.messages@.len() < MAX_BATCH_SIZE {
                    if urgent {
                        opened_at(r.0, now) && (r.1 matches Some(v) && v@ == batch.messages@.push(m))
                    } else {
                        r.0.messages@ == batch.messages@.push(m) && r.0.created_at == batch.created_at && r.1.is_none()
                    }
                } else if urgent {
                    opened_at(r.0, now) && (r.1 matches Some(v) && v@ == batch.messages@.push(m))
                } else {
                    r.0.messages@ == seq![m] && r.0.created_at == now && (r.1 matches Some(v) && v@
                        == batch.messages@)
                }
            },
            BatchEvent::Tick => if due(batch, now) {
                opened_at(r.0, now) && (r.1 matches Some(v) && v@ == batch.messages@)
            } else {
                r.0 == batch && r.1.is_none()
            },
        },
{
    match event {
        BatchEvent::Received(m) => {
            let urgent = m.priority.is_urgent();
            let mut batch = batch;
            if batch.messages.len() < MAX_BATCH_SIZE {
                batch.add(m);
                if urgent {
                    (MessageBatch::new(now), Some(batch.take_messages()))
                } else {
                    (batch, None)
                }
            } else if urgent {
                let mut flushed = batch.take_messages();
                flushed.push(m);
                (MessageBatch::new(now), Some(flushed))
            } else {
                let mut next = MessageBatch::new(now);
                next.add(m);
                proof {
                    assert(next.messages@ =~= seq![m]);
                }
                (next, Some(batch.take_messages()))
            }
        },
        BatchEvent::Tick => {
            if batch.should_send(now) {
                (MessageBatch::new(now), Some(batch.take_messages()))
            } else {
                (batch, None)
            }
        },
    }
}

/// The connected seats of a session, seat 0 first.
pub open spec fn session_members(s: GameSession) -> Seq<u128> {
    (if seat_connected(s.players[0]) {
        seq![s.players[0].unwrap().connection_id]
    } else {
        Seq::empty()
    }) + (if seat_connected(s.players[1]) {
        seq![s.players[1].unwrap().connection_id]
    } else {
        Seq::empty()
    })
}

/// The connections a target stands for; `All` stands for none.
pub open spec fn recipients(t: BroadcastTarget, ss: Seq<GameSession>) -> Seq<u128> {
    match t {
        BroadcastTarget::Single(c) => seq![c],
        BroadcastTarget::Multiple(cs) => cs@,
        BroadcastTarget::Session(sid) => match session_index(ss, sid) {
            Some(i) => session_members(ss[i]),
            None => Seq::empty(),
        },
        BroadcastTarget::All => Seq::empty(),
    }
}

/// Every single delivery of a batch, in order: each message once per recipient.
pub open spec fn deliveries(msgs: Seq<BroadcastMessage>, ss: Seq<GameSession>) -> Seq<(u128, MessageView)>
    decreases msgs.len(),
{
    if msgs.len() == 0 {
        Seq::empty()
    } else {
        let last = msgs.last();
        deliveries(msgs.drop_last(), ss) + recipients(last.target, ss).map_values(|c: u128| (c, last.message@))
    }
}

/// Whether a delivery is bound for `conn`.
pub open spec fn bound_for(conn: u128) -> spec_fn((u128, MessageView)) -> bool {
    |e: (u128, MessageView)| e.0 == conn
}

/// The message of a delivery.
pub open spec fn content() -> spec_fn((u128, MessageView)) -> MessageView {
    |e: (u128, MessageView)| e.1
}

/// The messages of `d` bound for `conn`, in order.
pub open spec fn inbox(d: Seq<(u128, MessageView)>, conn: u128) -> Seq<MessageView> {
    d.filter(bound_for(conn)).map_values(content())
}

/// A new delivery joins the inbox of its own connection only.
pub proof fn lemma_inbox_push(d: Seq<(u128, MessageView)>, e: (u128, MessageView), conn: u128)
    ensures
        inbox(d.push(e), conn) == if e.0 == conn {
            inbox(d, conn).push(e.1)
        } else {
            inbox(d, conn)
        },
{
    d.lemma_filter_push(e, bound_for(conn));
    let f = d.filter(bound_for(conn));
    if e.0 == conn {
        assert(d.push(e).filter(bound_for(conn)) == f.push(e));
        assert(f.push(e).map_values(content()) =~= f.map_values(content()).push(e.1));
    } else {
        assert(d.push(e).filter(bound_for(conn)) == f);
    }
}

/// Whether some group belongs to `conn`.
pub open spec fn has_group(groups: Seq<(u128, Vec<ServerMessage>)>, conn: u128) -> bool {
    exists|a: int| 0 <= a < groups.len() && groups[a].0 == conn
}

/// A list of messages as views.
pub open spec fn views(v: Seq<ServerMessage>) -> Seq<MessageView> {
    v.map_values(|m: ServerMessage| m@)
}

/// Groups that hold, for each connection once, exactly its messages of `d` in order, and
/// that cover every connection of `d`.
pub open spec fn groups_match(groups: Seq<(u128, Vec<ServerMessage>)>, d: Seq<(u128, MessageView)>) -> bool {
    &&& forall|a: int, b: int| 0 <= a < b < groups.len() ==> #[trigger] groups[a].0 != #[trigger] groups[b].0
    &&& forall|a: int| 0 <= a < groups.len() ==> views(#[trigger] groups[a].1@) == inbox(d, groups[a].0)
    &&& forall|k: int| 0 <= k < d.len() ==> has_group(groups, #[trigger] d[k].0)
}

/// The connections of a session's connected seats.
fn members(sessions: &SessionManager, session_id: u128) -> (r: Vec<u128>)
    ensures
        r@ == recipients(BroadcastTarget::Session(session_id), sessions.sessions@),
{
    let mut out: Vec<u128> = Vec::new();
    let mut i: usize = 0;
    while i < sessions.sessions.len()
        invariant
            i <= sessions.sessions@.len(),
            out@.len() == 0,
            forall|j: int| 0 <= j < i ==> sessions.sessions@[j].id != session_id,
        decreases sessions.sessions@.len() - i,
    {
        if sessions.sessions[i].id == session_id {
            let ghost ss = sessions.sessions@;
            proof {
                crate::session::lemma_first_session(ss, session_id, i as int);
            }
            let s = &sessions.sessions[i];
            match &s.players[0] {
                Some(p) => {
                    if p.connected {
                        out.push(p.connection_id);
                    }
                },
                None => {},
            }
            proof {
                assert(out@ =~= (if seat_connected(s.players[0]) {
                    seq![s.players[0].unwrap().connection_id]
                } else {
                    Seq::empty()
                }));
            }
            match &s.players[1] {
                Some(p) => {
                    if p.connected {
                        out.push(p.connection_id);
                    }
                },
                None => {},
            }
            proof {
                assert(out@ =~= session_members(ss[i as int]));
            }
            return out;
        }
        i = i + 1;
    }
    proof {
        if exists|k: int| crate::session::is_first_session(sessions.sessions@, session_id, k) {
            let k = choose|k: int| crate::session::is_first_session(sessions.sessions@, session_id, k);
            assert(sessions.sessions@[k].id == session_id);
        }
        assert(session_index(sessions.sessions@, session_id).is_none());
    }
    out
}

/// Adds `msg` to the group of `conn`, opening the group when `conn` has none.
fn deliver(
    groups: &mut Vec<(u128, Vec<ServerMessage>)>,
    conn: u128,
    msg: ServerMessage,
    Ghost(d): Ghost<Seq<(u128, MessageView)>>,
)
    requires
        groups_match(old(groups)@, d),
    ensures
        groups_match(final(groups)@, d.push((conn, msg@))),
{
    let ghost mv = msg@;
    let ghost nd = d.push((conn, mv));
    let ghost pred = bound_for(conn);
    let mut a: usize = 0;
    while a < groups.len()
        invariant
            a <= groups@.len(),
            groups@ == old(groups)@,
            msg@ == mv,
            nd == d.push((conn, mv)),
            pred == bound_for(conn),
            groups_match(old(groups)@, d),
            forall|b: int| 0 <= b < a ==> groups@[b].0 != conn,
        decreases groups@.len() - a,
    {
        if groups[a].0 == conn {
            let ghost before = groups@;
            let (key, mut msgs) = groups.remove(a);
            msgs.push(msg);
            groups.insert(a, (key, msgs));
            proof {
                let g = groups@;
                assert(views(msgs@) =~= views(before[a as int].1@).push(mv));
                assert forall|x: int| 0 <= x < g.len() implies views(#[trigger] g[x].1@) == inbox(nd, g[x].0) by {
                    let key_x = g[x].0;
                    lemma_inbox_push(d, (conn, mv), key_x);
                    if x == a as int {
                        assert(key_x == conn);
                        assert(inbox(nd, key_x) == inbox(d, key_x).push(mv));
                    } else {
                        assert(g[x] == before[x]);
                        if x < a as int {
                            assert(before[x].0 != before[a as int].0);
                        } else {
                            assert(before[a as int].0 != before[x].0);
                        }
                        assert(inbox(nd, key_x) == inbox(d, key_x));
                    }
                }
                assert forall|x: int, y: int| 0 <= x < y < g.len() implies #[trigger] g[x].0 != #[trigger] g[y].0 by {
                    assert(g[x].0 == before[x].0 && g[y].0 == before[y].0);
                }
                assert forall|k: int| 0 <= k < nd.len() implies has_group(g, #[trigger] nd[k].0) by {
                    if k < d.len() {
                        assert(nd[k] == d[k]);
                        assert(has_group(before, d[k].0));
                        let x = choose|x: int| 0 <= x < before.len() && before[x].0 == d[k].0;
                        assert(g[x].0 == before[x].0);
                    } else {
                        assert(g[a as int].0 == conn);
                    }
                }
            }
            return;
        }
        a = a + 1;
    }
    let ghost before = groups@;
    let mut fresh: Vec<ServerMessage> = Vec::new();
    fresh.push(msg);
    groups.push((conn, fresh));
    proof {
        let g = groups@;
        assert forall|k: int| 0 <= k < d.len() implies d[k].0 != conn by {
            assert(has_group(before, d[k].0));
            let x = choose|x: int| 0 <= x < before.len() && before[x].0 == d[k].0;
        }
        assert(d.filter(pred) =~= Seq::<(u128, MessageView)>::empty()) by {
            broadcast use vstd::seq_lib::group_filter_ensures;
            if d.filter(pred).len() > 0 {
                let e = d.filter(pred)[0];
                assert(d.filter(pred).contains(e));
                d.lemma_filter_contains_rev(pred, e);
            }
        }
        assert forall|x: int| 0 <= x < g.len() implies views(#[trigger] g[x].1@) == inbox(nd, g[x].0) by {
            let key_x = g[x].0;
            lemma_inbox_push(d, (conn, mv), key_x);
            if x == before.len() {
                assert(views(fresh@) =~= seq![mv]);
                assert(inbox(nd, key_x) =~= seq![mv]);
            } else {
                assert(g[x] == before[x]);
                assert(inbox(nd, key_x) =~= inbox(d, key_x));
            }
        }
        assert forall|x: int, y: int| 0 <= x < y < g.len() implies #[trigger] g[x].0 != #[trigger] g[y].0 by {
            if y == before.len() {
                assert(g[x] == before[x]);
            } else {
                assert(g[x] == before[x] && g[y] == before[y]);
            }
        }
        assert forall|k: int| 0 <= k < nd.len() implies has_group(g, #[trigger] nd[k].0) by {
            if k < d.len() {
                assert(nd[k] == d[k]);
                assert(has_group(before, d[k].0));
                let x = choose|x: int| 0 <= x < before.len() && before[x].0 == d[k].0;
                assert(g[x] == before[x]);
            } else {
                assert(g[before.len() as int].0 == conn);
            }
        }
    }
}

/// Sorts a batch into one group per connection: each group holds that connection's messages
/// in the order they were queued, and the groups cover every delivery of the batch.
pub fn route_batch(messages: Vec<BroadcastMessage>, sessions: &SessionManager) -> (r: Vec<(u128, Vec<ServerMessage>)>)
    ensures
        groups_match(r@, deliveries(messages@, sessions.sessions@)),
{
    let ghost ss = sessions.sessions@;
    let mut groups: Vec<(u128, Vec<ServerMessage>)> = Vec::new();
    let mut i: usize = 0;
    proof {
        assert(deliveries(messages@.take(0), ss) =~= Seq::<(u128, MessageView)>::empty());
        assert(groups_match(groups@, deliveries(messages@.take(0), ss)));
    }
    while i < messages.len()
        invariant
            i <= messages@.len(),
            ss == sessions.sessions@,
            groups_match(groups@, deliveries(messages@.take(i as int), ss)),
        decreases messages@.len() - i,
    {
        let msg = &messages[i];
        let targets: Vec<u128> = match &msg.target {
            BroadcastTarget::Single(c) => {
                let mut v: Vec<u128> = Vec::new();
                v.push(*c);
                v
            },
            BroadcastTarget::Multiple(cs) => {
                let mut v: Vec<u128> = Vec::new();
                let mut k: usize = 0;
                while k < cs.len()
                    invariant
                        k <= cs@.len(),
                        v@ == cs@.take(k as int),
                    decreases cs@.len() - k,
                {
                    v.push(cs[k]);
                    k = k + 1;
                    assert(v@ =~= cs@.take(k as int));
                }
                assert(v@ =~= cs@);
                v
            },
            BroadcastTarget::Session(sid) => members(sessions, *sid),
            BroadcastTarget::All => Vec::new(),
        };
        proof {
            assert(targets@ =~= recipients(msg.target, ss));
        }
        let ghost base = deliveries(messages@.take(i as int), ss);
        let mut t: usize = 0;
        while t < targets.len()
            invariant
                t <= targets@.len(),
                i < messages@.len(),
                msg == &messages@[i as int],
                groups_match(groups@, base + targets@.take(t as int).map_values(|c: u128| (c, msg.message@))),
            decreases targets@.len() - t,
        {
            let ghost d = base + targets@.take(t as int).map_values(|c: u128| (c, msg.message@));
            let copy = msg.message.duplicate();
            deliver(&mut groups, targets[t], copy, Ghost(d));
            proof {
                assert(d.push((targets@[t as int], msg.message@)) =~= base + targets@.take(t as int + 1).map_values(
                    |c: u128| (c, msg.message@),
                ));
            }
            t = t + 1;
        }
        proof {
            let next = messages@.take(i as int + 1);
            assert(next.drop_last() =~= messages@.take(i as int));
            assert(next.last() == messages@[i as int]);
            assert(targets@.take(t as int) =~= targets@);
            assert(base + targets@.map_values(|c: u128| (c, msg.message@)) =~= deliveries(next, ss));
        }
        i = i + 1;
    }
    proof {
        assert(messages@.take(messages@.len() as int) =~= messages@);
    }
    groups
}

} // verus!
