use vstd::prelude::*;

verus! {

/// A connection is dropped when it has not been heard from for this many milliseconds.
pub const CLIENT_TIMEOUT_MS: u64 = 60000;

/// Milliseconds from `then` to `now`; zero when `then` lies ahead.
pub open spec fn since(now: u64, then: u64) -> int {
    if now >= then {
        now - then
    } else {
        0
    }
}

/// A live connection: its id, the session and name it is bound to, when it was last heard
/// from (milliseconds), and the handle that delivers its outgoing messages.
pub struct Connection<T> {
    pub id: u128,
    pub session_id: Option<u128>,
    pub player_name: Option<String>,
    pub last_ping: u64,
    pub tx: T,
}

impl<T> Connection<T> {
    pub fn new(id: u128, tx: T, now: u64) -> (r: Connection<T>)
        ensures
            r.id == id,
            r.session_id.is_none(),
            r.player_name.is_none(),
            r.last_ping == now,
            r.tx == tx,
    {
        Connection { id, session_id: None, player_name: None, last_ping: now, tx }
    }

    /// Records that the connection was heard from at `now`.
    pub fn update_ping(&mut self, now: u64)
        ensures
            *final(self) == (Connection { last_ping: now, ..*old(self) }),
    {
        self.last_ping = now;
    }

    /// Whether the connection has been silent for longer than the client timeout.
    pub fn is_timed_out(&self, now: u64) -> (r: bool)
        ensures
            r == (since(now, self.last_ping) > CLIENT_TIMEOUT_MS),
    {
        now >= self.last_ping && now - self.last_ping > CLIENT_TIMEOUT_MS
    }
}

/// `i` is the position of the entry with key `id`.
pub open spec fn is_entry<T>(entries: Seq<(u128, Connection<T>)>, id: u128, i: int) -> bool {
    0 <= i < entries.len() && entries[i].0 == id
}

/// Whether some entry has key `id`.
pub open spec fn has_entry<T>(entries: Seq<(u128, Connection<T>)>, id: u128) -> bool {
    exists|i: int| is_entry(entries, id, i)
}

/// The entries kept by a cleanup at `now`.
pub open spec fn live_entries<T>(entries: Seq<(u128, Connection<T>)>, now: u64) -> Seq<(u128, Connection<T>)> {
    entries.filter(|e: (u128, Connection<T>)| !(since(now, e.1.last_ping) > CLIENT_TIMEOUT_MS))
}

/// The keys of the entries dropped by a cleanup at `now`, in order.
pub open spec fn dropped_keys<T>(entries: Seq<(u128, Connection<T>)>, now: u64) -> Seq<u128> {
    entries.filter(|e: (u128, Connection<T>)| since(now, e.1.last_ping) > CLIENT_TIMEOUT_MS).map_values(
        |e: (u128, Connection<T>)| e.0,
    )
}

/// The session bound to the entry with key `conn`, if there is one.
pub open spec fn bound_session<T>(entries: Seq<(u128, Connection<T>)>, conn: u128) -> Option<u128> {
    if has_entry(entries, conn) {
        entries[choose|i: int| is_entry(entries, conn, i)].1.session_id
    } else {
        None
    }
}

/// With unique keys, the entry with key `conn` is the one at `i`.
pub proof fn lemma_bound_session<T>(entries: Seq<(u128, Connection<T>)>, conn: u128, i: int)
    requires
        forall|a: int, b: int| 0 <= a < b < entries.len() ==> #[trigger] entries[a].0 != #[trigger] entries[b].0,
        is_entry(entries, conn, i),
    ensures
        bound_session(entries, conn) == entries[i].1.session_id,
{
    let k = choose|k: int| is_entry(entries, conn, k);
    assert(is_entry(entries, conn, k));
    if k < i {
        assert(entries[k].0 != entries[i].0);
    } else if i < k {
        assert(entries[i].0 != entries[k].0);
    }
}

/// The registry after a message from `conn` at `now`: every key stays; only the record of
/// `conn` changes, which is marked heard from at `now` and takes `name` and `session` when
/// they are given.
pub open spec fn recorded<T>(
    before: Seq<(u128, Connection<T>)>,
    after: Seq<(u128, Connection<T>)>,
    conn: u128,
    now: u64,
    name: Option<String>,
    session: Option<u128>,
) -> bool {
    &&& after.len() == before.len()
    &&& forall|k: int| 0 <= k < before.len() && before[k].0 != conn ==> #[trigger] after[k] == before[k]
    &&& forall|k: int|
        0 <= k < before.len() && before[k].0 == conn ==> #[trigger] after[k] == (
            conn,
            Connection {
                last_ping: now,
                player_name: if name is Some {
                    name
                } else {
                    before[k].1.player_name
                },
                session_id: if session is Some {
                    session
                } else {
                    before[k].1.session_id
                },
                ..before[k].1
            },
        )
}

/// The registry of live connections, keyed by id.
pub struct ConnectionManager<T> {
    pub connections: Vec<(u128, Connection<T>)>,
}

impl<T> ConnectionManager<T> {
    /// Keys are unique.
    pub open spec fn wf(&self) -> bool {
        forall|i: int, j: int|
            0 <= i < j < self.connections@.len() ==> #[trigger] self.connections@[i].0 != #[trigger] self.connections@[j].0
    }

    pub fn new() -> (r: ConnectionManager<T>)
        ensures
            r.wf(),
            r.connections@.len() == 0,
    {
        ConnectionManager { connections: Vec::new() }
    }

    /// Position of the entry with key `id`.
    fn position(&self, id: u128) -> (r: Option<usize>)
        requires
            self.wf(),
        ensures
            match r {
                Some(i) => is_entry(self.connections@, id, i as int),
                None => !has_entry(self.connections@, id),
            },
    {
        let mut i: usize = 0;
        while i < self.connections.len()
            invariant
                i <= self.connections@.len(),
                forall|j: int| 0 <= j < i ==> self.connections@[j].0 != id,
            decreases self.connections@.len() - i,
        {
            if self.connections[i].0 == id {
                return Some(i);
            }
            i = i + 1;
        }
        None
    }

    /// Registers `connection` under `id`, replacing any entry with that key.
    pub fn add_connection(&mut self, id: u128, connection: Connection<T>)
        requires
            old(self).wf(),
        ensures
            final(self).wf(),
            has_entry(old(self).connections@, id) ==> exists|i: int| is_entry(old(self).connections@, id, i)
                && final(self).connections@ == old(self).connections@.update(i, (id, connection)),
            !has_entry(old(self).connections@, id) ==> final(self).connections@ == old(self).connections@.push(
                (id, connection),
            ),
    {
        match self.position(id) {
            Some(i) => {
                self.connections.set(i, (id, connection));
                proof {
                    let c = self.connections@;
                    assert forall|a: int, b: int| 0 <= a < b < c.len() implies #[trigger] c[a].0 != #[trigger] c[b].0 by {
                        assert(c[a].0 == old(self).connections@[a].0);
                        assert(c[b].0 == old(self).connections@[b].0);
                    }
                }
            },
            None => {
                self.connections.push((id, connection));
                proof {
                    let c = self.connections@;
                    assert forall|a: int, b: int| 0 <= a < b < c.len() implies #[trigger] c[a].0 != #[trigger] c[b].0 by {
                        if b == c.len() - 1 {
                            assert(!is_entry(old(self).connections@, id, a));
                        } else {
                            assert(c[a] == old(self).connections@[a]);
                            assert(c[b] == old(self).connections@[b]);
                        }
                    }
                }
            },
        }
    }

    /// Takes out the entry with key `id`.
    pub fn remove_connection(&mut self, id: u128) -> (r: Option<Connection<T>>)
        requires
            old(self).wf(),
        ensures
            final(self).wf(),
            !has_entry(old(self).connections@, id) ==> r.is_none() && final(self).connections@ == old(self).connections@,
            has_entry(old(self).connections@, id) ==> exists|i: int| is_entry(old(self).connections@, id, i)
                && r == Some(old(self).connections@[i].1) && final(self).connections@ == old(self).connections@.remove(i),
    {
        match self.position(id) {
            Some(i) => {
                let (_, c) = self.connections.remove(i);
                Some(c)
            },
            None => None,
        }
    }

    /// The entry with key `id`.
    pub fn get_connection(&self, id: u128) -> (r: Option<&Connection<T>>)
        requires
            self.wf(),
        ensures
            !has_entry(self.connections@, id) ==> r.is_none(),
            has_entry(self.connections@, id) ==> exists|i: int| is_entry(self.connections@, id, i)
                && r == Some(&self.connections@[i].1),
    {
        match self.position(id) {
            Some(i) => Some(&self.connections[i].1),
            None => None,
        }
    }

    /// The entry with key `id`, for changing in place.
    pub fn get_connection_mut(&mut self, id: u128) -> (r: Option<&mut Connection<T>>)
        requires
            old(self).wf(),
        ensures
            final(self).wf(),
            !has_entry(old(self).connections@, id) ==> r.is_none() && final(self).connections@ == old(self).connections@,
            has_entry(old(self).connections@, id) ==> exists|i: int| is_entry(old(self).connections@, id, i)
                && r.is_some() && *r.unwrap() == old(self).connections@[i].1
                && final(self).connections@ == old(self).connections@.update(i, (id, *final(r.unwrap()))),
    {
        match self.position(id) {
            Some(i) => {
                let entry = &mut self.connections[i].1;
                Some(entry)
            },
            None => None,
        }
    }

    /// Records that the connection with key `id` was heard from at `now`; false when there is
    /// no such connection.
    pub fn touch(&mut self, id: u128, now: u64) -> (r: bool)
        requires
            old(self).wf(),
        ensures
            final(self).wf(),
            r == has_entry(old(self).connections@, id),
            !r ==> final(self).connections@ == old(self).connections@,
            r ==> exists|i: int| is_entry(old(self).connections@, id, i) && final(self).connections@
                == old(self).connections@.update(i, (id, Connection { last_ping: now, ..old(self).connections@[i].1 })),
    {
        match self.position(id) {
            Some(i) => {
                let (key, mut c) = self.connections.remove(i);
                c.update_ping(now);
                self.connections.insert(i, (key, c));
                proof {
                    assert(self.connections@ =~= old(self).connections@.update(i as int, (id, Connection { last_ping: now, ..old(self).connections@[i as int].1 })));
                }
                true
            },
            None => false,
        }
    }

    /// Binds the connection with key `id` to a session, or to none; false when there is no
    /// such connection.
    pub fn set_session(&mut self, id: u128, session_id: Option<u128>) -> (r: bool)
        requires
            old(self).wf(),
        ensures
            final(self).wf(),
            r == has_entry(old(self).connections@, id),
            !r ==> final(self).connections@ == old(self).connections@,
            r ==> exists|i: int| is_entry(old(self).connections@, id, i) && final(self).connections@
                == old(self).connections@.update(i, (id, Connection { session_id, ..old(self).connections@[i].1 })),
    {
        match self.position(id) {
            Some(i) => {
                let (key, mut c) = self.connections.remove(i);
                c.session_id = session_id;
                self.connections.insert(i, (key, c));
                proof {
                    assert(self.connections@ =~= old(self).connections@.update(i as int, (id, Connection { session_id, ..old(self).connections@[i as int].1 })));
                }
                true
            },
            None => false,
        }
    }

    /// Records the player name of the connection with key `id`; false when there is no such
    /// connection.
    pub fn set_player_name(&mut self, id: u128, player_name: Option<String>) -> (r: bool)
        requires
            old(self).wf(),
        ensures
            final(self).wf(),
            r == has_entry(old(self).connections@, id),
            !r ==> final(self).connections@ == old(self).connections@,
            r ==> exists|i: int| is_entry(old(self).connections@, id, i) && final(self).connections@
                == old(self).connections@.update(i, (id, Connection { player_name, ..old(self).connections@[i].1 })),
    {
        match self.position(id) {
            Some(i) => {
                let (key, mut c) = self.connections.remove(i);
                c.player_name = player_name;
                self.connections.insert(i, (key, c));
                proof {
                    assert(self.connections@ =~= old(self).connections@.update(i as int, (id, Connection { player_name, ..old(self).connections@[i as int].1 })));
                }
                true
            },
            None => false,
        }
    }

    /// Records that the connection with key `id` was heard from at `now`, and its player name
    /// and session when given; the other connections stay as they are.
    pub fn record(&mut self, id: u128, now: u64, player_name: Option<String>, session_id: Option<u128>)
        requires
            old(self).wf(),
        ensures
            final(self).wf(),
            recorded(old(self).connections@, final(self).connections@, id, now, player_name, session_id),
    {
        let ghost pn = player_name;
        let ghost sn = session_id;
        match self.position(id) {
            Some(i) => {
                let (key, mut c) = self.connections.remove(i);
                c.last_ping = now;
                match player_name {
                    Some(name) => {
                        c.player_name = Some(name);
                    },
                    None => {},
                }
                match session_id {
                    Some(sid) => {
                        c.session_id = Some(sid);
                    },
                    None => {},
                }
                let ghost cv = c;
                self.connections.insert(i, (key, c));
                proof {
                    let b = old(self).connections@;
                    let a = self.connections@;
                    assert forall|k: int| 0 <= k < b.len() && b[k].0 == id implies k == i as int by {
                        if k < i as int {
                            assert(b[k].0 != b[i as int].0);
                        } else if k > i as int {
                            assert(b[i as int].0 != b[k].0);
                        }
                    }
                    assert(cv == Connection {
                        last_ping: now,
                        player_name: if pn is Some { pn } else { b[i as int].1.player_name },
                        session_id: if sn is Some { sn } else { b[i as int].1.session_id },
                        ..b[i as int].1
                    });
                    assert(a =~= b.update(i as int, (id, cv)));
                    assert forall|k: int| 0 <= k < b.len() && b[k].0 == id implies #[trigger] a[k] == (
                        id,
                        Connection {
                            last_ping: now,
                            player_name: if pn is Some { pn } else { b[k].1.player_name },
                            session_id: if sn is Some { sn } else { b[k].1.session_id },
                            ..b[k].1
                        },
                    ) by {
                        assert(k == i as int);
                    }
                    assert(recorded(b, a, id, now, pn, sn));
                }
            },
            None => {
                proof {
                    let b = old(self).connections@;
                    assert forall|k: int| 0 <= k < b.len() implies b[k].0 != id by {
                        if b[k].0 == id {
                            assert(is_entry(b, id, k));
                        }
                    }
                }
            },
        }
    }

    /// The session the connection with key `id` is bound to.
    pub fn session_of(&self, id: u128) -> (r: Option<u128>)
        requires
            self.wf(),
        ensures
            r == bound_session(self.connections@, id),
    {
        match self.position(id) {
            Some(i) => {
                proof {
                    lemma_bound_session(self.connections@, id, i as int);
                }
                self.connections[i].1.session_id
            },
            None => None,
        }
    }

    /// Drops every connection silent for longer than the client timeout at `now`; returns
    /// their keys in registry order.
    pub fn cleanup_timed_out(&mut self, now: u64) -> (r: Vec<u128>)
        requires
            old(self).wf(),
        ensures
            final(self).wf(),
            final(self).connections@ == live_entries(old(self).connections@, now),
            r@ == dropped_keys(old(self).connections@, now),
    {
        broadcast use vstd::seq_lib::group_filter_ensures;
        let ghost orig = self.connections@;
        let mut rest: Vec<(u128, Connection<T>)> = Vec::new();
        std::mem::swap(&mut rest, &mut self.connections);
        let mut timed_out: Vec<u128> = Vec::new();
        let n = rest.len();
        let mut i: usize = 0;
        while i < n
            invariant
                n == orig.len(),
                i <= n,
                rest@ == orig.skip(i as int),
                self.connections@ == live_entries(orig.take(i as int), now),
                timed_out@ == dropped_keys(orig.take(i as int), now),
            decreases n - i,
        {
            let entry = rest.remove(0);
            proof {
                assert(entry == orig[i as int]);
                assert(orig.take(i as int + 1) =~= orig.take(i as int).push(entry));
                orig.take(i as int).lemma_filter_push(entry, |e: (u128, Connection<T>)| !(since(now, e.1.last_ping) > CLIENT_TIMEOUT_MS));
                orig.take(i as int).lemma_filter_push(entry, |e: (u128, Connection<T>)| since(now, e.1.last_ping) > CLIENT_TIMEOUT_MS);
                assert(rest@ =~= orig.skip(i as int + 1));
            }
            let ghost before = timed_out@;
            if entry.1.is_timed_out(now) {
                timed_out.push(entry.0);
                proof {
                    let pred = |e: (u128, Connection<T>)| since(now, e.1.last_ping) > CLIENT_TIMEOUT_MS;
                    assert(orig.take(i as int).push(entry).filter(pred) == orig.take(i as int).filter(pred).push(entry));
                    assert(timed_out@ =~= orig.take(i as int).filter(pred).push(entry).map_values(|e: (u128, Connection<T>)| e.0));
                }
            } else {
                self.connections.push(entry);
            }
            i = i + 1;
        }
        proof {
            assert(orig.take(n as int) =~= orig);
            let live = self.connections@;
            assert forall|a: int, b: int| 0 <= a < b < live.len() implies #[trigger] live[a].0 != #[trigger] live[b].0 by {
                live_entries_keys_distinct(orig, now, a, b);
            }
        }
        timed_out
    }

    /// Number of live connections.
    pub fn get_connections_count(&self) -> (r: usize)
        ensures
            r == self.connections@.len(),
    {
        self.connections.len()
    }
}

/// Keeping some entries in order keeps their keys distinct.
proof fn live_entries_keys_distinct<T>(orig: Seq<(u128, Connection<T>)>, now: u64, a: int, b: int)
    requires
        forall|i: int, j: int| 0 <= i < j < orig.len() ==> #[trigger] orig[i].0 != #[trigger] orig[j].0,
        0 <= a < b < live_entries(orig, now).len(),
    ensures
        live_entries(orig, now)[a].0 != live_entries(orig, now)[b].0,
    decreases orig.len(),
{
    broadcast use vstd::seq_lib::group_filter_ensures;
    let pred = |e: (u128, Connection<T>)| !(since(now, e.1.last_ping) > CLIENT_TIMEOUT_MS);
    let init = orig.drop_last();
    assert(init.push(orig.last()) =~= orig);
    init.lemma_filter_push(orig.last(), pred);
    if b < live_entries(init, now).len() {
        live_entries_keys_distinct(init, now, a, b);
    } else {
        let x = live_entries(orig, now)[a];
        assert(live_entries(init, now)[a] == x);
        assert(live_entries(init, now).contains(x));
        init.lemma_filter_contains_rev(pred, x);
        let k = choose|k: int| 0 <= k < init.len() && init[k] == x;
        assert(orig[k] == x);
        assert(live_entries(orig, now)[b] == orig.last());
        assert(orig[orig.len() - 1] == orig.last());
    }
}

} // verus!
