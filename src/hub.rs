use vstd::prelude::*;

verus! {

/// The slot that subscribers watch: nothing yet, or the latest encoded
/// payload for everyone.
pub enum Transmission {
    Empty,
    BroadcastToAll(Vec<u8>),
}

/// What a new subscriber receives first: the latest encoded vehicles and
/// active-stops payloads (empty before the first of each).
pub struct InitialState {
    pub vehicles: Vec<u8>,
    pub active_stops: Vec<u8>,
}

/// Opened (`true`) minus closed (`false`) sessions of `ip` in a log.
pub open spec fn open_sessions(log: Seq<(u128, bool)>, ip: u128) -> int
    decreases log.len(),
{
    if log.len() == 0 {
        0
    } else {
        open_sessions(log.drop_last(), ip) + if log.last().0 == ip {
            if log.last().1 {
                1int
            } else {
                -1int
            }
        } else {
            0int
        }
    }
}

/// The number of open connections of each client address (an IPv4 address
/// is held in its IPv6-mapped form). An address without connections has no
/// entry. Every counted open and close is kept as a ghost log.
pub struct ConnectionTable {
    entries: Vec<(u128, u64)>,
    counts: Ghost<Map<u128, nat>>,
    log: Ghost<Seq<(u128, bool)>>,
}

impl ConnectionTable {
    pub closed spec fn wf(&self) -> bool {
        let e = self.entries@;
        let c = self.counts@;
        &&& forall|i: int, j: int| 0 <= i < j < e.len() ==> e[i].0 != e[j].0
        &&& forall|i: int|
            0 <= i < e.len() ==> #[trigger] e[i].1 > 0 && c.contains_key(e[i].0) && c[e[i].0]
                == e[i].1
        &&& forall|ip: u128| #[trigger] c.contains_key(ip) ==> exists|i: int| 0 <= i < e.len() && e[i].0 == ip
        &&& forall|ip: u128| #[trigger]
            open_sessions(self.log@, ip) == if c.contains_key(ip) {
                c[ip] as int
            } else {
                0int
            }
    }

    /// The number of open connections of `ip`.
    pub closed spec fn count(&self, ip: u128) -> nat {
        if self.counts@.contains_key(ip) {
            self.counts@[ip]
        } else {
            0
        }
    }

    /// Whether the table lists `ip`.
    pub closed spec fn has_entry(&self, ip: u128) -> bool {
        exists|i: int| 0 <= i < self.entries@.len() && self.entries@[i].0 == ip
    }

    /// Every counted open and close, in order.
    pub closed spec fn sessions(&self) -> Seq<(u128, bool)> {
        self.log@
    }

    pub closed spec fn listing(&self) -> Seq<(u128, u64)> {
        self.entries@
    }

    pub fn new() -> (r: Self)
        ensures
            r.wf(),
            r.sessions() == Seq::<(u128, bool)>::empty(),
            forall|ip: u128| r.count(ip) == 0,
    {
        ConnectionTable { entries: Vec::new(), counts: Ghost(Map::empty()), log: Ghost(Seq::empty()) }
    }

    fn find(&self, ip: u128) -> (r: Option<usize>)
        ensures
            match r {
                Some(k) => k < self.entries@.len() && self.entries@[k as int].0 == ip,
                None => forall|i: int| 0 <= i < self.entries@.len() ==> self.entries@[i].0 != ip,
            },
    {
        let mut i: usize = 0;
        while i < self.entries.len()
            invariant
                i <= self.entries@.len(),
                forall|j: int| 0 <= j < i ==> self.entries@[j].0 != ip,
            decreases self.entries.len() - i,
        {
            if self.entries[i].0 == ip {
                return Some(i);
            }
            i = i + 1;
        }
        None
    }

    /// The number of open connections of `ip`.
    pub fn connection_count(&self, ip: u128) -> (r: u64)
        requires
            self.wf(),
        ensures
            r == self.count(ip),
    {
        match self.find(ip) {
            Some(k) => self.entries[k].1,
            None => 0,
        }
    }

    /// Counts one more connection of `ip`.
    pub fn connect(&mut self, ip: u128)
        requires
            old(self).wf(),
            old(self).count(ip) < u64::MAX,
        ensures
            final(self).wf(),
            final(self).sessions() == old(self).sessions().push((ip, true)),
            final(self).count(ip) == old(self).count(ip) + 1,
            forall|other: u128| other != ip ==> final(self).count(other) == old(self).count(other),
    {
        let ghost log = self.log@.push((ip, true));
        let ghost e0 = self.entries@;
        let ghost c0 = self.counts@;
        let ghost log0 = self.log@;
        match self.find(ip) {
            Some(k) => {
                let c = self.entries[k].1;
                assert(self.counts@[ip] == c);
                self.entries.set(k, (ip, c + 1));
                self.counts = Ghost(self.counts@.insert(ip, (c + 1) as nat));
            },
            None => {
                assert(!self.counts@.contains_key(ip));
                self.entries.push((ip, 1));
                self.counts = Ghost(self.counts@.insert(ip, 1nat));
            },
        }
        self.log = Ghost(log);
        proof {
            let e = self.entries@;
            let c = self.counts@;
            assert forall|x: u128| #[trigger] c.contains_key(x) implies exists|i: int|
                0 <= i < e.len() && e[i].0 == x by {
                if x == ip {
                    if e0.len() < e.len() {
                        assert(e[e.len() - 1].0 == x);
                    } else {
                        let k = choose|k: int| 0 <= k < e0.len() && e0[k].0 == ip;
                        assert(e[k].0 == x);
                    }
                } else {
                    let i = choose|i: int| 0 <= i < e0.len() && e0[i].0 == x;
                    assert(e[i].0 == x);
                }
            }
            assert forall|x: u128| #[trigger]
                open_sessions(log, x) == if c.contains_key(x) {
                    c[x] as int
                } else {
                    0int
                } by {
                assert(log.drop_last() =~= log0);
                assert(open_sessions(log0, x) == if c0.contains_key(x) {
                    c0[x] as int
                } else {
                    0int
                });
            }
        }
    }

    /// Counts one connection of `ip` fewer; an address left without
    /// connections loses its entry. Nothing changes where `ip` has none.
    pub fn disconnect(&mut self, ip: u128)
        requires
            old(self).wf(),
        ensures
            final(self).wf(),
            old(self).count(ip) > 0 ==> final(self).sessions() == old(self).sessions().push((ip, false))
                && final(self).count(ip) == old(self).count(ip) - 1,
            old(self).count(ip) == 0 ==> final(self).sessions() == old(self).sessions() && final(self).count(ip) == 0,
            forall|other: u128| other != ip ==> final(self).count(other) == old(self).count(other),
    {
        let ghost e0 = self.entries@;
        let ghost c0 = self.counts@;
        let ghost log0 = self.log@;
        match self.find(ip) {
            Some(k) => {
                let ghost log = self.log@.push((ip, false));
                let c = self.entries[k].1;
                assert(self.counts@[ip] == c);
                if c > 1 {
                    self.entries.set(k, (ip, c - 1));
                    self.counts = Ghost(self.counts@.insert(ip, (c - 1) as nat));
                } else {
                    self.entries.remove(k);
                    self.counts = Ghost(self.counts@.remove(ip));
                }
                self.log = Ghost(log);
                proof {
                    let e = self.entries@;
                    let cm = self.counts@;
                    assert forall|i: int, j: int| 0 <= i < j < e.len() implies e[i].0 != e[j].0 by {
                        if c <= 1 {
                            let oi = if i < k { i } else { i + 1 };
                            let oj = if j < k { j } else { j + 1 };
                            assert(e[i] == e0[oi] && e[j] == e0[oj]);
                        }
                    }
                    assert forall|i: int|
                        0 <= i < e.len() implies #[trigger] e[i].1 > 0 && cm.contains_key(e[i].0) && cm[e[i].0] == e[i].1 by {
                        if c <= 1 {
                            let oi = if i < k { i } else { i + 1 };
                            assert(e[i] == e0[oi]);
                            assert(e0[oi].0 != e0[k as int].0);
                            assert(e0[oi].1 > 0 && c0.contains_key(e0[oi].0) && c0[e0[oi].0] == e0[oi].1);
                        } else if i != k {
                            assert(e[i] == e0[i]);
                            assert(e0[i].0 != e0[k as int].0);
                            assert(e0[i].1 > 0 && c0.contains_key(e0[i].0) && c0[e0[i].0] == e0[i].1);
                        }
                    }
                    assert forall|x: u128| #[trigger] cm.contains_key(x) implies exists|i: int|
                        0 <= i < e.len() && e[i].0 == x by {
                        if x == ip {
                            assert(e[k as int].0 == x);
                        } else {
                            let i = choose|i: int| 0 <= i < e0.len() && e0[i].0 == x;
                            if c <= 1 {
                                if i < k {
                                    assert(e[i].0 == x);
                                } else {
                                    assert(e[i - 1].0 == x);
                                }
                            } else {
                                assert(e[i].0 == x);
                            }
                        }
                    }
                    assert forall|x: u128| #[trigger]
                        open_sessions(log, x) == if cm.contains_key(x) {
                            cm[x] as int
                        } else {
                            0int
                        } by {
                        assert(log.drop_last() =~= log0);
                        assert(open_sessions(log0, x) == if c0.contains_key(x) {
                            c0[x] as int
                        } else {
                            0int
                        });
                    }
                }
            },
            None => {
                assert(!self.counts@.contains_key(ip));
            },
        }
    }

    /// The table as `(address, open connections)` pairs.
    pub fn snapshot(&self) -> (r: Vec<(u128, u64)>)
        ensures
            r@ == self.listing(),
    {
        let mut r: Vec<(u128, u64)> = Vec::new();
        let mut i: usize = 0;
        while i < self.entries.len()
            invariant
                i <= self.entries@.len(),
                r@ == self.entries@.take(i as int),
            decreases self.entries.len() - i,
        {
            r.push(self.entries[i]);
            assert(r@ =~= self.entries@.take(i + 1));
            i = i + 1;
        }
        assert(self.entries@.take(i as int) =~= self.entries@);
        r
    }

    /// The count of each address is its number of open connections, and an
    /// address with no open connection has no entry.
    pub proof fn lemma_counts_are_open_connections(&self, ip: u128)
        requires
            self.wf(),
        ensures
            self.count(ip) == open_sessions(self.sessions(), ip),
            self.count(ip) == 0 <==> !self.has_entry(ip),
            forall|i: int|
                0 <= i < self.listing().len() ==> #[trigger] self.listing()[i].1 == self.count(
                    self.listing()[i].0,
                ) && self.listing()[i].1 > 0,
    {
        assert(open_sessions(self.log@, ip) == if self.counts@.contains_key(ip) {
            self.counts@[ip] as int
        } else {
            0int
        });
        if self.has_entry(ip) {
            let i = choose|i: int| 0 <= i < self.entries@.len() && self.entries@[i].0 == ip;
            assert(self.entries@[i].1 > 0);
        }
    }
}

/// The broadcast hub's state: the latest payloads, the transmission slot
/// with a generation number that changes on every transmission, and the
/// connection table.
pub struct Hub {
    initial: InitialState,
    transmission: Transmission,
    generation: u64,
    connections: ConnectionTable,
}

impl Hub {
    pub closed spec fn wf(&self) -> bool {
        self.connections.wf()
    }

    pub closed spec fn vehicles_blob(&self) -> Seq<u8> {
        self.initial.vehicles@
    }

    pub closed spec fn active_stops_blob(&self) -> Seq<u8> {
        self.initial.active_stops@
    }

    /// The latest transmission, if there was one.
    pub closed spec fn transmission_view(&self) -> Option<Seq<u8>> {
        match &self.transmission {
            Transmission::Empty => None,
            Transmission::BroadcastToAll(b) => Some(b@),
        }
    }

    pub closed spec fn generation_view(&self) -> u64 {
        self.generation
    }

    pub closed spec fn connections_view(&self) -> ConnectionTable {
        self.connections
    }

    /// A well-formed hub holds a well-formed connection table: counts match
    /// open connections and no address is listed without one.
    pub proof fn lemma_connections(&self)
        requires
            self.wf(),
        ensures
            self.connections_view().wf(),
    {
    }

    /// A hub with no payloads, no transmission and no connections.
    pub fn new() -> (r: Self)
        ensures
            r.wf(),
            r.vehicles_blob().len() == 0,
            r.active_stops_blob().len() == 0,
            r.transmission_view() is None,
            r.generation_view() == 0,
            forall|ip: u128| r.connections_view().count(ip) == 0,
    {
        Hub {
            initial: InitialState { vehicles: Vec::new(), active_stops: Vec::new() },
            transmission: Transmission::Empty,
            generation: 0,
            connections: ConnectionTable::new(),
        }
    }

    /// Stores the latest vehicles payload and transmits it to everyone.
    pub fn publish_vehicles(&mut self, blob: Vec<u8>)
        requires
            old(self).wf(),
        ensures
            final(self).wf(),
            final(self).vehicles_blob() == blob@,
            final(self).active_stops_blob() == old(self).active_stops_blob(),
            final(self).transmission_view() == Some(blob@),
            final(self).generation_view() == old(self).generation_view().wrapping_add(1),
            final(self).connections_view() == old(self).connections_view(),
    {
        self.initial.vehicles = copy_bytes(&blob);
        self.transmission = Transmission::BroadcastToAll(blob);
        self.generation = self.generation.wrapping_add(1);
    }

    /// Stores the latest active-stops payload and transmits it to everyone.
    pub fn publish_active_stops(&mut self, blob: Vec<u8>)
        requires
            old(self).wf(),
        ensures
            final(self).wf(),
            final(self).active_stops_blob() == blob@,
            final(self).vehicles_blob() == old(self).vehicles_blob(),
            final(self).transmission_view() == Some(blob@),
            final(self).generation_view() == old(self).generation_view().wrapping_add(1),
            final(self).connections_view() == old(self).connections_view(),
    {
        self.initial.active_stops = copy_bytes(&blob);
        self.transmission = Transmission::BroadcastToAll(blob);
        self.generation = self.generation.wrapping_add(1);
    }

    /// Admits a subscriber from `ip`: counts the connection and returns the
    /// two frames it receives first (the latest vehicles payload, then the
    /// latest active-stops payload) with the generation it has now seen.
    pub fn subscribe(&mut self, ip: u128) -> (r: (Vec<u8>, Vec<u8>, u64))
        requires
            old(self).wf(),
            old(self).connections_view().count(ip) < u64::MAX,
        ensures
            final(self).wf(),
            r.0@ == old(self).vehicles_blob(),
            r.1@ == old(self).active_stops_blob(),
            r.2 == old(self).generation_view(),
            final(self).vehicles_blob() == old(self).vehicles_blob(),
            final(self).active_stops_blob() == old(self).active_stops_blob(),
            final(self).transmission_view() == old(self).transmission_view(),
            final(self).generation_view() == old(self).generation_view(),
            final(self).connections_view().sessions() == old(self).connections_view().sessions().push(
                (ip, true),
            ),
            final(self).connections_view().count(ip) == old(self).connections_view().count(ip) + 1,
            forall|other: u128|
                other != ip ==> final(self).connections_view().count(other) == old(self).connections_view().count(other),
    {
        self.connections.connect(ip);
        (copy_bytes(&self.initial.vehicles), copy_bytes(&self.initial.active_stops), self.generation)
    }

    /// Releases a subscriber from `ip`.
    pub fn unsubscribe(&mut self, ip: u128)
        requires
            old(self).wf(),
        ensures
            final(self).wf(),
            final(self).vehicles_blob() == old(self).vehicles_blob(),
            final(self).active_stops_blob() == old(self).active_stops_blob(),
            final(self).transmission_view() == old(self).transmission_view(),
            final(self).generation_view() == old(self).generation_view(),
            old(self).connections_view().count(ip) > 0 ==> final(self).connections_view().sessions()
                == old(self).connections_view().sessions().push((ip, false)) && final(self).connections_view().count(ip) == old(self).connections_view().count(ip) - 1,
            old(self).connections_view().count(ip) == 0 ==> final(self).connections_view().sessions()
                == old(self).connections_view().sessions() && final(self).connections_view().count(ip)
                == 0,
            forall|other: u128|
                other != ip ==> final(self).connections_view().count(other) == old(self).connections_view().count(other),
    {
        self.connections.disconnect(ip);
    }

    /// What a subscriber that has seen generation `seen` receives next: the
    /// latest transmission and its generation, if it has not seen it. Older
    /// transmissions it missed are skipped.
    pub fn next_transmission(&self, seen: u64) -> (r: Option<(u64, Vec<u8>)>)
        ensures
            match r {
                Some((g, b)) => g == self.generation_view() && seen != g && self.transmission_view()
                    == Some(b@),
                None => seen == self.generation_view() || self.transmission_view() is None,
            },
    {
        if seen == self.generation {
            return None;
        }
        match &self.transmission {
            Transmission::Empty => None,
            Transmission::BroadcastToAll(b) => Some((self.generation, copy_bytes(b))),
        }
    }

    /// The number of open connections of `ip`.
    pub fn connection_count(&self, ip: u128) -> (r: u64)
        requires
            self.wf(),
        ensures
            r == self.connections_view().count(ip),
    {
        self.connections.connection_count(ip)
    }

    /// The connection table as `(address, open connections)` pairs.
    pub fn connections(&self) -> (r: Vec<(u128, u64)>)
        ensures
            r@ == self.connections_view().listing(),
    {
        self.connections.snapshot()
    }
}

fn copy_bytes(b: &Vec<u8>) -> (r: Vec<u8>)
    ensures
        r@ == b@,
{
    let mut r: Vec<u8> = Vec::new();
    let mut i: usize = 0;
    while i < b.len()
        invariant
            i <= b.len(),
            r@ == b@.take(i as int),
        decreases b.len() - i,
    {
        r.push(b[i]);
        assert(r@ =~= b@.take(i + 1));
        i = i + 1;
    }
    assert(b@.take(i as int) =~= b@);
    r
}

/// The mean interval between pings, in milliseconds.
pub const PING_INTERVAL_MS: u64 = 30_000;

/// The largest distance of a ping interval from the mean, in milliseconds.
pub const PING_JITTER_MS: i64 = 5_000;

/// Relies on rand's `random_range` over an inclusive range: a value drawn
/// from `low..=high`.
#[verifier::external_body]
fn random_between(low: i64, high: i64) -> (r: i64)
    requires
        low <= high,
    ensures
        low <= r <= high,
{
    rand::random_range(low..=high)
}

/// The ping interval for a jitter of `offset` milliseconds.
pub fn ping_interval_ms(offset: i64) -> (r: u64)
    requires
        -PING_JITTER_MS <= offset <= PING_JITTER_MS,
    ensures
        r == PING_INTERVAL_MS + offset,
{
    (PING_INTERVAL_MS as i64 + offset) as u64
}

/// A ping interval drawn between 25 s and 35 s inclusive, in milliseconds.
pub fn draw_ping_interval_ms() -> (r: u64)
    ensures
        PING_INTERVAL_MS - PING_JITTER_MS <= r <= PING_INTERVAL_MS + PING_JITTER_MS,
{
    let offset = random_between(-PING_JITTER_MS, PING_JITTER_MS);
    ping_interval_ms(offset)
}

} // verus!
