//! Peers and the registry that holds them.

use crate::gossip::{
    bounded, lemma_square_bound, lemma_sum_bounds, lemma_sum_push, lemma_sum_update, sum,
    sum_squares, Gossiper, HeartbeatStats, IpAddress, Peer, PeerStatus, State, StatusOutcome,
    HARD_TIMEOUT, HEARTBEAT_WINDOW, MIN_SAMPLES, OFFLINE_PHI, SUSPECT_PHI,
};
use vstd::prelude::*;

verus! {

/// The interval that is recorded for a heartbeat at `now` after one at
/// `last`: the time between them, and `HARD_TIMEOUT` at most.
pub open spec fn interval(last: u64, now: u64) -> u64 {
    if now <= last {
        0
    } else if now - last > HARD_TIMEOUT {
        HARD_TIMEOUT
    } else {
        (now - last) as u64
    }
}

/// The state of a peer after a heartbeat of it was seen: a peer that was
/// not alive is alive again, unless it left.
pub open spec fn revived(state: State) -> State {
    match state {
        State::Seed | State::Suspected | State::Offline => State::Alive,
        other => other,
    }
}

/// The state of a peer after a failure scan found the suspicion `phi`, in
/// thousandths, `elapsed` milliseconds after its last heartbeat. Only a
/// peer that is alive or suspected changes.
pub open spec fn scanned(state: State, phi: u64, elapsed: u64) -> State {
    if state != State::Alive && state != State::Suspected {
        state
    } else if phi >= OFFLINE_PHI || elapsed > HARD_TIMEOUT {
        State::Offline
    } else if phi >= SUSPECT_PHI && state == State::Alive {
        State::Suspected
    } else {
        state
    }
}

impl Peer {
    /// How many intervals of the window count: all of them once the window
    /// has been filled, and before that those written so far.
    pub open spec fn samples(&self) -> int {
        if self.hb_is_full {
            HEARTBEAT_WINDOW as int
        } else {
            self.hb_window_pos as int
        }
    }

    /// The window is `HEARTBEAT_WINDOW` long, the cursor stands in it, no
    /// interval is longer than `HARD_TIMEOUT`, and the two sums are those of
    /// the intervals that count.
    pub open spec fn wf(&self) -> bool {
        &&& self.hb_window@.len() == HEARTBEAT_WINDOW
        &&& self.hb_window_pos < HEARTBEAT_WINDOW
        &&& bounded(self.hb_window@)
        &&& self.hb_sum == sum(self.hb_window@.take(self.samples()))
        &&& self.hb_sq_sum == sum_squares(self.hb_window@.take(self.samples()))
    }

    /// A peer that nothing is known of but its address.
    pub open spec fn is_fresh(&self, addr: IpAddress, state: State, now: u64) -> bool {
        &&& self.addr == addr
        &&& self.state == state
        &&& self.last_heartbeat == now
        &&& self.hb_window@ == Seq::new(HEARTBEAT_WINDOW as nat, |i: int| 0u64)
        &&& self.hb_window_pos == 0
        &&& self.hb_sum == 0
        &&& self.hb_sq_sum == 0
        &&& !self.hb_is_full
    }

    /// What the peer is told to the other nodes as.
    pub open spec fn status(&self) -> PeerStatus {
        PeerStatus {
            addr: self.addr,
            epoch: self.epoch,
            gen_config: self.gen_config,
            gen_lists: self.gen_lists,
            state: self.state,
        }
    }

    /// Whether the peer is well formed.
    pub fn check(&self) -> (ok: bool)
        ensures
            ok == self.wf(),
    {
        if self.hb_window.len() != HEARTBEAT_WINDOW || self.hb_window_pos >= HEARTBEAT_WINDOW {
            return false;
        }
        let count = if self.hb_is_full {
            HEARTBEAT_WINDOW
        } else {
            self.hb_window_pos
        };
        let mut i: usize = 0;
        while i < HEARTBEAT_WINDOW
            invariant
                i <= HEARTBEAT_WINDOW,
                self.hb_window@.len() == HEARTBEAT_WINDOW,
                forall|j: int| 0 <= j < i ==> #[trigger] self.hb_window@[j] <= HARD_TIMEOUT,
            decreases HEARTBEAT_WINDOW - i,
        {
            if self.hb_window[i] > HARD_TIMEOUT {
                return false;
            }
            i = i + 1;
        }
        let mut total: u64 = 0;
        let mut squares: u64 = 0;
        let mut k: usize = 0;
        proof {
            assert(self.hb_window@.take(0) =~= Seq::<u64>::empty());
        }
        while k < count
            invariant
                k <= count <= HEARTBEAT_WINDOW,
                self.hb_window@.len() == HEARTBEAT_WINDOW,
                bounded(self.hb_window@),
                total == sum(self.hb_window@.take(k as int)),
                squares == sum_squares(self.hb_window@.take(k as int)),
                total <= 30_000 * k,
                squares <= 900_000_000 * k,
            decreases count - k,
        {
            let v = self.hb_window[k];
            proof {
                lemma_square_bound(v);
                assert(self.hb_window@.take(k + 1) =~= self.hb_window@.take(k as int).push(v));
                lemma_sum_push(self.hb_window@.take(k as int), v);
            }
            total = total + v;
            squares = squares + v * v;
            k = k + 1;
        }
        self.hb_sum == total && self.hb_sq_sum == squares
    }

    /// An empty window.
    fn empty_window() -> (window: Vec<u64>)
        ensures
            window@ == Seq::new(HEARTBEAT_WINDOW as nat, |i: int| 0u64),
    {
        let mut window: Vec<u64> = Vec::new();
        while window.len() < HEARTBEAT_WINDOW
            invariant
                window.len() <= HEARTBEAT_WINDOW,
                forall|i: int| 0 <= i < window.len() ==> window[i] == 0,
            decreases HEARTBEAT_WINDOW - window.len(),
        {
            window.push(0);
        }
        proof {
            assert(window@ =~= Seq::new(HEARTBEAT_WINDOW as nat, |i: int| 0u64));
        }
        window
    }

    /// A peer that the configuration names, at the time `now`.
    pub fn new_seed(addr: IpAddress, now: u64) -> (peer: Peer)
        ensures
            peer.wf(),
            peer.is_fresh(addr, State::Seed, now),
            peer.epoch == 0,
            peer.gen_config == 0,
            peer.gen_lists == 0,
    {
        let peer = Peer {
            epoch: 0,
            gen_config: 0,
            gen_lists: 0,
            addr,
            state: State::Seed,
            last_heartbeat: now,
            hb_window: Peer::empty_window(),
            hb_window_pos: 0,
            hb_sum: 0,
            hb_sq_sum: 0,
            hb_is_full: false,
        };
        proof {
            assert(peer.hb_window@.take(0) =~= Seq::<u64>::empty());
        }
        peer
    }

    /// A peer that was first heard of in the status `value`, at the time
    /// `now`: it is alive, and its window is empty.
    pub fn from(value: PeerStatus, now: u64) -> (peer: Peer)
        ensures
            peer.wf(),
            peer.is_fresh(value.addr, State::Alive, now),
            peer.epoch == value.epoch,
            peer.gen_config == value.gen_config,
            peer.gen_lists == value.gen_lists,
    {
        let peer = Peer {
            addr: value.addr,
            epoch: value.epoch,
            gen_config: value.gen_config,
            gen_lists: value.gen_lists,
            state: State::Alive,
            last_heartbeat: now,
            hb_window: Peer::empty_window(),
            hb_window_pos: 0,
            hb_sum: 0,
            hb_sq_sum: 0,
            hb_is_full: false,
        };
        proof {
            assert(peer.hb_window@.take(0) =~= Seq::<u64>::empty());
        }
        peer
    }

    pub fn is_seed(&self) -> (b: bool)
        ensures
            b == (self.state == State::Seed),
    {
        self.state == State::Seed
    }

    pub fn is_alive(&self) -> (b: bool)
        ensures
            b == (self.state == State::Alive),
    {
        self.state == State::Alive
    }

    pub fn is_suspected(&self) -> (b: bool)
        ensures
            b == (self.state == State::Suspected),
    {
        self.state == State::Suspected
    }

    /// Whether the peer is alive or suspected.
    pub fn is_healthy(&self) -> (b: bool)
        ensures
            b == (self.state == State::Alive || self.state == State::Suspected),
    {
        matches!(self.state, State::Alive | State::Suspected)
    }

    /// Whether the peer is offline or has left.
    pub fn is_offline(&self) -> (b: bool)
        ensures
            b == (self.state == State::Offline || self.state == State::Left),
    {
        matches!(self.state, State::Offline | State::Left)
    }

    /// What the peer is told to the other nodes as.
    pub fn to_status(&self) -> (status: PeerStatus)
        ensures
            status == self.status(),
    {
        PeerStatus {
            addr: self.addr,
            epoch: self.epoch,
            gen_config: self.gen_config,
            gen_lists: self.gen_lists,
            state: self.state,
        }
    }

    /// Records a heartbeat at the time `now`: the interval since the last
    /// one goes into the window, over the oldest interval once the window
    /// is full, and the sums follow.
    pub fn record_heartbeat(&mut self, now: u64)
        requires
            old(self).wf(),
        ensures
            final(self).wf(),
            final(self).last_heartbeat == now,
            final(self).hb_window@ == old(self).hb_window@.update(
                old(self).hb_window_pos as int,
                interval(old(self).last_heartbeat, now),
            ),
            final(self).hb_window_pos == (old(self).hb_window_pos + 1) % HEARTBEAT_WINDOW as int,
            final(self).hb_is_full == (old(self).hb_is_full || old(self).hb_window_pos + 1
                == HEARTBEAT_WINDOW),
            final(self).addr == old(self).addr,
            final(self).epoch == old(self).epoch,
            final(self).gen_config == old(self).gen_config,
            final(self).gen_lists == old(self).gen_lists,
            final(self).state == old(self).state,
    {
        let sample: u64 = if now <= self.last_heartbeat {
            0
        } else if now - self.last_heartbeat > HARD_TIMEOUT {
            HARD_TIMEOUT
        } else {
            now - self.last_heartbeat
        };
        let pos = self.hb_window_pos;
        let ghost before = self.hb_window@;
        let ghost k = self.samples();
        proof {
            lemma_sum_bounds(before.take(k));
            lemma_square_bound(sample);
            assert forall|i: int| 0 <= i < before.take(k).len() implies #[trigger] before.take(
                k,
            )[i] <= HARD_TIMEOUT by {
                assert(before.take(k)[i] == before[i]);
            }
        }
        if self.hb_is_full {
            let evicted = self.hb_window[pos];
            proof {
                lemma_square_bound(evicted);
                assert(before.take(k) =~= before);
                lemma_sum_update(before, pos as int, sample);
                lemma_sum_update(before, pos as int, 0);
                assert(evicted == before[pos as int]);
                assert(sum(before) >= evicted);
                assert(sum_squares(before) >= (evicted as nat) * (evicted as nat));
                assert(self.hb_sum == sum(before));
                assert(self.hb_sq_sum == sum_squares(before));
                lemma_sum_bounds(before.update(pos as int, sample).take(k));
                assert(before.update(pos as int, sample).take(k) =~= before.update(
                    pos as int,
                    sample,
                ));
                assert(bounded(before.update(pos as int, sample)));
                lemma_sum_bounds(before.update(pos as int, sample));
            }
            self.hb_sum = self.hb_sum - evicted + sample;
            self.hb_sq_sum = self.hb_sq_sum - evicted * evicted + sample * sample;
        } else {
            proof {
                assert(before.update(pos as int, sample).take(k + 1) =~= before.take(k).push(
                    sample,
                ));
                lemma_sum_push(before.take(k), sample);
            }
            self.hb_sum = self.hb_sum + sample;
            self.hb_sq_sum = self.hb_sq_sum + sample * sample;
        }
        self.hb_window.set(pos, sample);
        if pos + 1 == HEARTBEAT_WINDOW {
            self.hb_window_pos = 0;
            self.hb_is_full = true;
            proof {
                assert(self.hb_window@.take(HEARTBEAT_WINDOW as int) =~= self.hb_window@);
                if !old(self).hb_is_full {
                    assert(self.hb_window@ =~= before.take(k).push(sample));
                }
            }
        } else {
            self.hb_window_pos = pos + 1;
        }
        self.last_heartbeat = now;
    }

    /// Takes in a status of this peer that was received at the time `now`.
    ///
    /// A status with an older epoch than the peer's is stale and changes
    /// nothing. One with a newer epoch tells of a heartbeat: the epoch is
    /// taken over, the heartbeat is recorded, and a peer that was a seed,
    /// suspected or offline is alive again. A newer generation of the
    /// configuration or of the lists is taken over and asks for a pull,
    /// whether or not the epoch is newer. A status that says the peer left
    /// makes a healthy peer one that left.
    pub fn update(&mut self, status: &PeerStatus, now: u64) -> (outcome: StatusOutcome)
        requires
            old(self).wf(),
        ensures
            final(self).wf(),
            final(self).addr == old(self).addr,
            final(self).epoch >= old(self).epoch,
            status.epoch < old(self).epoch ==> *final(self) == *old(self) && outcome == (
            StatusOutcome { heartbeat: false, pull_config: false, pull_lists: false }),
            status.epoch >= old(self).epoch ==> {
                &&& outcome.heartbeat == (status.epoch > old(self).epoch)
                &&& outcome.pull_config == (status.gen_config > old(self).gen_config)
                &&& outcome.pull_lists == (status.gen_lists > old(self).gen_lists)
                &&& final(self).epoch == status.epoch
                &&& final(self).gen_config == if outcome.pull_config {
                    status.gen_config
                } else {
                    old(self).gen_config
                }
                &&& final(self).gen_lists == if outcome.pull_lists {
                    status.gen_lists
                } else {
                    old(self).gen_lists
                }
                &&& final(self).state == {
                    let state = if outcome.heartbeat {
                        revived(old(self).state)
                    } else {
                        old(self).state
                    };
                    if status.state == State::Left && (state == State::Alive || state
                        == State::Suspected) {
                        State::Left
                    } else {
                        state
                    }
                }
                &&& outcome.heartbeat ==> final(self).last_heartbeat == now && final(self).hb_window@
                    == old(self).hb_window@.update(
                    old(self).hb_window_pos as int,
                    interval(old(self).last_heartbeat, now),
                )
                &&& !outcome.heartbeat ==> final(self).last_heartbeat == old(self).last_heartbeat
                    && final(self).hb_window@ == old(self).hb_window@ && final(self).hb_window_pos
                    == old(self).hb_window_pos
            },
    {
        if status.epoch < self.epoch {
            return StatusOutcome { heartbeat: false, pull_config: false, pull_lists: false };
        }
        let heartbeat = status.epoch > self.epoch;
        if heartbeat {
            self.epoch = status.epoch;
            self.record_heartbeat(now);
            match self.state {
                State::Seed | State::Suspected | State::Offline => {
                    self.state = State::Alive;
                },
                _ => {},
            }
        }
        let pull_config = status.gen_config > self.gen_config;
        if pull_config {
            self.gen_config = status.gen_config;
        }
        let pull_lists = status.gen_lists > self.gen_lists;
        if pull_lists {
            self.gen_lists = status.gen_lists;
        }
        if status.state == State::Left && self.is_healthy() {
            self.state = State::Left;
        }
        StatusOutcome { heartbeat, pull_config, pull_lists }
    }

    /// The intervals from which a suspicion is computed, if there are
    /// `MIN_SAMPLES` of them: with fewer, there is no suspicion.
    pub fn heartbeat_stats(&self) -> (stats: Option<HeartbeatStats>)
        requires
            self.wf(),
        ensures
            match stats {
                Some(s) => s.count == self.samples() && s.count >= MIN_SAMPLES && s.sum == sum(
                    self.hb_window@.take(self.samples()),
                ) && s.sq_sum == sum_squares(self.hb_window@.take(self.samples())),
                None => self.samples() < MIN_SAMPLES,
            },
    {
        let count = if self.hb_is_full {
            HEARTBEAT_WINDOW
        } else {
            self.hb_window_pos
        };
        if count < MIN_SAMPLES {
            None
        } else {
            Some(HeartbeatStats { count, sum: self.hb_sum, sq_sum: self.hb_sq_sum })
        }
    }

    /// Sets the state that a failure scan finds: `phi` is the suspicion in
    /// thousandths, `elapsed` the milliseconds since the last heartbeat.
    /// Returns whether the peer went offline by this.
    pub fn scan(&mut self, phi: u64, elapsed: u64) -> (went_offline: bool)
        requires
            old(self).wf(),
        ensures
            final(self).wf(),
            final(self).state == scanned(old(self).state, phi, elapsed),
            *final(self) == (Peer { state: final(self).state, ..*old(self) }),
            went_offline == (final(self).state == State::Offline && old(self).state
                != State::Offline),
    {
        if !self.is_healthy() {
            false
        } else if phi >= OFFLINE_PHI || elapsed > HARD_TIMEOUT {
            self.state = State::Offline;
            true
        } else if phi >= SUSPECT_PHI && self.state == State::Alive {
            self.state = State::Suspected;
            false
        } else {
            false
        }
    }
}

/// The index of the first peer of `peers` at or after `from` that has the
/// address `addr`, or the length of `peers` if there is none.
pub open spec fn position(peers: Seq<Peer>, addr: IpAddress, from: int) -> int
    decreases peers.len() - from,
{
    if from < 0 || from >= peers.len() {
        peers.len() as int
    } else if peers[from].addr == addr {
        from
    } else {
        position(peers, addr, from + 1)
    }
}

/// The first peer with an address is found at its index, and no peer
/// before it has the address.
pub proof fn lemma_position(peers: Seq<Peer>, addr: IpAddress, from: int)
    requires
        0 <= from <= peers.len(),
    ensures
        from <= position(peers, addr, from) <= peers.len(),
        position(peers, addr, from) < peers.len() ==> peers[position(peers, addr, from)].addr
            == addr,
        forall|i: int| from <= i < position(peers, addr, from) ==> peers[i].addr != addr,
    decreases peers.len() - from,
{
    if from < peers.len() && peers[from].addr != addr {
        lemma_position(peers, addr, from + 1);
    }
}

/// The addresses of the peers of `peers` that are in the state `state`, in
/// order.
pub open spec fn in_state(peers: Seq<Peer>, state: State) -> Seq<IpAddress>
    decreases peers.len(),
{
    if peers.len() == 0 {
        Seq::empty()
    } else if peers.last().state == state {
        in_state(peers.drop_last(), state).push(peers.last().addr)
    } else {
        in_state(peers.drop_last(), state)
    }
}

/// The statuses of `peers`, in order.
pub open spec fn statuses(peers: Seq<Peer>) -> Seq<PeerStatus> {
    Seq::new(peers.len(), |i: int| peers[i].status())
}

impl Gossiper {
    /// Every peer is well formed, none has the node's own address, and no
    /// two have the same address.
    pub open spec fn wf(&self) -> bool {
        &&& forall|i: int| 0 <= i < self.peers@.len() ==> (#[trigger] self.peers@[i]).wf()
        &&& forall|i: int| 0 <= i < self.peers@.len() ==> (#[trigger] self.peers@[i]).addr
            != self.addr
        &&& forall|i: int, j: int|
            0 <= i < j < self.peers@.len() ==> (#[trigger] self.peers@[i]).addr != (
            #[trigger] self.peers@[j]).addr
    }

    /// Whether a peer has the address `addr`.
    pub open spec fn knows(&self, addr: IpAddress) -> bool {
        position(self.peers@, addr, 0) < self.peers@.len()
    }

    /// The peer with the address `addr`.
    pub open spec fn peer(&self, addr: IpAddress) -> Peer
        recommends
            self.knows(addr),
    {
        self.peers@[position(self.peers@, addr, 0)]
    }

    /// What the node tells the other nodes of itself.
    pub open spec fn own_status(&self) -> PeerStatus {
        PeerStatus {
            addr: self.addr,
            epoch: self.epoch,
            gen_config: self.gen_config,
            gen_lists: self.gen_lists,
            state: State::Alive,
        }
    }

    /// Every peer that `before` knew is still known, at the same place,
    /// with an epoch that is not older.
    pub open spec fn follows(&self, before: &Gossiper) -> bool {
        &&& self.addr == before.addr
        &&& self.epoch >= before.epoch
        &&& self.peers@.len() >= before.peers@.len()
        &&& forall|i: int|
            0 <= i < before.peers@.len() ==> (#[trigger] self.peers@[i]).addr
                == before.peers@[i].addr && self.peers@[i].epoch >= before.peers@[i].epoch
    }

    /// Whether the registry is well formed.
    pub fn check(&self) -> (ok: bool)
        ensures
            ok == self.wf(),
    {
        let mut i: usize = 0;
        while i < self.peers.len()
            invariant
                i <= self.peers.len(),
                forall|a: int| 0 <= a < i ==> (#[trigger] self.peers@[a]).wf(),
                forall|a: int| 0 <= a < i ==> (#[trigger] self.peers@[a]).addr != self.addr,
                forall|a: int, b: int|
                    0 <= a < b < i ==> (#[trigger] self.peers@[a]).addr != (
                    #[trigger] self.peers@[b]).addr,
            decreases self.peers.len() - i,
        {
            if !self.peers[i].check() || self.peers[i].addr == self.addr {
                return false;
            }
            let mut j: usize = 0;
            while j < i
                invariant
                    j <= i < self.peers.len(),
                    forall|a: int| 0 <= a < j ==> (#[trigger] self.peers@[a]).addr
                        != self.peers@[i as int].addr,
                decreases i - j,
            {
                if self.peers[j].addr == self.peers[i].addr {
                    return false;
                }
                j = j + 1;
            }
            i = i + 1;
        }
        true
    }

    /// A node at `addr` that knows no peer.
    pub fn new(addr: IpAddress) -> (gossiper: Gossiper)
        ensures
            gossiper.wf(),
            gossiper.addr == addr,
            gossiper.epoch == 0,
            gossiper.gen_config == 0,
            gossiper.gen_lists == 0,
            gossiper.peers@.len() == 0,
    {
        Gossiper { addr, epoch: 0, gen_config: 0, gen_lists: 0, peers: Vec::new() }
    }

    /// The index of the peer with the address `addr`.
    pub fn find(&self, addr: &IpAddress) -> (index: Option<usize>)
        ensures
            match index {
                Some(i) => i == position(self.peers@, *addr, 0) && i < self.peers@.len()
                    && self.peers@[i as int].addr == *addr,
                None => !self.knows(*addr) && forall|i: int|
                    0 <= i < self.peers@.len() ==> self.peers@[i].addr != *addr,
            },
    {
        let mut i: usize = 0;
        proof {
            lemma_position(self.peers@, *addr, 0);
        }
        while i < self.peers.len()
            invariant
                i <= self.peers.len(),
                position(self.peers@, *addr, 0) == position(self.peers@, *addr, i as int),
            decreases self.peers.len() - i,
        {
            if self.peers[i].addr == *addr {
                return Some(i);
            }
            i = i + 1;
        }
        None
    }

    /// Adds the seed `addr` at the time `now`, unless it is the node's own
    /// address or that of a peer. Returns whether it was added.
    pub fn add_seed(&mut self, addr: IpAddress, now: u64) -> (added: bool)
        requires
            old(self).wf(),
        ensures
            final(self).wf(),
            final(self).follows(old(self)),
            final(self).epoch == old(self).epoch,
            added == (addr != old(self).addr && !old(self).knows(addr)),
            added ==> final(self).peers@.len() == old(self).peers@.len() + 1 && final(self).peers@.last().is_fresh(addr, State::Seed, now) && final(self).peers@.last().epoch
                == 0,
            forall|i: int|
                0 <= i < old(self).peers@.len() ==> final(self).peers@[i] == old(self).peers@[i],
            !added ==> final(self).peers@ == old(self).peers@,
    {
        if addr == self.addr {
            return false;
        }
        match self.find(&addr) {
            Some(_) => false,
            None => {
                self.peers.push(Peer::new_seed(addr, now));
                true
            },
        }
    }

    /// Whether the peer at `addr` is known and healthy.
    pub fn is_peer_healthy(&self, addr: &IpAddress) -> (healthy: bool)
        ensures
            healthy == exists|i: int|
                0 <= i < self.peers@.len() && self.peers@[i].addr == *addr && (self.peers@[i].state
                    == State::Alive || self.peers@[i].state == State::Suspected),
    {
        let mut i: usize = 0;
        while i < self.peers.len()
            invariant
                i <= self.peers.len(),
                forall|j: int|
                    0 <= j < i ==> !(self.peers@[j].addr == *addr && (self.peers@[j].state
                        == State::Alive || self.peers@[j].state == State::Suspected)),
            decreases self.peers.len() - i,
        {
            if self.peers[i].addr == *addr && self.peers[i].is_healthy() {
                return true;
            }
            i = i + 1;
        }
        false
    }

    /// The first peer with the address `addr`.
    pub fn get_peer(&self, addr: &IpAddress) -> (peer: Option<&Peer>)
        ensures
            match peer {
                Some(p) => self.knows(*addr) && *p == self.peer(*addr) && p.addr == *addr,
                None => !self.knows(*addr),
            },
    {
        match self.find(addr) {
            Some(i) => Some(&self.peers[i]),
            None => None,
        }
    }

    /// Whether a peer has the address `addr`.
    pub fn is_known_peer(&self, addr: &IpAddress) -> (known: bool)
        ensures
            known == self.knows(*addr),
    {
        self.find(addr).is_some()
    }

    /// The first peer with the address `addr`, to change it. The registry
    /// afterwards holds what the caller made of the peer, in its place.
    pub fn get_peer_mut(&mut self, addr: &IpAddress) -> (peer: Option<&mut Peer>)
        ensures
            final(self).addr == old(self).addr,
            final(self).epoch == old(self).epoch,
            final(self).gen_config == old(self).gen_config,
            final(self).gen_lists == old(self).gen_lists,
            match peer {
                Some(p) => old(self).knows(*addr) && *p == old(self).peer(*addr) && final(self).peers@ == old(self).peers@.update(
                    position(old(self).peers@, *addr, 0),
                    *final(p),
                ),
                None => !old(self).knows(*addr) && final(self).peers@ == old(self).peers@,
            },
    {
        match self.find(addr) {
            Some(i) => Some(&mut self.peers[i]),
            None => None,
        }
    }

    /// What the node tells the other nodes: its own status, then that of
    /// each peer, in the order in which the peers are held.
    pub fn build_peer_status(&self) -> (result: Vec<PeerStatus>)
        ensures
            result@ == seq![self.own_status()] + statuses(self.peers@),
    {
        let mut result: Vec<PeerStatus> = Vec::new();
        result.push(
            PeerStatus {
                addr: self.addr,
                epoch: self.epoch,
                gen_config: self.gen_config,
                gen_lists: self.gen_lists,
                state: State::Alive,
            },
        );
        let mut i: usize = 0;
        while i < self.peers.len()
            invariant
                i <= self.peers.len(),
                result@ == seq![self.own_status()] + statuses(self.peers@.take(i as int)),
            decreases self.peers.len() - i,
        {
            result.push(self.peers[i].to_status());
            proof {
                assert(statuses(self.peers@.take(i + 1)) =~= statuses(
                    self.peers@.take(i as int),
                ).push(self.peers@[i as int].status()));
                assert(result@ =~= seq![self.own_status()] + statuses(self.peers@.take(i + 1)));
            }
            i = i + 1;
        }
        proof {
            assert(self.peers@.take(self.peers@.len() as int) =~= self.peers@);
        }
        result
    }

    /// The peers that a heartbeat may be sent to, the preferred ones first:
    /// the living, then the suspected, then the seeds. Peers that are
    /// offline or have left are not among them.
    pub fn targets(&self) -> (addrs: Vec<IpAddress>)
        ensures
            addrs@ == in_state(self.peers@, State::Alive) + in_state(
                self.peers@,
                State::Suspected,
            ) + in_state(self.peers@, State::Seed),
    {
        let mut alive: Vec<IpAddress> = Vec::new();
        let mut suspected: Vec<IpAddress> = Vec::new();
        let mut seeds: Vec<IpAddress> = Vec::new();
        let mut i: usize = 0;
        proof {
            assert(self.peers@.take(0) =~= Seq::<Peer>::empty());
        }
        while i < self.peers.len()
            invariant
                i <= self.peers.len(),
                alive@ == in_state(self.peers@.take(i as int), State::Alive),
                suspected@ == in_state(self.peers@.take(i as int), State::Suspected),
                seeds@ == in_state(self.peers@.take(i as int), State::Seed),
            decreases self.peers.len() - i,
        {
            proof {
                let next = self.peers@.take(i + 1);
                assert(next.drop_last() =~= self.peers@.take(i as int));
                assert(next.last() == self.peers@[i as int]);
            }
            match self.peers[i].state {
                State::Alive => alive.push(self.peers[i].addr),
                State::Suspected => suspected.push(self.peers[i].addr),
                State::Seed => seeds.push(self.peers[i].addr),
                _ => {},
            }
            i = i + 1;
        }
        proof {
            assert(self.peers@.take(self.peers@.len() as int) =~= self.peers@);
        }
        alive.append(&mut suspected);
        alive.append(&mut seeds);
        alive
    }

    /// Counts one heartbeat of the node itself and returns what it tells
    /// the other nodes. The epoch stays where it is once it cannot grow.
    pub fn heartbeat(&mut self) -> (result: Vec<PeerStatus>)
        requires
            old(self).wf(),
        ensures
            final(self).wf(),
            final(self).follows(old(self)),
            final(self).peers@ == old(self).peers@,
            final(self).epoch == if old(self).epoch < u64::MAX {
                (old(self).epoch + 1) as u64
            } else {
                old(self).epoch
            },
            final(self).gen_config == old(self).gen_config,
            final(self).gen_lists == old(self).gen_lists,
            result@ == seq![final(self).own_status()] + statuses(final(self).peers@),
    {
        if self.epoch < u64::MAX {
            self.epoch = self.epoch + 1;
        }
        self.build_peer_status()
    }

    /// Takes in one status that was received at the time `now`.
    ///
    /// A status of the node itself is passed over. One of a node that is
    /// not known adds that node as a living peer. One of a peer is handed
    /// to that peer.
    pub fn handle_status(&mut self, status: &PeerStatus, now: u64) -> (outcome: StatusOutcome)
        requires
            old(self).wf(),
        ensures
            final(self).wf(),
            final(self).follows(old(self)),
            final(self).epoch == old(self).epoch,
            final(self).gen_config == old(self).gen_config,
            final(self).gen_lists == old(self).gen_lists,
            status.addr == old(self).addr ==> final(self).peers@ == old(self).peers@ && outcome
                == (StatusOutcome { heartbeat: false, pull_config: false, pull_lists: false }),
            status.addr != old(self).addr && !old(self).knows(status.addr) ==> {
                &&& final(self).peers@.len() == old(self).peers@.len() + 1
                &&& final(self).peers@.last().is_fresh(status.addr, State::Alive, now)
                &&& final(self).peers@.last().epoch == status.epoch
                &&& final(self).peers@.last().gen_config == status.gen_config
                &&& final(self).peers@.last().gen_lists == status.gen_lists
                &&& forall|i: int|
                    0 <= i < old(self).peers@.len() ==> final(self).peers@[i] == old(self).peers@[i]
                &&& outcome == (StatusOutcome {
                    heartbeat: true,
                    pull_config: false,
                    pull_lists: false,
                })
            },
            status.addr != old(self).addr && old(self).knows(status.addr) ==> {
                let at = position(old(self).peers@, status.addr, 0);
                &&& final(self).peers@.len() == old(self).peers@.len()
                &&& forall|i: int|
                    0 <= i < old(self).peers@.len() && i != at ==> final(self).peers@[i] == old(self).peers@[i]
                &&& status.epoch < old(self).peers@[at].epoch ==> final(self).peers@[at] == old(self).peers@[at]
                &&& status.epoch >= old(self).peers@[at].epoch ==> final(self).peers@[at].epoch
                    == status.epoch
                &&& outcome.heartbeat == (status.epoch > old(self).peers@[at].epoch)
                &&& outcome.pull_config == (status.epoch >= old(self).peers@[at].epoch
                    && status.gen_config > old(self).peers@[at].gen_config)
                &&& outcome.pull_lists == (status.epoch >= old(self).peers@[at].epoch
                    && status.gen_lists > old(self).peers@[at].gen_lists)
            },
    {
        if status.addr == self.addr {
            return StatusOutcome { heartbeat: false, pull_config: false, pull_lists: false };
        }
        match self.find(&status.addr) {
            None => {
                self.peers.push(Peer::from(*status, now));
                StatusOutcome { heartbeat: true, pull_config: false, pull_lists: false }
            },
            Some(i) => {
                let mut peer = self.peers.remove(i);
                let outcome = peer.update(status, now);
                self.peers.insert(i, peer);
                proof {
                    assert(self.peers@.len() == old(self).peers@.len());
                    assert forall|j: int| 0 <= j < self.peers@.len() && j != i implies self.peers@[j]
                        == old(self).peers@[j] by {}
                }
                outcome
            },
        }
    }

    /// Sets the state that a failure scan finds for the peer at `index`:
    /// `phi` is the suspicion in thousandths, `elapsed` the milliseconds
    /// since the peer's last heartbeat. Returns whether the peer went
    /// offline by this.
    pub fn scan_peer(&mut self, index: usize, phi: u64, elapsed: u64) -> (went_offline: bool)
        requires
            old(self).wf(),
            index < old(self).peers@.len(),
        ensures
            final(self).wf(),
            final(self).follows(old(self)),
            final(self).epoch == old(self).epoch,
            final(self).peers@.len() == old(self).peers@.len(),
            forall|i: int|
                0 <= i < old(self).peers@.len() && i != index ==> final(self).peers@[i] == old(self).peers@[i],
            final(self).peers@[index as int] == (Peer {
                state: scanned(old(self).peers@[index as int].state, phi, elapsed),
                ..old(self).peers@[index as int]
            }),
            went_offline == (final(self).peers@[index as int].state == State::Offline && old(self).peers@[index as int].state != State::Offline),
    {
        let mut peer = self.peers.remove(index);
        let went_offline = peer.scan(phi, elapsed);
        self.peers.insert(index, peer);
        proof {
            assert forall|j: int| 0 <= j < self.peers@.len() && j != index implies self.peers@[j]
                == old(self).peers@[j] by {}
        }
        went_offline
    }
}

/// Epochs never go back, however many changes a registry goes through:
/// if every change leaves every epoch where it was or further on, so does
/// the whole run of them.
pub proof fn lemma_follows_is_transitive(first: &Gossiper, second: &Gossiper, third: &Gossiper)
    requires
        second.follows(first),
        third.follows(second),
    ensures
        third.follows(first),
{
    assert forall|i: int| 0 <= i < first.peers@.len() implies (#[trigger] third.peers@[i]).addr
        == first.peers@[i].addr && third.peers@[i].epoch >= first.peers@[i].epoch by {
        assert(second.peers@[i].addr == first.peers@[i].addr);
    }
}

} // verus!
