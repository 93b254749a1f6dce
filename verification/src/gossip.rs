//! Cluster membership by gossip: the peers that a node knows, the state it
//! holds each of them in, and the window of heartbeat intervals by which it
//! tells the living from the dead.

use vstd::prelude::*;

pub mod peer;
pub mod wire;

verus! {

/// How many heartbeat intervals a peer's window holds.
pub const HEARTBEAT_WINDOW: usize = 64;

/// The longest heartbeat interval that is recorded, in milliseconds. A
/// longer silence counts as this long; it is the silence after which a peer
/// is offline whatever its history.
pub const HARD_TIMEOUT: u64 = 30_000;

/// The suspicion, in thousandths, from which a living peer is suspected.
pub const SUSPECT_PHI: u64 = 8_000;

/// The suspicion, in thousandths, from which a peer is offline.
pub const OFFLINE_PHI: u64 = 12_000;

/// The fewest intervals from which a suspicion is computed.
pub const MIN_SAMPLES: usize = 3;

/// The address of a node.
#[derive(Clone, Copy, Debug, PartialEq, Eq, Hash, Structural)]
pub enum IpAddress {
    V4(u32),
    V6(u128),
}

/// What a node holds a peer to be.
#[derive(Clone, Copy, Debug, PartialEq, Eq, Structural)]
pub enum State {
    /// Named in the configuration and not heard from yet.
    Seed,
    Alive,
    Suspected,
    Offline,
    /// The peer said that it leaves.
    Left,
}

/// What nodes tell each other of a node.
#[derive(Clone, Copy, Debug, PartialEq, Eq, Structural)]
pub struct PeerStatus {
    pub addr: IpAddress,
    pub epoch: u64,
    pub gen_config: u64,
    pub gen_lists: u64,
    pub state: State,
}

/// A peer as a node knows it.
#[derive(Clone, Debug)]
pub struct Peer {
    pub addr: IpAddress,
    /// Counts the peer's heartbeats; only ever grows.
    pub epoch: u64,
    pub gen_config: u64,
    pub gen_lists: u64,
    pub state: State,
    /// When the peer was last heard from, in milliseconds of a clock that
    /// does not go back.
    pub last_heartbeat: u64,
    /// The last heartbeat intervals, in milliseconds.
    pub hb_window: Vec<u64>,
    /// Where in the window the next interval goes.
    pub hb_window_pos: usize,
    /// The sum of the intervals in the window.
    pub hb_sum: u64,
    /// The sum of the squares of the intervals in the window.
    pub hb_sq_sum: u64,
    /// Whether the window has been filled once.
    pub hb_is_full: bool,
}

/// A node's view of the cluster: itself and its peers.
#[derive(Clone, Debug)]
pub struct Gossiper {
    pub addr: IpAddress,
    pub epoch: u64,
    pub gen_config: u64,
    pub gen_lists: u64,
    pub peers: Vec<Peer>,
}

/// What a received status asks the node to do.
#[derive(Clone, Copy, Debug, PartialEq, Eq, Structural)]
pub struct StatusOutcome {
    /// The status told of a heartbeat that the node had not seen.
    pub heartbeat: bool,
    /// The peer has a newer configuration than the node has seen of it.
    pub pull_config: bool,
    /// The peer has newer lists than the node has seen of it.
    pub pull_lists: bool,
}

/// The intervals from which a suspicion is computed: how many there are,
/// their sum and the sum of their squares.
#[derive(Clone, Copy, Debug, PartialEq, Eq, Structural)]
pub struct HeartbeatStats {
    pub count: usize,
    pub sum: u64,
    pub sq_sum: u64,
}

/// The sum of `s`.
pub open spec fn sum(s: Seq<u64>) -> nat
    decreases s.len(),
{
    if s.len() == 0 {
        0
    } else {
        sum(s.drop_last()) + s.last() as nat
    }
}

/// The sum of the squares of `s`.
pub open spec fn sum_squares(s: Seq<u64>) -> nat
    decreases s.len(),
{
    if s.len() == 0 {
        0
    } else {
        sum_squares(s.drop_last()) + (s.last() as nat) * (s.last() as nat)
    }
}

/// No interval in `s` is longer than `HARD_TIMEOUT`.
pub open spec fn bounded(s: Seq<u64>) -> bool {
    forall|i: int| 0 <= i < s.len() ==> #[trigger] s[i] <= HARD_TIMEOUT
}

/// The square of a recorded interval is at most that of `HARD_TIMEOUT`.
pub proof fn lemma_square_bound(v: u64)
    requires
        v <= HARD_TIMEOUT,
    ensures
        (v as nat) * (v as nat) <= 900_000_000,
{
    assert((v as nat) * (v as nat) <= 900_000_000) by (nonlinear_arith)
        requires
            v <= 30_000,
    ;
}

/// The sums of bounded intervals are bounded by their number.
pub proof fn lemma_sum_bounds(s: Seq<u64>)
    requires
        bounded(s),
    ensures
        sum(s) <= 30_000 * s.len(),
        sum_squares(s) <= 900_000_000 * s.len(),
    decreases s.len(),
{
    if s.len() > 0 {
        assert(s.last() == s[s.len() - 1]);
        assert forall|i: int| 0 <= i < s.drop_last().len() implies #[trigger] s.drop_last()[i]
            <= HARD_TIMEOUT by {
            assert(s.drop_last()[i] == s[i]);
        }
        lemma_sum_bounds(s.drop_last());
        lemma_square_bound(s.last());
    }
}

/// Appending an interval adds it to the sums.
pub proof fn lemma_sum_push(s: Seq<u64>, v: u64)
    ensures
        sum(s.push(v)) == sum(s) + v,
        sum_squares(s.push(v)) == sum_squares(s) + (v as nat) * (v as nat),
{
    assert(s.push(v).drop_last() =~= s);
}

/// Replacing an interval takes the old one out of the sums and puts the new
/// one in.
pub proof fn lemma_sum_update(s: Seq<u64>, i: int, v: u64)
    requires
        0 <= i < s.len(),
    ensures
        sum(s.update(i, v)) == sum(s) - s[i] + v,
        sum_squares(s.update(i, v)) == sum_squares(s) - (s[i] as nat) * (s[i] as nat) + (v as nat)
            * (v as nat),
    decreases s.len(),
{
    if i == s.len() - 1 {
        assert(s.update(i, v).drop_last() =~= s.drop_last());
    } else {
        assert(s.update(i, v).drop_last() =~= s.drop_last().update(i, v));
        lemma_sum_update(s.drop_last(), i, v);
    }
}

} // verus!
