//! The datagram in which nodes tell each other what they know: the number
//! of entries in two bytes, then the entries, forty-one bytes each. An
//! entry is the address in sixteen bytes, the epoch and the two
//! generations in eight bytes each, and the state in one; every number is
//! written with its lowest byte first. An IPv4 address is written as the
//! IPv6 address that is mapped to it.

use crate::gossip::{IpAddress, PeerStatus, State};
use vstd::bytes::{
    lemma_auto_spec_u128_to_from_le_bytes, lemma_auto_spec_u16_to_from_le_bytes,
    lemma_auto_spec_u64_to_from_le_bytes, spec_u128_from_le_bytes, spec_u128_to_le_bytes,
    spec_u16_from_le_bytes, spec_u16_to_le_bytes, spec_u64_from_le_bytes, spec_u64_to_le_bytes,
    u128_from_le_bytes, u128_to_le_bytes, u16_from_le_bytes, u16_to_le_bytes, u64_from_le_bytes,
    u64_to_le_bytes,
};
use vstd::prelude::*;
use vstd::slice::slice_subrange;

verus! {

/// The length of one entry.
pub const ENTRY_BYTES: usize = 41;

/// The most entries that one datagram holds, so that it fits into one
/// packet of 1400 bytes.
pub const MAX_ENTRIES: usize = 34;

/// What is wrong with gossip.
#[derive(Clone, Copy, Debug, PartialEq, Eq, Structural)]
pub enum GossipError {
    /// The datagram is not a list of entries.
    Decode,
}

/// The number that stands for an address on the wire.
pub open spec fn address_number(addr: IpAddress) -> u128 {
    match addr {
        IpAddress::V4(a) => (0xffff_0000_0000 + a) as u128,
        IpAddress::V6(a) => a,
    }
}

/// The address that a number on the wire stands for.
pub open spec fn number_address(n: u128) -> IpAddress {
    if n / 0x1_0000_0000 == 0xffff {
        IpAddress::V4((n % 0x1_0000_0000) as u32)
    } else {
        IpAddress::V6(n)
    }
}

/// An address that is read back as it was written: any IPv4 address, and
/// any IPv6 address that is not an IPv4 address mapped.
pub open spec fn canonical(addr: IpAddress) -> bool {
    match addr {
        IpAddress::V4(_) => true,
        IpAddress::V6(a) => a / 0x1_0000_0000 != 0xffff,
    }
}

pub open spec fn state_byte(state: State) -> u8 {
    match state {
        State::Seed => 0,
        State::Alive => 1,
        State::Suspected => 2,
        State::Offline => 3,
        State::Left => 4,
    }
}

pub open spec fn byte_state(b: u8) -> Option<State> {
    if b == 0 {
        Some(State::Seed)
    } else if b == 1 {
        Some(State::Alive)
    } else if b == 2 {
        Some(State::Suspected)
    } else if b == 3 {
        Some(State::Offline)
    } else if b == 4 {
        Some(State::Left)
    } else {
        None
    }
}

/// The bytes of one entry.
pub open spec fn entry_bytes(status: PeerStatus) -> Seq<u8> {
    spec_u128_to_le_bytes(address_number(status.addr)) + spec_u64_to_le_bytes(status.epoch)
        + spec_u64_to_le_bytes(status.gen_config) + spec_u64_to_le_bytes(status.gen_lists)
        + seq![state_byte(status.state)]
}

/// The bytes of the entries of `list`, one after the other.
pub open spec fn entries_bytes(list: Seq<PeerStatus>) -> Seq<u8>
    decreases list.len(),
{
    if list.len() == 0 {
        Seq::empty()
    } else {
        entries_bytes(list.drop_last()) + entry_bytes(list.last())
    }
}

/// The datagram that tells `list`.
pub open spec fn datagram(list: Seq<PeerStatus>) -> Seq<u8> {
    spec_u16_to_le_bytes(list.len() as u16) + entries_bytes(list)
}

/// The entry that starts at `at`, if its state is one.
pub open spec fn entry_at(bytes: Seq<u8>, at: int) -> Option<PeerStatus> {
    match byte_state(bytes[at + 40]) {
        Some(state) => Some(
            PeerStatus {
                addr: number_address(spec_u128_from_le_bytes(bytes.subrange(at, at + 16))),
                epoch: spec_u64_from_le_bytes(bytes.subrange(at + 16, at + 24)),
                gen_config: spec_u64_from_le_bytes(bytes.subrange(at + 24, at + 32)),
                gen_lists: spec_u64_from_le_bytes(bytes.subrange(at + 32, at + 40)),
                state,
            },
        ),
        None => None,
    }
}

/// The first `count` entries of a datagram, if each of them is one.
pub open spec fn entries_at(bytes: Seq<u8>, count: nat) -> Option<Seq<PeerStatus>>
    decreases count,
{
    if count == 0 {
        Some(Seq::empty())
    } else {
        match (entries_at(bytes, (count - 1) as nat), entry_at(bytes, 2 + 41 * (count - 1))) {
            (Some(list), Some(entry)) => Some(list.push(entry)),
            _ => None,
        }
    }
}

/// The list that a datagram tells: its length must be what the number of
/// entries asks for, and every entry must have a state.
pub open spec fn decode_spec(bytes: Seq<u8>) -> Option<Seq<PeerStatus>> {
    if bytes.len() >= 2 && bytes.len() == 2 + 41 * spec_u16_from_le_bytes(bytes.subrange(0, 2)) {
        entries_at(bytes, spec_u16_from_le_bytes(bytes.subrange(0, 2)) as nat)
    } else {
        None
    }
}

/// Whether a peer in this state is told before others where not all fit.
pub open spec fn preferred(status: PeerStatus) -> bool {
    status.state == State::Alive || status.state == State::Suspected
}

/// The entries of `list` that are preferred, or those that are not, in
/// their order.
pub open spec fn chosen(list: Seq<PeerStatus>, want: bool) -> Seq<PeerStatus>
    decreases list.len(),
{
    if list.len() == 0 {
        Seq::empty()
    } else if preferred(list.last()) == want {
        chosen(list.drop_last(), want).push(list.last())
    } else {
        chosen(list.drop_last(), want)
    }
}

/// What of `list` is told in one datagram. A list that fits is told as it
/// is. Of a longer one the first entry, which is the node's own, comes
/// first, then the healthy peers, then the others, as many as fit.
pub open spec fn fitted(list: Seq<PeerStatus>) -> Seq<PeerStatus> {
    if list.len() <= MAX_ENTRIES {
        list
    } else {
        (seq![list[0]] + chosen(list.skip(1), true) + chosen(list.skip(1), false)).take(
            MAX_ENTRIES as int,
        )
    }
}

pub proof fn lemma_chosen_len(list: Seq<PeerStatus>)
    ensures
        chosen(list, true).len() + chosen(list, false).len() == list.len(),
    decreases list.len(),
{
    if list.len() > 0 {
        lemma_chosen_len(list.drop_last());
    }
}

/// An entry is forty-one bytes long.
pub proof fn lemma_entry_len(status: PeerStatus)
    ensures
        entry_bytes(status).len() == 41,
{
    lemma_auto_spec_u128_to_from_le_bytes();
    lemma_auto_spec_u64_to_from_le_bytes();
}

/// The entries of a list are forty-one bytes each, and each stands at its
/// place.
pub proof fn lemma_entries(list: Seq<PeerStatus>)
    ensures
        entries_bytes(list).len() == 41 * list.len(),
        forall|k: int|
            0 <= k < list.len() ==> #[trigger] entries_bytes(list).subrange(41 * k, 41 * k + 41)
                == entry_bytes(list[k]),
    decreases list.len(),
{
    if list.len() > 0 {
        let front = list.drop_last();
        lemma_entries(front);
        lemma_entry_len(list.last());
        assert forall|k: int| 0 <= k < list.len() implies #[trigger] entries_bytes(list).subrange(
            41 * k,
            41 * k + 41,
        ) == entry_bytes(list[k]) by {
            if k < front.len() {
                assert(entries_bytes(front).subrange(41 * k, 41 * k + 41) == entry_bytes(front[k]));
                assert(entries_bytes(list).subrange(41 * k, 41 * k + 41) =~= entries_bytes(
                    front,
                ).subrange(41 * k, 41 * k + 41));
            } else {
                assert(entries_bytes(list).subrange(41 * k, 41 * k + 41) =~= entry_bytes(
                    list.last(),
                ));
            }
        }
    }
}

/// An entry that was written is read back as it was.
pub proof fn lemma_entry_round_trip(bytes: Seq<u8>, at: int, status: PeerStatus)
    requires
        0 <= at,
        at + 41 <= bytes.len(),
        bytes.subrange(at, at + 41) == entry_bytes(status),
        canonical(status.addr),
    ensures
        entry_at(bytes, at) == Some(status),
{
    lemma_auto_spec_u128_to_from_le_bytes();
    lemma_auto_spec_u64_to_from_le_bytes();
    let e = entry_bytes(status);
    let whole = bytes.subrange(at, at + 41);
    assert(bytes.subrange(at, at + 16) =~= whole.subrange(0, 16));
    assert(bytes.subrange(at + 16, at + 24) =~= whole.subrange(16, 24));
    assert(bytes.subrange(at + 24, at + 32) =~= whole.subrange(24, 32));
    assert(bytes.subrange(at + 32, at + 40) =~= whole.subrange(32, 40));
    assert(bytes[at + 40] == whole[40]);
    assert(e.subrange(0, 16) =~= spec_u128_to_le_bytes(address_number(status.addr)));
    assert(e.subrange(16, 24) =~= spec_u64_to_le_bytes(status.epoch));
    assert(e.subrange(24, 32) =~= spec_u64_to_le_bytes(status.gen_config));
    assert(e.subrange(32, 40) =~= spec_u64_to_le_bytes(status.gen_lists));
    assert(e[40] == state_byte(status.state));
    assert(number_address(address_number(status.addr)) == status.addr);
}

/// A list that was written is read back as it was: decoding the datagram
/// of a list gives the list, if the list is not too long for its length to
/// be written and its addresses are canonical.
pub proof fn lemma_decode_encoded(list: Seq<PeerStatus>)
    requires
        list.len() <= u16::MAX,
        forall|i: int| 0 <= i < list.len() ==> canonical(#[trigger] list[i].addr),
    ensures
        decode_spec(datagram(list)) == Some(list),
{
    lemma_auto_spec_u16_to_from_le_bytes();
    lemma_entries(list);
    let d = datagram(list);
    let head = spec_u16_to_le_bytes(list.len() as u16);
    assert(d.subrange(0, 2) =~= head);
    lemma_entries_at(list, list.len());
    assert(list.take(list.len() as int) =~= list);
}

/// The first `k` entries of the datagram of a list are the first `k`
/// entries of the list.
pub proof fn lemma_entries_at(list: Seq<PeerStatus>, k: nat)
    requires
        k <= list.len(),
        forall|i: int| 0 <= i < list.len() ==> canonical(#[trigger] list[i].addr),
    ensures
        entries_at(datagram(list), k) == Some(list.take(k as int)),
    decreases k,
{
    lemma_auto_spec_u16_to_from_le_bytes();
    lemma_entries(list);
    let d = datagram(list);
    if k == 0 {
        assert(list.take(0) =~= Seq::<PeerStatus>::empty());
    } else {
        lemma_entries_at(list, (k - 1) as nat);
        let at = 2 + 41 * (k - 1);
        assert(d.subrange(at, at + 41) =~= entries_bytes(list).subrange(
            41 * (k - 1),
            41 * (k - 1) + 41,
        ));
        lemma_entry_round_trip(d, at, list[k - 1]);
        assert(list.take(k as int) =~= list.take(k - 1).push(list[k - 1]));
    }
}

/// Once an entry is none, no longer list of entries is one.
pub proof fn lemma_entries_at_none(bytes: Seq<u8>, k: nat, n: nat)
    requires
        k <= n,
        entries_at(bytes, k) is None,
    ensures
        entries_at(bytes, n) is None,
    decreases n,
{
    if k < n {
        lemma_entries_at_none(bytes, k, (n - 1) as nat);
    }
}

/// The byte that stands for a state.
pub fn state_to_byte(state: State) -> (b: u8)
    ensures
        b == state_byte(state),
{
    match state {
        State::Seed => 0,
        State::Alive => 1,
        State::Suspected => 2,
        State::Offline => 3,
        State::Left => 4,
    }
}

/// The state that a byte stands for.
pub fn state_from_byte(b: u8) -> (state: Option<State>)
    ensures
        state == byte_state(b),
{
    if b == 0 {
        Some(State::Seed)
    } else if b == 1 {
        Some(State::Alive)
    } else if b == 2 {
        Some(State::Suspected)
    } else if b == 3 {
        Some(State::Offline)
    } else if b == 4 {
        Some(State::Left)
    } else {
        None
    }
}

/// Appends the bytes of one entry.
pub fn encode_entry(out: &mut Vec<u8>, status: &PeerStatus)
    ensures
        final(out)@ == old(out)@ + entry_bytes(*status),
{
    let number: u128 = match status.addr {
        IpAddress::V4(a) => 0xffff_0000_0000u128 + a as u128,
        IpAddress::V6(a) => a,
    };
    let mut addr = u128_to_le_bytes(number);
    out.append(&mut addr);
    let mut epoch = u64_to_le_bytes(status.epoch);
    out.append(&mut epoch);
    let mut gen_config = u64_to_le_bytes(status.gen_config);
    out.append(&mut gen_config);
    let mut gen_lists = u64_to_le_bytes(status.gen_lists);
    out.append(&mut gen_lists);
    out.push(state_to_byte(status.state));
    proof {
        assert(out@ =~= old(out)@ + entry_bytes(*status));
    }
}

/// The datagram that tells `list`, or nothing if the list is longer than a
/// datagram holds.
pub fn encode(list: &[PeerStatus]) -> (bytes: Option<Vec<u8>>)
    ensures
        match bytes {
            Some(b) => list@.len() <= MAX_ENTRIES && b@ == datagram(list@),
            None => list@.len() > MAX_ENTRIES,
        },
{
    if list.len() > MAX_ENTRIES {
        return None;
    }
    let mut out = u16_to_le_bytes(list.len() as u16);
    let mut i: usize = 0;
    proof {
        assert(list@.take(0) =~= Seq::<PeerStatus>::empty());
        assert(out@ =~= spec_u16_to_le_bytes(list@.len() as u16) + entries_bytes(list@.take(0)));
    }
    while i < list.len()
        invariant
            i <= list.len(),
            out@ == spec_u16_to_le_bytes(list@.len() as u16) + entries_bytes(list@.take(i as int)),
        decreases list.len() - i,
    {
        let ghost before = out@;
        encode_entry(&mut out, &list[i]);
        proof {
            let next = list@.take(i + 1);
            assert(next.drop_last() =~= list@.take(i as int));
            assert(next.last() == list@[i as int]);
            assert(out@ =~= spec_u16_to_le_bytes(list@.len() as u16) + entries_bytes(next));
        }
        i = i + 1;
    }
    proof {
        assert(list@.take(list@.len() as int) =~= list@);
    }
    Some(out)
}

/// The list that a datagram tells.
pub fn decode(bytes: &[u8]) -> (list: Result<Vec<PeerStatus>, GossipError>)
    ensures
        match list {
            Ok(l) => decode_spec(bytes@) == Some(l@),
            Err(_) => decode_spec(bytes@) is None,
        },
{
    if bytes.len() < 2 {
        return Err(GossipError::Decode);
    }
    let count = u16_from_le_bytes(slice_subrange(bytes, 0, 2)) as usize;
    if bytes.len() - 2 != 41 * count {
        return Err(GossipError::Decode);
    }
    let mut list: Vec<PeerStatus> = Vec::new();
    let mut i: usize = 0;
    while i < count
        invariant
            i <= count,
            bytes.len() == 2 + 41 * count,
            entries_at(bytes@, i as nat) == Some(list@),
        decreases count - i,
    {
        let at: usize = 2 + 41 * i;
        let state = match state_from_byte(bytes[at + 40]) {
            Some(state) => state,
            None => {
                proof {
                    lemma_entries_at_none(bytes@, (i + 1) as nat, count as nat);
                }
                return Err(GossipError::Decode);
            },
        };
        let number = u128_from_le_bytes(slice_subrange(bytes, at, at + 16));
        let addr = if number / 0x1_0000_0000 == 0xffff {
            IpAddress::V4((number % 0x1_0000_0000) as u32)
        } else {
            IpAddress::V6(number)
        };
        list.push(
            PeerStatus {
                addr,
                epoch: u64_from_le_bytes(slice_subrange(bytes, at + 16, at + 24)),
                gen_config: u64_from_le_bytes(slice_subrange(bytes, at + 24, at + 32)),
                gen_lists: u64_from_le_bytes(slice_subrange(bytes, at + 32, at + 40)),
                state,
            },
        );
        i = i + 1;
    }
    Ok(list)
}

/// What of `list` is told in one datagram.
pub fn fit(list: &[PeerStatus]) -> (told: Vec<PeerStatus>)
    ensures
        told@ == fitted(list@),
        told@.len() <= MAX_ENTRIES,
{
    let mut told: Vec<PeerStatus> = Vec::new();
    if list.len() <= MAX_ENTRIES {
        let mut i: usize = 0;
        while i < list.len()
            invariant
                i <= list.len(),
                told@ == list@.take(i as int),
            decreases list.len() - i,
        {
            told.push(list[i]);
            proof {
                assert(told@ =~= list@.take(i + 1));
            }
            i = i + 1;
        }
        proof {
            assert(list@.take(list@.len() as int) =~= list@);
        }
        return told;
    }
    told.push(list[0]);
    let ghost rest = list@.skip(1);
    let mut healthy: Vec<PeerStatus> = Vec::new();
    let mut others: Vec<PeerStatus> = Vec::new();
    let mut i: usize = 1;
    proof {
        assert(rest.take(0) =~= Seq::<PeerStatus>::empty());
    }
    while i < list.len()
        invariant
            1 <= i <= list.len(),
            rest == list@.skip(1),
            healthy@ == chosen(rest.take(i - 1), true),
            others@ == chosen(rest.take(i - 1), false),
        decreases list.len() - i,
    {
        let status = list[i];
        proof {
            let next = rest.take(i as int);
            assert(next.drop_last() =~= rest.take(i - 1));
            assert(next.last() == status);
        }
        if status.state == State::Alive || status.state == State::Suspected {
            healthy.push(status);
        } else {
            others.push(status);
        }
        i = i + 1;
    }
    proof {
        assert(rest.take(list@.len() - 1) =~= rest);
        lemma_chosen_len(rest);
    }
    told.append(&mut healthy);
    told.append(&mut others);
    told.truncate(MAX_ENTRIES);
    proof {
        assert(told@ =~= fitted(list@));
    }
    told
}

} // verus!
