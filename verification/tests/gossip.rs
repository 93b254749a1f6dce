use mail_core::gossip::wire::{decode, encode, fit, GossipError, ENTRY_BYTES, MAX_ENTRIES};
use mail_core::gossip::{
    Gossiper, HeartbeatStats, IpAddress, Peer, PeerStatus, State, StatusOutcome, HARD_TIMEOUT,
    HEARTBEAT_WINDOW, OFFLINE_PHI, SUSPECT_PHI,
};

fn addr(n: u32) -> IpAddress {
    IpAddress::V4(0x0a00_0000 + n)
}

fn status(n: u32, epoch: u64) -> PeerStatus {
    PeerStatus { addr: addr(n), epoch, gen_config: 0, gen_lists: 0, state: State::Alive }
}

fn consistent(peer: &Peer) {
    assert!(peer.check());
    let k = if peer.hb_is_full { HEARTBEAT_WINDOW } else { peer.hb_window_pos };
    assert_eq!(peer.hb_window.len(), HEARTBEAT_WINDOW);
    assert_eq!(peer.hb_sum, peer.hb_window[..k].iter().sum::<u64>());
    assert_eq!(peer.hb_sq_sum, peer.hb_window[..k].iter().map(|v| v * v).sum::<u64>());
}

#[test]
fn seed_starts_empty() {
    let peer = Peer::new_seed(addr(1), 500);
    assert_eq!(peer.addr, addr(1));
    assert_eq!(peer.state, State::Seed);
    assert_eq!((peer.epoch, peer.gen_config, peer.gen_lists), (0, 0, 0));
    assert_eq!(peer.last_heartbeat, 500);
    assert_eq!(peer.hb_window, vec![0; HEARTBEAT_WINDOW]);
    assert_eq!((peer.hb_window_pos, peer.hb_sum, peer.hb_sq_sum, peer.hb_is_full), (0, 0, 0, false));
    assert!(peer.is_seed() && !peer.is_alive() && !peer.is_healthy() && !peer.is_offline());
    assert!(peer.heartbeat_stats().is_none());
}

#[test]
fn peer_from_status_is_alive() {
    let peer = Peer::from(
        PeerStatus { addr: addr(2), epoch: 7, gen_config: 3, gen_lists: 4, state: State::Offline },
        900,
    );
    assert_eq!(peer.state, State::Alive);
    assert_eq!((peer.epoch, peer.gen_config, peer.gen_lists), (7, 3, 4));
    assert_eq!(peer.last_heartbeat, 900);
    assert_eq!(peer.hb_window, vec![0; HEARTBEAT_WINDOW]);
    assert!(peer.is_alive() && peer.is_healthy());
    assert_eq!(
        peer.to_status(),
        PeerStatus { addr: addr(2), epoch: 7, gen_config: 3, gen_lists: 4, state: State::Alive }
    );
    consistent(&peer);
}

#[test]
fn states_are_told_apart() {
    let mut peer = Peer::new_seed(addr(1), 0);
    for (state, seed, alive, suspected, healthy, offline) in [
        (State::Seed, true, false, false, false, false),
        (State::Alive, false, true, false, true, false),
        (State::Suspected, false, false, true, true, false),
        (State::Offline, false, false, false, false, true),
        (State::Left, false, false, false, false, true),
    ] {
        peer.state = state;
        assert_eq!(
            (peer.is_seed(), peer.is_alive(), peer.is_suspected(), peer.is_healthy(), peer.is_offline()),
            (seed, alive, suspected, healthy, offline)
        );
    }
}

#[test]
fn heartbeats_fill_the_window() {
    let mut peer = Peer::new_seed(addr(1), 1_000);
    peer.record_heartbeat(1_100);
    peer.record_heartbeat(1_300);
    assert!(peer.heartbeat_stats().is_none());
    peer.record_heartbeat(1_600);
    assert_eq!(&peer.hb_window[..4], &[100, 200, 300, 0]);
    assert_eq!((peer.hb_window_pos, peer.hb_is_full), (3, false));
    assert_eq!((peer.hb_sum, peer.hb_sq_sum), (600, 140_000));
    assert_eq!(peer.last_heartbeat, 1_600);
    assert_eq!(
        peer.heartbeat_stats(),
        Some(HeartbeatStats { count: 3, sum: 600, sq_sum: 140_000 })
    );
    consistent(&peer);
}

#[test]
fn window_wraps_and_forgets_the_oldest() {
    let mut peer = Peer::new_seed(addr(1), 0);
    let mut now = 0;
    for i in 0..HEARTBEAT_WINDOW as u64 {
        now += i + 1;
        peer.record_heartbeat(now);
        consistent(&peer);
    }
    assert!(peer.hb_is_full);
    assert_eq!(peer.hb_window_pos, 0);
    assert_eq!(peer.hb_sum, 64 * 65 / 2);
    assert_eq!(peer.hb_sq_sum, 64 * 65 * 129 / 6);
    now += 1_000;
    peer.record_heartbeat(now);
    assert_eq!(peer.hb_window[0], 1_000);
    assert_eq!(peer.hb_window_pos, 1);
    assert_eq!(peer.hb_sum, 64 * 65 / 2 - 1 + 1_000);
    assert_eq!(peer.hb_sq_sum, 64 * 65 * 129 / 6 - 1 + 1_000_000);
    assert_eq!(peer.heartbeat_stats().unwrap().count, HEARTBEAT_WINDOW);
    for _ in 0..200 {
        now += 17;
        peer.record_heartbeat(now);
        consistent(&peer);
    }
}

#[test]
fn intervals_are_bounded() {
    let mut peer = Peer::new_seed(addr(1), 10);
    peer.record_heartbeat(10 + HARD_TIMEOUT);
    peer.record_heartbeat(u64::MAX);
    peer.record_heartbeat(5);
    assert_eq!(&peer.hb_window[..3], &[HARD_TIMEOUT, HARD_TIMEOUT, 0]);
    assert_eq!(peer.last_heartbeat, 5);
    for _ in 0..3 * HEARTBEAT_WINDOW {
        peer.last_heartbeat = 0;
        peer.record_heartbeat(u64::MAX);
        consistent(&peer);
    }
    assert_eq!(peer.hb_sum, 64 * 30_000);
    assert_eq!(peer.hb_sq_sum, 64 * 900_000_000);
}

#[test]
fn update_follows_the_epoch() {
    let mut peer = Peer::new_seed(addr(1), 100);
    let none = StatusOutcome { heartbeat: false, pull_config: false, pull_lists: false };

    let outcome = peer.update(&status(1, 5), 250);
    assert_eq!(outcome, StatusOutcome { heartbeat: true, ..none });
    assert_eq!((peer.epoch, peer.state, peer.last_heartbeat), (5, State::Alive, 250));
    assert_eq!(peer.hb_window[0], 150);

    // A stale status changes nothing, whatever it says.
    let stale = PeerStatus { gen_config: 9, gen_lists: 9, state: State::Left, ..status(1, 4) };
    assert_eq!(peer.update(&stale, 900), none);
    assert_eq!((peer.epoch, peer.gen_config, peer.gen_lists), (5, 0, 0));
    assert_eq!((peer.state, peer.last_heartbeat, peer.hb_window_pos), (State::Alive, 250, 1));

    // The same epoch with a newer generation asks for a pull, and is no heartbeat.
    let newer = PeerStatus { gen_config: 2, ..status(1, 5) };
    assert_eq!(peer.update(&newer, 900), StatusOutcome { pull_config: true, ..none });
    assert_eq!((peer.epoch, peer.gen_config, peer.gen_lists), (5, 2, 0));
    assert_eq!((peer.last_heartbeat, peer.hb_window_pos), (250, 1));
    let newer = PeerStatus { gen_config: 1, gen_lists: 3, ..status(1, 6) };
    assert_eq!(
        peer.update(&newer, 1_000),
        StatusOutcome { heartbeat: true, pull_config: false, pull_lists: true }
    );
    assert_eq!((peer.epoch, peer.gen_config, peer.gen_lists), (6, 2, 3));
    consistent(&peer);
}

#[test]
fn heartbeat_revives_and_leaving_is_final() {
    for (before, after) in [
        (State::Seed, State::Alive),
        (State::Alive, State::Alive),
        (State::Suspected, State::Alive),
        (State::Offline, State::Alive),
        (State::Left, State::Left),
    ] {
        let mut peer = Peer::new_seed(addr(1), 0);
        peer.state = before;
        peer.update(&status(1, 1), 10);
        assert_eq!(peer.state, after);
    }
    let leaving = PeerStatus { state: State::Left, ..status(1, 1) };
    for (before, after) in [
        (State::Alive, State::Left),
        (State::Suspected, State::Left),
        (State::Offline, State::Alive),
        (State::Seed, State::Alive),
    ] {
        let mut peer = Peer::new_seed(addr(1), 0);
        peer.state = before;
        peer.update(&leaving, 10);
        // A peer that the heartbeat has just revived is healthy, and leaves.
        let expected = if after == State::Alive { State::Left } else { after };
        assert_eq!(peer.state, expected);
    }
    let mut peer = Peer::new_seed(addr(1), 0);
    peer.state = State::Offline;
    peer.epoch = 1;
    peer.update(&leaving, 10);
    assert_eq!(peer.state, State::Offline);
}

#[test]
fn scan_sets_the_state() {
    let cases = [
        (State::Alive, SUSPECT_PHI - 1, 0, State::Alive, false),
        (State::Alive, SUSPECT_PHI, 0, State::Suspected, false),
        (State::Alive, OFFLINE_PHI - 1, HARD_TIMEOUT, State::Suspected, false),
        (State::Alive, OFFLINE_PHI, 0, State::Offline, true),
        (State::Alive, 0, HARD_TIMEOUT + 1, State::Offline, true),
        (State::Suspected, SUSPECT_PHI, 0, State::Suspected, false),
        (State::Suspected, 0, 0, State::Suspected, false),
        (State::Suspected, OFFLINE_PHI, 0, State::Offline, true),
        (State::Suspected, 0, HARD_TIMEOUT + 1, State::Offline, true),
        (State::Seed, u64::MAX, u64::MAX, State::Seed, false),
        (State::Offline, u64::MAX, u64::MAX, State::Offline, false),
        (State::Left, u64::MAX, u64::MAX, State::Left, false),
    ];
    for (before, phi, elapsed, after, went_offline) in cases {
        let mut peer = Peer::new_seed(addr(1), 0);
        peer.state = before;
        assert_eq!(peer.scan(phi, elapsed), went_offline);
        assert_eq!(peer.state, after);
        assert_eq!(peer.epoch, 0);
    }
}

#[test]
fn registry_finds_peers_by_address() {
    let mut node = Gossiper::new(addr(0));
    assert!(node.add_seed(addr(1), 10));
    assert!(node.add_seed(addr(2), 10));
    assert!(!node.add_seed(addr(1), 20));
    assert!(!node.add_seed(addr(0), 20));
    assert_eq!(node.peers.len(), 2);
    assert_eq!(node.find(&addr(2)), Some(1));
    assert_eq!(node.find(&addr(3)), None);
    assert!(node.is_known_peer(&addr(1)));
    assert!(!node.is_known_peer(&addr(0)));
    assert_eq!(node.get_peer(&addr(2)).unwrap().addr, addr(2));
    assert!(node.get_peer(&addr(9)).is_none());
    assert!(!node.is_peer_healthy(&addr(1)));
    node.get_peer_mut(&addr(1)).unwrap().state = State::Suspected;
    assert!(node.is_peer_healthy(&addr(1)));
    assert!(!node.is_peer_healthy(&addr(2)));
    assert!(!node.is_peer_healthy(&addr(9)));
    assert!(node.get_peer_mut(&addr(9)).is_none());
    assert_eq!(node.peers[0].state, State::Suspected);
    assert_eq!(node.peers[1].state, State::Seed);
}

#[test]
fn status_list_starts_with_the_node() {
    let mut node = Gossiper::new(addr(0));
    node.gen_config = 4;
    node.gen_lists = 5;
    node.add_seed(addr(1), 0);
    node.handle_status(&PeerStatus { gen_config: 1, gen_lists: 2, ..status(2, 3) }, 0);
    let list = node.build_peer_status();
    assert_eq!(
        list,
        vec![
            PeerStatus { addr: addr(0), epoch: 0, gen_config: 4, gen_lists: 5, state: State::Alive },
            PeerStatus { addr: addr(1), epoch: 0, gen_config: 0, gen_lists: 0, state: State::Seed },
            PeerStatus { addr: addr(2), epoch: 3, gen_config: 1, gen_lists: 2, state: State::Alive },
        ]
    );
    let list = node.heartbeat();
    assert_eq!(node.epoch, 1);
    assert_eq!(list[0].epoch, 1);
    assert_eq!(list.len(), 3);
    node.epoch = u64::MAX;
    assert_eq!(node.heartbeat()[0].epoch, u64::MAX);
    assert_eq!(Gossiper::new(addr(7)).build_peer_status().len(), 1);
}

#[test]
fn received_status_is_handled() {
    let mut node = Gossiper::new(addr(0));
    let none = StatusOutcome { heartbeat: false, pull_config: false, pull_lists: false };
    // Its own status is passed over.
    assert_eq!(node.handle_status(&status(0, 99), 5), none);
    assert!(node.peers.is_empty());
    assert_eq!(node.epoch, 0);
    // An unknown node becomes a living peer.
    assert_eq!(node.handle_status(&status(1, 4), 5), StatusOutcome { heartbeat: true, ..none });
    assert_eq!(node.peers.len(), 1);
    assert_eq!((node.peers[0].state, node.peers[0].epoch, node.peers[0].last_heartbeat), (State::Alive, 4, 5));
    assert_eq!(node.peers[0].hb_window_pos, 0);
    // A known peer is updated in place.
    node.add_seed(addr(2), 5);
    assert_eq!(node.handle_status(&status(1, 6), 25), StatusOutcome { heartbeat: true, ..none });
    assert_eq!((node.peers[0].epoch, node.peers[0].hb_window[0], node.peers[0].last_heartbeat), (6, 20, 25));
    assert_eq!(node.peers[1].addr, addr(2));
    assert_eq!(node.handle_status(&status(1, 5), 30), none);
    assert_eq!(node.peers[0].epoch, 6);
    assert_eq!(node.handle_status(&status(2, 1), 30), StatusOutcome { heartbeat: true, ..none });
    assert_eq!(node.peers[1].state, State::Alive);
}

#[test]
fn epochs_never_go_back() {
    let mut node = Gossiper::new(addr(0));
    let mut seen = vec![0u64; 4];
    let mut own = 0;
    let epochs = [3u64, 1, 7, 7, 2, 9, 0, 8, 12, 11];
    for (i, epoch) in epochs.iter().enumerate() {
        let n = (i % 3) as u32 + 1;
        node.handle_status(&status(n, *epoch), i as u64 * 10);
        if i % 4 == 0 {
            node.heartbeat();
        }
        if let Some(at) = node.find(&addr(n)) {
            node.scan_peer(at, (i as u64) * 2_000, 0);
        }
        for peer in node.peers.iter() {
            let IpAddress::V4(a) = peer.addr else { panic!() };
            let at = (a - 0x0a00_0000) as usize;
            assert!(peer.epoch >= seen[at]);
            seen[at] = peer.epoch;
            consistent(peer);
        }
        assert!(node.epoch >= own);
        own = node.epoch;
    }
    assert_eq!(seen, vec![0, 11, 8, 12]);
    assert_eq!(own, 3);
}

fn phi(stats: Option<HeartbeatStats>, elapsed: u64) -> u64 {
    // The suspicion, in thousandths, of a silence of `elapsed` milliseconds
    // under a normal distribution of the intervals.
    let Some(stats) = stats else { return 0 };
    let n = stats.count as f64;
    let mean = stats.sum as f64 / n;
    let variance = (stats.sq_sum as f64 / n - mean * mean).max(0.0);
    let deviation = variance.sqrt().max(mean / 4.0).max(1.0);
    let y = (elapsed as f64 - mean) / deviation;
    let e = (-y * (1.5976 + 0.070566 * y * y)).exp();
    let p_later = if elapsed as f64 > mean { e / (1.0 + e) } else { 1.0 - 1.0 / (1.0 + e) };
    let phi = -p_later.max(1e-300).log10();
    (phi * 1000.0) as u64
}

#[test]
fn partition_is_noticed_and_heals() {
    // Three nodes beat once a second. A hears B throughout; C stops hearing
    // of B while the two are parted, and hears of it again afterwards.
    let (a, b, c) = (addr(1), addr(2), addr(3));
    let mut at_c = Gossiper::new(c);
    let mut at_a = Gossiper::new(a);
    let mut now = 0;
    let mut epoch = 0;
    for _ in 0..10 {
        now += 1_000;
        epoch += 1;
        let told = PeerStatus { addr: b, epoch, gen_config: 0, gen_lists: 0, state: State::Alive };
        at_a.handle_status(&told, now);
        at_c.handle_status(&told, now);
    }
    assert!(at_c.get_peer(&b).unwrap().is_alive());
    // The partition: B beats on, and only A hears it. Both scan ten times a
    // second.
    let mut states_at_c = vec![];
    for tick in 1..=50u64 {
        now += 100;
        if tick % 10 == 0 {
            epoch += 1;
            let told =
                PeerStatus { addr: b, epoch, gen_config: 0, gen_lists: 0, state: State::Alive };
            at_a.handle_status(&told, now);
        }
        for node in [&mut at_a, &mut at_c] {
            let at = node.find(&b).unwrap();
            let elapsed = now - node.peers[at].last_heartbeat;
            let suspicion = phi(node.peers[at].heartbeat_stats(), elapsed);
            node.scan_peer(at, suspicion, elapsed);
        }
        assert!(at_a.get_peer(&b).unwrap().is_alive());
        let state = at_c.get_peer(&b).unwrap().state;
        if states_at_c.last() != Some(&state) {
            states_at_c.push(state);
        }
    }
    assert_eq!(states_at_c, vec![State::Alive, State::Suspected, State::Offline]);
    // The partition heals: the first heartbeat that C hears revives B.
    now += 1_000;
    epoch += 1;
    let told = PeerStatus { addr: b, epoch, gen_config: 0, gen_lists: 0, state: State::Alive };
    let outcome = at_c.handle_status(&told, now);
    assert!(outcome.heartbeat);
    assert!(at_c.get_peer(&b).unwrap().is_alive());
    assert_eq!(at_c.get_peer(&b).unwrap().epoch, epoch);
    consistent(at_c.get_peer(&b).unwrap());
}

#[test]
fn heartbeat_targets_are_ordered_by_preference() {
    let mut node = Gossiper::new(addr(0));
    for (n, state) in [
        (1, State::Seed),
        (2, State::Offline),
        (3, State::Suspected),
        (4, State::Alive),
        (5, State::Left),
        (6, State::Seed),
        (7, State::Alive),
        (8, State::Suspected),
    ] {
        node.add_seed(addr(n), 0);
        node.get_peer_mut(&addr(n)).unwrap().state = state;
    }
    assert_eq!(node.targets(), vec![addr(4), addr(7), addr(3), addr(8), addr(1), addr(6)]);
    assert!(Gossiper::new(addr(0)).targets().is_empty());
}

#[test]
fn datagram_has_its_bytes_in_order() {
    let list = [PeerStatus {
        addr: IpAddress::V4(0x0a01_0203),
        epoch: 0x0102_0304_0506_0708,
        gen_config: 2,
        gen_lists: 0xff00,
        state: State::Suspected,
    }];
    let bytes = encode(&list).unwrap();
    let mut expected = vec![1u8, 0];
    expected.extend([3, 2, 1, 0x0a, 0xff, 0xff, 0, 0, 0, 0, 0, 0, 0, 0, 0, 0]);
    expected.extend([8, 7, 6, 5, 4, 3, 2, 1]);
    expected.extend([2, 0, 0, 0, 0, 0, 0, 0]);
    expected.extend([0, 0xff, 0, 0, 0, 0, 0, 0]);
    expected.push(2);
    assert_eq!(bytes, expected);
    assert_eq!(bytes.len(), 2 + ENTRY_BYTES);
    assert_eq!(encode(&[]).unwrap(), vec![0, 0]);
}

#[test]
fn datagram_is_read_back() {
    let states = [State::Seed, State::Alive, State::Suspected, State::Offline, State::Left];
    let list: Vec<PeerStatus> = (0..MAX_ENTRIES as u64)
        .map(|i| PeerStatus {
            addr: if i % 2 == 0 {
                IpAddress::V4(u32::MAX - i as u32)
            } else {
                IpAddress::V6(u128::MAX - i as u128)
            },
            epoch: u64::MAX - i,
            gen_config: i * 1_000_003,
            gen_lists: i,
            state: states[i as usize % 5],
        })
        .collect();
    let bytes = encode(&list).unwrap();
    assert_eq!(bytes.len(), 2 + ENTRY_BYTES * MAX_ENTRIES);
    assert!(bytes.len() <= 1400);
    assert_eq!(decode(&bytes), Ok(list.clone()));
    assert_eq!(decode(&encode(&list[..1]).unwrap()), Ok(list[..1].to_vec()));
    assert_eq!(decode(&[0, 0]), Ok(vec![]));
    let mut longer = list.clone();
    longer.push(list[0]);
    assert!(encode(&longer).is_none());
    // An IPv6 address that is an IPv4 address mapped is read as that IPv4 address.
    let mapped = PeerStatus { addr: IpAddress::V6(0xffff_0a00_0001), ..list[0] };
    assert_eq!(decode(&encode(&[mapped]).unwrap()).unwrap()[0].addr, IpAddress::V4(0x0a00_0001));
}

#[test]
fn broken_datagram_is_refused() {
    let one = encode(&[status(1, 1)]).unwrap();
    assert_eq!(decode(&[]), Err(GossipError::Decode));
    assert_eq!(decode(&[0]), Err(GossipError::Decode));
    assert_eq!(decode(&[1, 0]), Err(GossipError::Decode));
    assert_eq!(decode(&one[..one.len() - 1]), Err(GossipError::Decode));
    let mut longer = one.clone();
    longer.push(0);
    assert_eq!(decode(&longer), Err(GossipError::Decode));
    let mut two = one.clone();
    two[0] = 2;
    assert_eq!(decode(&two), Err(GossipError::Decode));
    let mut bad_state = one.clone();
    bad_state[42] = 5;
    assert_eq!(decode(&bad_state), Err(GossipError::Decode));
    bad_state[42] = 4;
    assert_eq!(decode(&bad_state).unwrap()[0].state, State::Left);
}

#[test]
fn long_list_keeps_the_node_and_the_healthy() {
    let short: Vec<PeerStatus> = (0..MAX_ENTRIES as u32).map(|n| status(n, 1)).collect();
    assert_eq!(fit(&short), short);
    assert_eq!(fit(&[]), vec![]);
    // Forty entries: the node, then peers of which every third is offline.
    let long: Vec<PeerStatus> = (0..40u32)
        .map(|n| PeerStatus {
            state: match n % 3 {
                0 => State::Offline,
                1 => State::Alive,
                _ => State::Suspected,
            },
            ..status(n, 1)
        })
        .collect();
    let told = fit(&long);
    assert_eq!(told.len(), MAX_ENTRIES);
    assert_eq!(told[0], long[0]);
    let healthy: Vec<PeerStatus> =
        long[1..].iter().filter(|s| s.state != State::Offline).copied().collect();
    assert_eq!(healthy.len(), 26);
    assert_eq!(&told[1..27], &healthy[..]);
    let others: Vec<PeerStatus> =
        long[1..].iter().filter(|s| s.state == State::Offline).copied().collect();
    assert_eq!(&told[27..], &others[..7]);
    assert!(encode(&told).is_some());
}

#[test]
fn check_finds_what_is_broken() {
    let mut node = Gossiper::new(addr(0));
    node.add_seed(addr(1), 0);
    node.add_seed(addr(2), 0);
    node.handle_status(&status(1, 1), 700);
    assert!(node.check());

    let mut broken = node.clone();
    broken.peers[0].hb_sum += 1;
    assert!(!broken.check());
    let mut broken = node.clone();
    broken.peers[0].hb_sq_sum = 0;
    assert!(!broken.check());
    let mut broken = node.clone();
    broken.peers[1].hb_window.pop();
    assert!(!broken.check());
    let mut broken = node.clone();
    broken.peers[1].hb_window_pos = HEARTBEAT_WINDOW;
    assert!(!broken.check());
    let mut broken = node.clone();
    broken.peers[1].hb_window[63] = HARD_TIMEOUT + 1;
    assert!(!broken.check());
    let mut broken = node.clone();
    broken.peers[1].addr = addr(1);
    assert!(!broken.check());
    let mut broken = node.clone();
    broken.peers[1].addr = addr(0);
    assert!(!broken.check());
    // What lies behind the cursor of a window that is not full does not count.
    let mut fine = node.clone();
    fine.peers[0].hb_window[5] = 12;
    assert!(fine.check());
    fine.peers[0].hb_is_full = true;
    assert!(!fine.check());
}
