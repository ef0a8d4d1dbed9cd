use udp_demux::acceptor::{AcceptDecision, Acceptor};
use udp_demux::addr::{IpRepr, PeerAddr};
use udp_demux::client::{candidate_addrs, select_candidate, AttemptOutcome, ConnectSearch, HostRepr};
use udp_demux::engine::{run_demux, Datagram, Demux};
use udp_demux::error::UdpError;
use udp_demux::gate::IoGate;
use udp_demux::registry::PeerRegistry;
use udp_demux::stream::{PeerStream, ReadStep};

fn addr(port: u16) -> PeerAddr {
    PeerAddr { ip: IpRepr::V6(1), port }
}

fn dg(src: PeerAddr, payload: &[u8]) -> Datagram {
    Datagram { src, payload: payload.to_vec() }
}

#[test]
fn gate_latches_and_collapses_duplicates() {
    let mut g = IoGate::new();
    assert!(!g.poll_available());
    assert!(!g.poll_consumed());
    g.signal_available();
    g.signal_available();
    assert!(g.poll_available());
    assert!(!g.poll_available());
    g.signal_consumed();
    assert!(g.poll_consumed());
    assert!(!g.poll_consumed());
    let mut latched = IoGate::new_with_data();
    assert!(latched.poll_available());
    assert!(!latched.poll_consumed());
}

#[test]
fn registry_insert_find_sweep() {
    let a = addr(1000);
    let b = addr(1001);
    let mut r = PeerRegistry::new();
    assert_eq!(r.len(), 0);
    assert!(r.find(a).is_none());
    r.insert(a, IoGate::new());
    r.insert(b, IoGate::new());
    assert_eq!(r.len(), 2);
    assert_eq!(r.find(a), Some(0));
    assert_eq!(r.find(b), Some(1));
    r.enqueue_delete(a);
    r.sweep();
    assert_eq!(r.len(), 1);
    assert!(r.find(a).is_none());
    assert!(r.find(b).is_some());
}

#[test]
fn registry_sweep_ignores_duplicate_deletions() {
    let a = addr(1000);
    let b = addr(1001);
    let mut r = PeerRegistry::new();
    r.insert(a, IoGate::new());
    r.insert(b, IoGate::new());
    // The moral equivalent of dropping the same stream twice.
    r.enqueue_delete(a);
    r.enqueue_delete(a);
    r.sweep();
    assert_eq!(r.len(), 1);
    assert!(r.find(a).is_none());
    assert!(r.find(b).is_some());
    // A further sweep with nothing queued removes nothing.
    r.sweep();
    assert_eq!(r.len(), 1);
}

#[test]
fn stream_reads_whole_datagrams() {
    let a = addr(2000);
    let mut s = PeerStream::new(a, false);
    assert_eq!(s.peer_addr(), a);
    assert_eq!(s.poll_step(false), ReadStep::AwaitData);
    s.on_gate_ready();
    assert_eq!(s.poll_step(false), ReadStep::Receive);
    let out = s.complete_read(a, &b"hello".to_vec(), 25);
    assert_eq!(out, b"hello".to_vec());
    // The next read waits again.
    assert_eq!(s.poll_step(false), ReadStep::AwaitData);
}

#[test]
fn stream_truncates_oversized_datagrams() {
    let a = addr(2001);
    let mut s = PeerStream::new(a, false);
    s.on_gate_ready();
    let out = s.complete_read(a, &b"hello".to_vec(), 3);
    assert_eq!(out, b"hel".to_vec());
    s.on_gate_ready();
    let out = s.complete_read(a, &Vec::new(), 25);
    assert_eq!(out.len(), 0);
}

#[test]
fn stream_watchdog_times_out_without_activity() {
    let a = addr(2002);
    let mut s = PeerStream::new(a, true);
    s.on_gate_ready();
    let out = s.complete_read(a, &b"hello".to_vec(), 25);
    assert_eq!(out, b"hello".to_vec());
    // A tick after activity rearms and the read goes on waiting.
    assert_eq!(s.poll_step(true), ReadStep::AwaitData);
    // A tick with no activity since the previous one fails the read...
    assert_eq!(s.poll_step(true), ReadStep::Timeout);
    // ...and the stream stays dead.
    assert_eq!(s.poll_step(false), ReadStep::Timeout);
    assert_eq!(s.poll_step(true), ReadStep::Timeout);
    assert_eq!(s.timeout_error(), UdpError::Timeout(a));
}

#[test]
fn stream_without_watchdog_never_times_out() {
    let a = addr(2003);
    let mut s = PeerStream::new(a, false);
    assert_eq!(s.poll_step(true), ReadStep::AwaitData);
    assert_eq!(s.poll_step(true), ReadStep::AwaitData);
}

#[test]
fn acceptor_mints_then_signals() {
    let a = addr(3000);
    let mut ac = Acceptor::new(Some(1000));
    match ac.classify(a) {
        AcceptDecision::NewStream(s) => {
            assert_eq!(s.peer_addr(), a);
        }
        AcceptDecision::SignalExisting(_) => panic!("first contact must mint a stream"),
    }
    assert_eq!(ac.take_pending_ack(), Some(a));
    assert_eq!(ac.take_pending_ack(), None);
    match ac.classify(a) {
        AcceptDecision::SignalExisting(i) => assert_eq!(i, 0),
        AcceptDecision::NewStream(_) => panic!("known peer must not be minted again"),
    }
}

#[test]
fn single_peer_framed_reads() {
    // One client sends three datagrams; three reads return them whole, in
    // order, never merged.
    let a = addr(1234);
    let dgrams = vec![dg(a, b"hello"), dg(a, b"world"), dg(a, b" test")];
    let ds = run_demux(&dgrams, None);
    assert_eq!(ds.len(), 3);
    for d in &ds {
        assert_eq!(d.peer, a);
    }
    assert_eq!(ds[0].payload, b"hello".to_vec());
    assert_eq!(ds[1].payload, b"world".to_vec());
    assert_eq!(ds[2].payload, b" test".to_vec());
}

#[test]
fn two_peers_interleaved() {
    // Two clients interleave; each stream sees exactly its own datagrams,
    // in order.
    let a = addr(1);
    let b = addr(2);
    let mut d = Demux::new(None);
    let first = d.deliver_next(&dg(a, b"aaaaa"));
    assert_eq!(d.stream_count(), 1);
    assert_eq!(first.peer, a);
    assert_eq!(first.payload, b"aaaaa".to_vec());
    let second = d.deliver_next(&dg(b, b"bbbbb"));
    assert_eq!(d.stream_count(), 2);
    assert_eq!(second.peer, b);
    assert_eq!(second.payload, b"bbbbb".to_vec());

    let more = vec![dg(a, b"ccccc"), dg(b, b"ddddd"), dg(b, b"eeeee"), dg(a, b"fffff")];
    let mut to_a: Vec<Vec<u8>> = Vec::new();
    let mut to_b: Vec<Vec<u8>> = Vec::new();
    for m in &more {
        let dv = d.deliver_next(m);
        assert_eq!(dv.peer, m.src);
        if dv.peer == a {
            to_a.push(dv.payload);
        } else {
            to_b.push(dv.payload);
        }
    }
    assert_eq!(d.stream_count(), 2);
    assert_eq!(to_a, vec![b"ccccc".to_vec(), b"fffff".to_vec()]);
    assert_eq!(to_b, vec![b"ddddd".to_vec(), b"eeeee".to_vec()]);
}

#[test]
fn every_datagram_is_delivered() {
    // Polled continuously with a reading consumer, nothing is held back.
    let mut dgrams: Vec<Datagram> = Vec::new();
    for i in 0..50u16 {
        dgrams.push(dg(addr(i % 7), &[i as u8; 5]));
    }
    let ds = run_demux(&dgrams, Some(1000));
    assert_eq!(ds.len(), dgrams.len());
    for (s, r) in dgrams.iter().zip(ds.iter()) {
        assert_eq!(s.src, r.peer);
        assert_eq!(s.payload, r.payload);
    }
}

#[test]
fn dropped_stream_is_reclaimed() {
    // Drop a stream, then a datagram from the same address mints a new
    // stream instead of signalling the defunct one.
    let a = addr(4000);
    let mut d = Demux::new(None);
    let dv = d.deliver_next(&dg(a, b"hello"));
    assert_eq!(dv.payload, b"hello".to_vec());
    assert_eq!(d.stream_count(), 1);
    d.drop_stream(0);
    assert_eq!(d.stream_count(), 0);
    let dv = d.deliver_next(&dg(a, b"again"));
    assert_eq!(d.stream_count(), 1);
    assert_eq!(d.stream_peer(0), a);
    assert_eq!(dv.peer, a);
    assert_eq!(dv.payload, b"again".to_vec());
}

#[test]
fn zero_length_datagram_reads_zero_bytes() {
    let a = addr(4001);
    let ds = run_demux(&vec![dg(a, b"")], None);
    assert_eq!(ds.len(), 1);
    assert_eq!(ds[0].payload.len(), 0);
}

#[test]
fn candidates_of_literals_and_domains() {
    let none: Vec<PeerAddr> = Vec::new();
    let v4 = candidate_addrs(&HostRepr::V4(0x7f00_0001), 8080, &none);
    assert_eq!(v4, vec![PeerAddr { ip: IpRepr::V4(0x7f00_0001), port: 8080 }]);
    let v6 = candidate_addrs(&HostRepr::V6(1), 53, &none);
    assert_eq!(v6, vec![PeerAddr { ip: IpRepr::V6(1), port: 53 }]);
    let resolved = vec![addr(1), addr(2)];
    let dom = candidate_addrs(&HostRepr::Domain, 9999, &resolved);
    assert_eq!(dom, resolved);
}

#[test]
fn connect_falls_back_to_second_candidate() {
    // Two answers, the first refuses: the second one's socket is returned.
    let outcomes = vec![AttemptOutcome::ConnectFailed(111), AttemptOutcome::Connected];
    assert_eq!(select_candidate(&outcomes), Ok(1));
    // With both refusing, the last error wins.
    let outcomes = vec![AttemptOutcome::ConnectFailed(111), AttemptOutcome::ConnectFailed(110)];
    assert_eq!(select_candidate(&outcomes), Err(UdpError::Connect(Some(110))));
}

#[test]
fn connect_search_records_only_connect_errors() {
    // Bind failures and per-attempt timeouts record no error...
    let outcomes = vec![AttemptOutcome::BindFailed, AttemptOutcome::TimedOut];
    assert_eq!(select_candidate(&outcomes), Err(UdpError::Connect(None)));
    // ...and do not overwrite one already recorded.
    let outcomes = vec![AttemptOutcome::ConnectFailed(113), AttemptOutcome::TimedOut];
    assert_eq!(select_candidate(&outcomes), Err(UdpError::Connect(Some(113))));
    // The first success stops the search.
    let outcomes = vec![AttemptOutcome::Connected, AttemptOutcome::ConnectFailed(9)];
    assert_eq!(select_candidate(&outcomes), Ok(0));
}

#[test]
fn connect_search_steps_like_the_caller_does() {
    let mut s = ConnectSearch::new();
    assert!(!s.step(AttemptOutcome::BindFailed));
    assert!(!s.step(AttemptOutcome::ConnectFailed(111)));
    assert!(s.step(AttemptOutcome::Connected));
    assert_eq!(s.finish(), Ok(2));
}
