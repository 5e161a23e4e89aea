use gossip_engine::client::{decode_summary, encode_summary, Client, LoopbackClient, NoOpClient};
use gossip_engine::gossip::{Config, Directive, GossipEvent, Gossiper};
use gossip_engine::record::{read_u64_le, Record};
use gossip_engine::store::RecordSet;
use gossip_engine::{ConfigError, TransportError};
use std::sync::Arc;

fn filled_set(ids: &[u64]) -> RecordSet {
    let mut s = RecordSet::new();
    for &id in ids {
        assert!(s.add(Record::new(id, vec![id as u8])).is_ok());
    }
    s
}

/// A gossiper over an idle configuration runs, ticks a few times, and
/// exits as soon as the stop signal arrives.
#[test]
fn test_gossip() {
    let config = Config { frequency: 200, poll_size: 0 };
    let mut g = Gossiper::new(config, RecordSet::new(), NoOpClient::new()).unwrap();
    g.start();
    for _ in 0..5 {
        let d = g.gossip_step(GossipEvent::Tick);
        assert!(matches!(d, Directive::Continue));
    }
    let d = g.gossip_step(GossipEvent::Stop);
    assert!(matches!(d, Directive::Exit));
}

/// A zero frequency is rejected at construction.
#[test]
fn zero_frequency_rejected() {
    let config = Config { frequency: 0, poll_size: 2 };
    let r = Gossiper::new(config, RecordSet::new(), NoOpClient::new());
    assert!(matches!(r, Err(ConfigError::ZeroFrequency)));
}

/// The client with no peers fails every delivery attempt.
#[test]
fn no_peers_is_an_error() {
    let mut c = NoOpClient::new();
    assert_eq!(c.app_gossip(vec![1u8, 2]), Err(TransportError::NoPeers));
    assert_eq!(c.app_request(vec![]), Err(TransportError::NoPeers));
    assert!(c.app_request_any(&vec![0u8]).is_err());
}

/// Round isolation: with `poll_size` zero a full round completes without
/// any client call — the in-process peer never even produces an answer.
#[test]
fn round_with_zero_poll_size_is_silent() {
    let peer = filled_set(&[1, 2, 3]);
    let client = LoopbackClient::new(peer);
    let config = Config { frequency: 50, poll_size: 0 };
    let mut g = Gossiper::new(config, RecordSet::new(), client).unwrap();
    g.start();
    assert!(g.single_round().is_ok());
    // Had the client been used, the peer's answer to an empty store's
    // summary would hold all three records.
    assert_eq!(g.client_mut().take_pending().len(), 0);
}

/// With a positive `poll_size` the same round does reach the peer.
#[test]
fn round_with_positive_poll_size_reaches_peer() {
    let peer = filled_set(&[1, 2, 3]);
    let client = LoopbackClient::new(peer);
    let config = Config { frequency: 50, poll_size: 1 };
    let mut g = Gossiper::new(config, RecordSet::new(), client).unwrap();
    g.start();
    assert!(g.single_round().is_ok());
    assert_eq!(g.client_mut().take_pending().len(), 3);
}

/// Sequential rounds: ticking every 50ms with rounds that take 120ms,
/// rounds never overlap and at most one tick stays pending, so 500ms of
/// simulated time completes 4 rounds, not 10.
#[test]
fn rounds_are_sequential_without_backlog() {
    let config = Config { frequency: 50, poll_size: 0 };
    let mut g = Gossiper::new(config, RecordSet::new(), NoOpClient::new()).unwrap();
    g.start();
    let round_duration: u64 = 120;
    let horizon: u64 = 500;
    let mut now: u64 = 0;
    let mut completed: u64 = 0;
    // The first tick fires at 0; while a round runs, later ticks coalesce
    // into a single pending one, processed as soon as the round ends.
    while now < horizon {
        let d = g.gossip_step(GossipEvent::Tick);
        assert!(matches!(d, Directive::Continue));
        let end = now + round_duration;
        if end > horizon {
            break;
        }
        completed += 1;
        now = end;
    }
    assert_eq!(completed, 4);
    assert_ne!(completed, horizon / 50);
}

/// Graceful stop: the stop signal observed with no round in flight exits
/// at once, without starting another round.
#[test]
fn stop_exits_without_another_round() {
    let peer = filled_set(&[4, 5]);
    let client = LoopbackClient::new(peer);
    let config = Config { frequency: 50, poll_size: 1 };
    let mut g = Gossiper::new(config, RecordSet::new(), client).unwrap();
    g.start();
    let d = g.gossip_step(GossipEvent::Stop);
    assert!(matches!(d, Directive::Exit));
    // No round ran on the way out: the peer produced no answer.
    assert_eq!(g.client_mut().take_pending().len(), 0);
    assert_eq!(g.store().len(), 0);
}

/// End to end: an empty store gossips once with one peer holding three
/// records; afterwards the requester holds all three and the peer is
/// unchanged.
#[test]
fn one_round_pulls_everything_from_peer() {
    let peer = filled_set(&[101, 102, 103]);
    let client = LoopbackClient::new(peer);
    let config = Config { frequency: 50, poll_size: 1 };
    let mut g = Gossiper::new(config, RecordSet::new(), client).unwrap();
    g.start();
    let d = g.gossip_step(GossipEvent::Tick);
    assert!(matches!(d, Directive::Continue));
    let learned = g.client_mut().take_pending();
    assert_eq!(learned.len(), 3);
    g.handle_response(learned);
    assert_eq!(g.store().len(), 3);
    assert!(g.store().contains(101));
    assert!(g.store().contains(102));
    assert!(g.store().contains(103));
    // The responding peer was only read, never written.
    let peer = g.client().peer();
    assert_eq!(peer.len(), 3);
    assert!(peer.contains(101) && peer.contains(102) && peer.contains(103));
}

/// A summary survives its trip through the wire encoding.
#[test]
fn summary_encoding_round_trip() {
    let mut s = filled_set(&[1, 2]);
    let (filter, salt_bytes) = s.get_filter().unwrap();
    let salt = read_u64_le(salt_bytes.as_slice(), 0);
    let payload = encode_summary(&filter, &salt_bytes);
    let (filter_back, salt_back) = decode_summary(&payload).unwrap();
    assert_eq!(filter_back, filter);
    assert_eq!(salt_back, salt);
    // A truncated payload is not a summary.
    assert!(decode_summary(&vec![0u8; 10]).is_none());
}

/// A malformed summary payload makes the in-process peer answer with
/// nothing rather than fail.
#[test]
fn malformed_summary_yields_empty_answer() {
    let peer = filled_set(&[1]);
    let mut c = LoopbackClient::new(peer);
    assert!(c.app_gossip(vec![0u8; 3]).is_ok());
    assert_eq!(c.take_pending().len(), 0);
}

/// Concurrent producers: records added from two tasks with distinct ids
/// are both present afterwards, and the count grows by exactly two.
#[test]
fn concurrent_producers_both_land() {
    let rt = tokio::runtime::Builder::new_multi_thread()
        .worker_threads(2)
        .build()
        .unwrap();
    let store = Arc::new(tokio::sync::Mutex::new(filled_set(&[1])));
    let a = store.clone();
    let b = store.clone();
    rt.block_on(async move {
        let ta = tokio::spawn(async move {
            let mut s = a.lock().await;
            assert!(s.add(Record::new(1000, vec![1u8])).is_ok());
        });
        let tb = tokio::spawn(async move {
            let mut s = b.lock().await;
            assert!(s.add(Record::new(2000, vec![2u8])).is_ok());
        });
        ta.await.unwrap();
        tb.await.unwrap();
    });
    let s = store.blocking_lock();
    assert_eq!(s.len(), 3);
    assert!(s.contains(1000));
    assert!(s.contains(2000));
}
