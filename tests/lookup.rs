use rmqtt_retainer::reply::{merge_replies, PeerOutcome, PeerReply};
use rmqtt_retainer::retainer::{GetStep, Retainer};

type Entry = (String, String);

fn entry(topic: &str, retain: &str) -> Entry {
    (topic.to_string(), retain.to_string())
}

fn front() -> Retainer<&'static str> {
    Retainer::new("local-store", 22)
}

fn held(step: GetStep<Entry, String>) -> Vec<Entry> {
    match step {
        GetStep::ListPeers(v) => v,
        _ => panic!("expected the peer set to be asked for"),
    }
}

#[test]
fn new_keeps_store_and_request_kind() {
    let r = Retainer::new(5u32, 1022);
    assert_eq!(*r.inner(), 5u32);
    assert_eq!(r.message_type, 1022);
}

#[test]
fn scenario_one_peer_answers_one_fails() {
    let r = front();
    let local = held(r.on_local(Ok(vec![entry("a/b", "R1")])));
    let held = match r.on_peers::<Entry, String>(local, 2) {
        GetStep::Broadcast(kind, v) => {
            assert_eq!(kind, 22);
            v
        }
        _ => panic!("expected a broadcast"),
    };
    let replies: Vec<PeerOutcome<u64, Entry, String>> = vec![
        (1, Ok(PeerReply::Retains(vec![entry("a/b", "R2")]))),
        (2, Err("connection refused".to_string())),
    ];
    let (answer, failures) = r.on_replies::<u64, Entry, String, String>(held, replies);
    assert_eq!(answer, Ok(vec![entry("a/b", "R1"), entry("a/b", "R2")]));
    assert_eq!(failures, vec![(2u64, "connection refused".to_string())]);
}

#[test]
fn scenario_no_matches_no_peers_is_empty() {
    let r = front();
    let local = held(r.on_local(Ok(Vec::new())));
    match r.on_peers::<Entry, String>(local, 0) {
        GetStep::Finish(Ok(v)) => assert!(v.is_empty()),
        _ => panic!("expected an empty answer"),
    }
}

#[test]
fn scenario_local_fault_is_the_answer() {
    let r = front();
    match r.on_local::<Entry, String>(Err("storage fault".to_string())) {
        GetStep::Finish(Err(e)) => assert_eq!(e, "storage fault"),
        _ => panic!("expected the local fault"),
    }
}

#[test]
fn no_peers_returns_local_unchanged() {
    let r = front();
    let matches = vec![entry("a/b", "R1"), entry("a/c", "R3"), entry("a/b", "R1")];
    let local = held(r.on_local(Ok(matches.clone())));
    match r.on_peers::<Entry, String>(local, 0) {
        GetStep::Finish(Ok(v)) => assert_eq!(v, matches),
        _ => panic!("expected the local matches"),
    }
}

#[test]
fn broadcast_uses_first_request_kind() {
    let r = Retainer::new((), 7);
    match r.on_peers::<u8, ()>(vec![1, 2], 1) {
        GetStep::Broadcast(kind, v) => {
            assert_eq!(kind, 7);
            assert_eq!(v, vec![1, 2]);
        }
        _ => panic!("expected a broadcast"),
    }
}

#[test]
fn union_skips_other_kinds_and_empty_lists() {
    let replies: Vec<PeerOutcome<u64, u32, String>> = vec![
        (1, Ok(PeerReply::Other)),
        (2, Ok(PeerReply::Retains(vec![]))),
        (3, Ok(PeerReply::Retains(vec![30, 31]))),
        (4, Ok(PeerReply::Retains(vec![40]))),
    ];
    let (merged, failures) = merge_replies(vec![10, 11], replies);
    assert_eq!(merged, vec![10, 11, 30, 31, 40]);
    assert!(failures.is_empty());
}

#[test]
fn failed_peer_leaves_others_intact() {
    let answering: Vec<PeerOutcome<u64, u32, String>> = vec![
        (1, Ok(PeerReply::Retains(vec![1]))),
        (2, Ok(PeerReply::Retains(vec![2]))),
        (3, Ok(PeerReply::Retains(vec![3]))),
    ];
    let one_failing: Vec<PeerOutcome<u64, u32, String>> = vec![
        (1, Ok(PeerReply::Retains(vec![1]))),
        (2, Err("timeout".to_string())),
        (3, Ok(PeerReply::Retains(vec![3]))),
    ];
    let (all, none_failed) = merge_replies(vec![0], answering);
    let (some, failed) = merge_replies(vec![0], one_failing);
    assert_eq!(all, vec![0, 1, 2, 3]);
    assert!(none_failed.is_empty());
    assert_eq!(some, vec![0, 1, 3]);
    assert_eq!(failed, vec![(2u64, "timeout".to_string())]);
}

#[test]
fn every_peer_failing_leaves_local() {
    let replies: Vec<PeerOutcome<u64, u32, String>> =
        vec![(1, Err("a".to_string())), (2, Err("b".to_string()))];
    let (merged, failed) = merge_replies(vec![5], replies);
    assert_eq!(merged, vec![5]);
    assert_eq!(failed, vec![(1u64, "a".to_string()), (2u64, "b".to_string())]);
}

#[test]
fn duplicates_from_peers_are_kept() {
    let r = front();
    let replies: Vec<PeerOutcome<u64, Entry, String>> = vec![
        (1, Ok(PeerReply::Retains(vec![entry("a/b", "R")]))),
        (2, Ok(PeerReply::Retains(vec![entry("a/b", "R")]))),
    ];
    let (answer, _) = r.on_replies::<u64, Entry, String, String>(vec![entry("a/b", "R")], replies);
    let v = answer.unwrap();
    assert_eq!(v.len(), 3);
    assert!(v.iter().all(|e| *e == entry("a/b", "R")));
}
