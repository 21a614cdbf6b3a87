use splot::buffer::{push_beside, R};
use splot::session::Step;

#[test]
fn backfill_replays_window_then_waits() {
    // top = 5, capacity = 3, so bottom = 2: a new session must emit the
    // records at indices 2, 3, 4 in order, nothing for 0 and 1, then wait.
    let mut r: R<Vec<u8>> = R::new(Vec::new(), 3);
    for i in 0..5u8 {
        r.push(vec![b'r', b'0' + i]);
    }
    assert_eq!(r.top(), 5);
    assert_eq!(r.bottom(), 2);
    let mut session = r.new_session();
    for i in 2..5u8 {
        match session.next(&r) {
            Step::Emit(bytes) => assert_eq!(bytes, vec![b'r', b'0' + i]),
            _ => panic!("expected the record at index {}", i),
        }
    }
    assert!(matches!(session.next(&r), Step::Wait(_)));
}

#[test]
fn live_record_arrives_after_wait() {
    let mut r: R<Vec<u8>> = R::new(Vec::new(), 3);
    r.push(b"one".to_vec());
    let mut session = r.new_session();
    match session.next(&r) {
        Step::Emit(bytes) => assert_eq!(bytes, b"one"),
        _ => panic!("expected the backfilled record"),
    }
    assert!(matches!(session.next(&r), Step::Wait(_)));
    r.push(b"two".to_vec());
    match session.next(&r) {
        Step::Emit(bytes) => assert_eq!(bytes, b"two"),
        _ => panic!("expected the live record"),
    }
}

#[test]
fn eviction_closes_the_slow_session_only() {
    let mut r: R<Vec<u8>> = R::new(Vec::new(), 2);
    r.push(b"a".to_vec());
    let mut slow = r.new_session();
    // The producer runs far ahead of the idle session.
    for _ in 0..4 {
        r.push(b"x".to_vec());
    }
    assert!(r.bottom() > 0);
    assert!(matches!(slow.next(&r), Step::Closed));
    // A fresh session with a fresh cursor is served as usual.
    let mut fresh = r.new_session();
    match fresh.next(&r) {
        Step::Emit(bytes) => assert_eq!(bytes, b"x"),
        _ => panic!("the store must keep serving fresh sessions"),
    }
}

#[test]
fn closed_session_stays_closed() {
    let mut r: R<Vec<u8>> = R::new(Vec::new(), 1);
    let mut session = r.new_session();
    r.push(b"a".to_vec());
    r.push(b"b".to_vec());
    assert!(matches!(session.next(&r), Step::Closed));
    assert!(matches!(session.next(&r), Step::Closed));
    r.push(b"c".to_vec());
    assert!(matches!(session.next(&r), Step::Closed));
}

#[test]
fn stores_do_not_interfere() {
    let mut numeric: R<Vec<u64>> = R::new(vec![0], 3);
    let mut text: R<Vec<u8>> = R::new(Vec::new(), 2);
    for _ in 0..5 {
        text.push(b"line".to_vec());
    }
    assert_eq!(numeric.top(), 0);
    assert_eq!(numeric.bottom(), 0);
    assert_eq!(text.top(), 5);
    assert_eq!(text.bottom(), 3);
    numeric.push(vec![7]);
    assert_eq!(text.top(), 5);
    assert_eq!(text.bottom(), 3);
    assert_eq!(numeric.top(), 1);
    // The same, through the verified pair form of the law, both ways round.
    push_beside(&mut numeric, &mut text, vec![8]);
    assert_eq!(numeric.top(), 2);
    assert_eq!(text.top(), 5);
    assert_eq!(text.bottom(), 3);
    push_beside(&mut text, &mut numeric, b"more".to_vec());
    assert_eq!(text.top(), 6);
    assert_eq!(numeric.top(), 2);
    assert_eq!(numeric.bottom(), 0);
}
