use splot::buffer::{GetResult, R};
use splot::Config;

#[test]
fn empty_store_has_empty_window() {
    let r: R<Vec<u8>> = R::new(Vec::new(), 4);
    assert_eq!(r.top(), 0);
    assert_eq!(r.bottom(), 0);
    assert!(matches!(r.get(0), GetResult::Pending(_)));
}

#[test]
fn push_then_get_returns_each_record() {
    let mut r: R<Vec<u64>> = R::new(vec![0], 4);
    r.push(vec![10]);
    r.push(vec![20]);
    r.push(vec![30]);
    assert_eq!(r.top(), 3);
    assert_eq!(r.bottom(), 0);
    for i in 0..3 {
        match r.get(i) {
            GetResult::Ready(v) => assert_eq!(v, vec![(i as u64 + 1) * 10]),
            _ => panic!("index {} should still be retrievable", i),
        }
    }
    assert!(matches!(r.get(3), GetResult::Pending(_)));
}

#[test]
fn retention_expires_old_indices() {
    // Capacity 2: after 4 pushes, indices 0 and 1 have fallen behind.
    let mut r: R<Vec<u8>> = R::new(Vec::new(), 2);
    r.push(b"a".to_vec());
    r.push(b"b".to_vec());
    r.push(b"c".to_vec());
    r.push(b"d".to_vec());
    assert_eq!(r.top(), 4);
    assert_eq!(r.bottom(), 2);
    assert!(matches!(r.get(0), GetResult::Expired));
    assert!(matches!(r.get(1), GetResult::Expired));
    match r.get(2) {
        GetResult::Ready(v) => assert_eq!(v, b"c".to_vec()),
        _ => panic!("index 2 should still be retrievable"),
    }
    match r.get(3) {
        GetResult::Ready(v) => assert_eq!(v, b"d".to_vec()),
        _ => panic!("index 3 should still be retrievable"),
    }
}

#[test]
fn window_holds_exact_push_order() {
    let mut r: R<Vec<u64>> = R::new(vec![0], 3);
    for i in 0..10u64 {
        r.push(vec![i, i * i]);
    }
    assert_eq!(r.top(), 10);
    assert_eq!(r.bottom(), 7);
    for i in 7..10u64 {
        match r.get(i as usize) {
            GetResult::Ready(v) => assert_eq!(v, vec![i, i * i]),
            _ => panic!("index {} should still be retrievable", i),
        }
    }
}

#[test]
fn capacity_one_keeps_only_newest() {
    let mut r: R<Vec<u8>> = R::new(Vec::new(), 1);
    r.push(b"old".to_vec());
    r.push(b"new".to_vec());
    assert!(matches!(r.get(0), GetResult::Expired));
    match r.get(1) {
        GetResult::Ready(v) => assert_eq!(v, b"new".to_vec()),
        _ => panic!("the newest record should be retrievable"),
    }
}

#[test]
fn config_carries_its_fields() {
    let c = Config {
        plot: String::from("{}"),
        css: String::from("body {}"),
        n_data: 100,
        n_text: 50,
    };
    let d = c.clone();
    assert_eq!(d.plot, "{}");
    assert_eq!(d.css, "body {}");
    assert_eq!(d.n_data, 100);
    assert_eq!(d.n_text, 50);
}
