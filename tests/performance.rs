use voxel_chunks::performance::{PerformanceRecord, PerformanceStore};

fn rec(start_time: u64, msg: &str) -> PerformanceRecord {
    PerformanceRecord {
        start_time,
        end_time: start_time + 5,
        channel_group: "backend".to_string(),
        channel_index: "get_chunk_1".to_string(),
        msg: msg.to_string(),
    }
}

#[test]
fn records_are_kept_per_session_in_order() {
    let mut s = PerformanceStore::new();
    s.add_record("a", rec(1, "first"), 100);
    s.add_record("b", rec(2, "other"), 100);
    s.add_records("a", vec![rec(3, "second"), rec(4, "third")], 200);
    let a = s.get_records("a").expect("session a");
    let msgs: Vec<&str> = a.iter().map(|r| r.msg.as_str()).collect();
    assert_eq!(msgs, vec!["first", "second", "third"]);
    assert_eq!(a[0].end_time, 6);
    assert_eq!(s.get_records("b").unwrap().len(), 1);
    assert!(s.get_records("c").is_none());
}

#[test]
fn sessions_expire_strictly_after_ttl() {
    let mut s = PerformanceStore::new();
    let ttl = 30 * 60 * 1000u64;
    s.add_record("old", rec(0, "x"), 1000);
    s.add_record("edge", rec(0, "y"), 2000);
    s.add_record("new", rec(0, "z"), 5000);
    assert_eq!(s.cleanup_expired(2000 + ttl), 1);
    assert!(s.get_records("old").is_none());
    assert!(s.get_records("edge").is_some());
    assert!(s.get_records("new").is_some());
    assert_eq!(s.cleanup_expired(0), 0);
}

#[test]
fn clear_all_drops_every_session() {
    let mut s = PerformanceStore::new();
    s.add_record("a", rec(1, "m"), 0);
    s.clear_all();
    assert!(s.get_records("a").is_none());
}
