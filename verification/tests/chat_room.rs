use worldchat::chat::room::{RoomRecord, bootstrap_candidates, publish_wait_nanos, records_to_republish};
use worldchat::chat::to_z32;

fn labels(name: &str) -> Vec<Vec<u8>> {
    name.split('.').filter(|l| !l.is_empty()).map(|l| l.as_bytes().to_vec()).collect()
}

fn cname(target: &str, ttl: u32) -> RoomRecord {
    RoomRecord::Cname { labels: labels(target), ttl }
}

#[test]
fn z32_text_of_bytes() {
    assert_eq!(to_z32(&[]), "");
    assert_eq!(to_z32(&[0]), "yy");
    assert_eq!(to_z32(&[0xff]), "9h");
    assert_eq!(to_z32(b"hello"), "pb1sa5dx");
    assert_eq!(to_z32(&[0u8; 32]).len(), 52);
}

#[test]
fn bootstrap_skips_own_id_and_bad_labels() {
    let own = b"me".to_vec();
    let records = vec![
        cname("peer1", 30),
        RoomRecord::Other,
        cname("me", 30),
        RoomRecord::Cname { labels: vec![vec![0xff, 0xfe]], ttl: 30 },
        RoomRecord::Cname { labels: vec![], ttl: 30 },
        cname("peer2.example", 30),
    ];
    assert_eq!(bootstrap_candidates(&records, &own), vec!["peer1".to_string(), "peer2".to_string()]);
}

#[test]
fn bootstrap_takes_at_most_twenty() {
    let records: Vec<RoomRecord> = (0..30).map(|i| cname(&format!("p{i}"), 10)).collect();
    let got = bootstrap_candidates(&records, b"none");
    assert_eq!(got.len(), 20);
    assert_eq!(got[0], "p0");
    assert_eq!(got[19], "p19");
}

#[test]
fn republish_carries_fresh_records_of_others() {
    let records = vec![
        cname("peer1", 30),
        cname("me", 30),
        RoomRecord::Other,
        cname("peer2", 5),
        cname("peer3", 10),
    ];
    assert_eq!(records_to_republish(&records, &labels("me"), 10), vec![(0, 20), (4, 0)]);
    assert_eq!(records_to_republish(&records, &labels("me"), 0), vec![(0, 30), (3, 5), (4, 10)]);
    assert_eq!(records_to_republish(&records, &labels("peer1"), 31), vec![]);
    // Names are compared label by label.
    let longer = vec![cname("me.example", 30)];
    assert_eq!(records_to_republish(&longer, &labels("me"), 1), vec![(0, 29)]);
    assert_eq!(records_to_republish(&longer, &labels("me.example"), 1), vec![]);
}

#[test]
fn publish_waits_three_quarters_of_ttl() {
    assert_eq!(publish_wait_nanos(15, false), 11_000_000_000);
    assert_eq!(publish_wait_nanos(15, true), 3_666_666_666);
    assert_eq!(publish_wait_nanos(0, false), 0);
    assert_eq!(publish_wait_nanos(4, true), 1_000_000_000);
    assert_eq!(publish_wait_nanos(u32::MAX, false), 3_221_225_471_000_000_000);
}

/// Three peers publish in turn, five seconds apart, as the room's publishers
/// do: each carries over the others' records with their time to live
/// lessened, and adds its own.
#[test]
fn republish_three_endpoints_in_turn() {
    fn publish(set: &[(String, u32)], own: &str, ttl: u32, elapsed: u32) -> Vec<(String, u32)> {
        let records: Vec<RoomRecord> = set.iter().map(|(n, t)| cname(n, *t)).collect();
        let mut next: Vec<(String, u32)> = records_to_republish(&records, &labels(own), elapsed)
            .into_iter()
            .map(|(i, t)| (set[i].0.clone(), t))
            .collect();
        next.push((own.to_string(), ttl));
        next
    }
    let set = publish(&[], "endpoint1", 10, 0);
    assert_eq!(set, vec![("endpoint1".to_string(), 10)]);
    let set = publish(&set, "endpoint2", 7, 5);
    assert_eq!(set, vec![("endpoint1".to_string(), 5), ("endpoint2".to_string(), 7)]);
    let set = publish(&set, "endpoint3", 7, 5);
    assert_eq!(
        set,
        vec![
            ("endpoint1".to_string(), 0),
            ("endpoint2".to_string(), 2),
            ("endpoint3".to_string(), 7),
        ]
    );
    let set = publish(&set, "endpoint1", 10, 5);
    assert_eq!(set, vec![("endpoint3".to_string(), 2), ("endpoint1".to_string(), 10)]);
}
