use url_shortener::snowflake::{
    ConfigurationError, SnowflakeGenerator, EPOCH, MAX_SEQUENCE, MAX_TIMESTAMP,
};

fn parts(id: i64) -> (i64, i64, i64) {
    (id >> 22, (id >> 12) & 1023, id & 4095)
}

#[test]
fn new_rejects_out_of_range_node_ids() {
    assert_eq!(
        SnowflakeGenerator::new(-1).err(),
        Some(ConfigurationError { node_id: -1 })
    );
    assert_eq!(
        SnowflakeGenerator::new(1024).err(),
        Some(ConfigurationError { node_id: 1024 })
    );
}

#[test]
fn new_accepts_the_end_points() {
    assert_eq!(SnowflakeGenerator::new(0).unwrap().node_id(), 0);
    assert_eq!(SnowflakeGenerator::new(1023).unwrap().node_id(), 1023);
}

#[test]
fn step_from_unix_millis_counts_from_the_epoch() {
    assert_eq!(SnowflakeGenerator::step_from_unix_millis(EPOCH), 0);
    assert_eq!(SnowflakeGenerator::step_from_unix_millis(EPOCH + 5), 5);
    assert_eq!(SnowflakeGenerator::step_from_unix_millis(0), 0);
    assert_eq!(SnowflakeGenerator::step_from_unix_millis(i64::MAX), MAX_TIMESTAMP);
}

#[test]
fn timestamp_reads_the_clock() {
    let t = SnowflakeGenerator::timestamp();
    // Later than 2024-01-01, which is 94608000000 ms after the epoch.
    assert!(t > 94_608_000_000);
}

#[test]
fn next_id_packs_timestamp_node_and_sequence() {
    let mut g = SnowflakeGenerator::new(1).unwrap();
    assert_eq!(g.next_id(5), Some((5 << 22) | (1 << 12)));
    assert_eq!(g.next_id(5), Some((5 << 22) | (1 << 12) | 1));
    assert_eq!(g.next_id(9), Some((9 << 22) | (1 << 12)));
}

#[test]
fn next_id_clamps_a_clock_that_goes_back() {
    let mut g = SnowflakeGenerator::new(3).unwrap();
    assert_eq!(g.next_id(100), Some((100 << 22) | (3 << 12)));
    assert_eq!(g.next_id(40), Some((100 << 22) | (3 << 12) | 1));
}

#[test]
fn next_id_waits_when_the_sequence_is_used_up() {
    let mut g = SnowflakeGenerator::new(7).unwrap();
    assert_eq!(g.next_id(10), Some((10 << 22) | (7 << 12)));
    for s in 1..=MAX_SEQUENCE {
        assert_eq!(g.next_id(10), Some((10 << 22) | (7 << 12) | s));
    }
    assert_eq!(g.next_id(10), None);
    assert_eq!(g.next_id(10), None);
    assert_eq!(g.next_id(11), Some((11 << 22) | (7 << 12)));
}

#[test]
fn generated_ids_strictly_increase() {
    let mut g = SnowflakeGenerator::new(5).unwrap();
    let mut last: Option<(i64, i64, i64)> = None;
    for _ in 0..2000 {
        let id = g.generate(u64::MAX).unwrap();
        let (ts, node, seq) = parts(id);
        assert_eq!(node, 5);
        if let Some((lts, _, lseq)) = last {
            assert!(ts > lts || (ts == lts && seq > lseq));
        }
        last = Some((ts, node, seq));
    }
}

#[test]
fn five_thousand_ids_are_distinct() {
    let mut g = SnowflakeGenerator::new(1).unwrap();
    let mut ids: Vec<i64> = Vec::new();
    for _ in 0..5000 {
        ids.push(g.generate(u64::MAX).unwrap());
    }
    let mut sorted = ids.clone();
    sorted.sort();
    sorted.dedup();
    assert_eq!(sorted.len(), 5000);
}

#[test]
fn generate_does_not_wait_with_sequence_left() {
    let mut g = SnowflakeGenerator::new(2).unwrap();
    let id = g.generate(0).unwrap();
    assert_eq!(parts(id).1, 2);
    assert!(id > 0);
}
