use cmln::feed::{apply_read_rule, net_up, now_unix, unix_secs_or_zero};
use cmln::{HostFeedFile, STALE_AFTER_SECS};

fn feed(updated_at: u64) -> HostFeedFile<&'static str, &'static str> {
    HostFeedFile {
        updated_at,
        net: vec!["br0"],
        pools: vec!["solid"],
    }
}

#[test]
fn decoded_fresh_feed_is_kept_with_its_rows() {
    let kept = apply_read_rule(Some(feed(1_700_000_000)), 1_700_000_010).unwrap();
    assert_eq!(kept, feed(1_700_000_000));
    assert_eq!(kept.net, vec!["br0"]);
    assert_eq!(kept.pools, vec!["solid"]);
}

#[test]
fn decoded_stale_feed_reads_as_absent() {
    assert!(apply_read_rule(Some(feed(1_700_000_000)), 1_700_000_000 + STALE_AFTER_SECS + 1)
        .is_none());
    assert!(apply_read_rule(Some(feed(1_700_000_000)), 1_700_000_000 + STALE_AFTER_SECS).is_some());
}

#[test]
fn undecodable_feed_stays_absent() {
    assert!(apply_read_rule(None::<HostFeedFile<u8, u8>>, 1_700_000_000).is_none());
}

#[test]
fn feed_age_saturates_for_future_stamps() {
    let f = feed(1_700_000_000);
    assert_eq!(f.age_secs(1_700_000_010), 10);
    assert_eq!(f.age_secs(1_600_000_000), 0);
    assert!(!f.is_stale(1_600_000_000));
    assert!(!f.is_stale(1_700_000_000 + STALE_AFTER_SECS));
    assert!(f.is_stale(1_700_000_000 + STALE_AFTER_SECS + 1));
    assert_eq!(STALE_AFTER_SECS, 120);
}

#[test]
fn staleness_only_grows_with_time() {
    let f = feed(500);
    let mut was_stale = false;
    for now in 1..1000u64 {
        let stale = f.is_stale(now);
        assert!(!was_stale || stale);
        was_stale = stale;
    }
    assert!(was_stale);
}

#[test]
fn missing_state_default_is_up() {
    assert_eq!(net_up(), "up");
}

#[test]
fn clock_reading_falls_back_to_zero() {
    assert_eq!(unix_secs_or_zero(None), 0);
    assert_eq!(unix_secs_or_zero(Some(1_700_000_123)), 1_700_000_123);
    assert!(now_unix() > 1_600_000_000);
}

#[test]
fn without_a_clock_only_a_zero_stamp_reads_fresh() {
    assert!(feed(1_700_000_000).is_stale(0));
    assert!(!feed(0).is_stale(0));
    assert!(apply_read_rule(Some(feed(1_700_000_000)), 0).is_none());
    assert_eq!(apply_read_rule(Some(feed(0)), 0), Some(feed(0)));
    assert_eq!(feed(1_700_000_000).age_secs(0), 0);
}
