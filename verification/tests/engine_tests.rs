use zfs_autosnap::date::{weekday, DateTime};
use zfs_autosnap::zfs::SnapshotMetadata;
use zfs_autosnap::RetentionPolicy;

fn snap(name: &str, year: u16, month: u8, day: u8, hour: u8, minute: u8) -> SnapshotMetadata {
    SnapshotMetadata {
        name: name.to_string(),
        created: DateTime { year, month, day, hour, minute, second: 0 },
        used: 1024,
    }
}

fn names(records: &[SnapshotMetadata]) -> Vec<String> {
    records.iter().map(|r| r.name.clone()).collect()
}

#[test]
fn test_bucket_scenario_h2() {
    // Five snapshots at hours 00:10, 00:40, 01:05, 02:00 and 26:00 (the
    // next day, same hour) under policy h2: keep exactly the newest
    // snapshot of the two most recent distinct hour buckets.
    let v = vec![
        snap("t@0010", 2021, 10, 2, 0, 10),
        snap("t@0040", 2021, 10, 2, 0, 40),
        snap("t@0105", 2021, 10, 2, 1, 5),
        snap("t@0200", 2021, 10, 2, 2, 0),
        snap("t@2600", 2021, 10, 3, 2, 0),
    ];
    let policy = RetentionPolicy::parse("h2");
    let check = policy.check_age(&v);
    assert_eq!(names(&check.keep), vec!["t@2600", "t@0200"]);
    assert_eq!(names(&check.delete), vec!["t@0105", "t@0040", "t@0010"]);
}

#[test]
fn test_empty_input() {
    let v: Vec<SnapshotMetadata> = vec![];
    let policy = RetentionPolicy::parse("h24d30w8m6y1");
    let check = policy.check_age(&v);
    assert!(check.keep.is_empty());
    assert!(check.delete.is_empty());
}

#[test]
fn test_all_rules_unset_deletes_everything() {
    let v = vec![snap("t@a", 2021, 10, 2, 0, 10), snap("t@b", 2021, 10, 3, 2, 0)];
    let policy = RetentionPolicy::parse("");
    let check = policy.check_age(&v);
    assert!(check.keep.is_empty());
    assert_eq!(names(&check.delete), vec!["t@b", "t@a"]);
}

#[test]
fn test_zero_and_unset_agree() {
    let v = vec![
        snap("t@a", 2021, 10, 2, 0, 10),
        snap("t@b", 2021, 10, 2, 2, 0),
        snap("t@c", 2021, 10, 3, 2, 0),
    ];
    let zero = RetentionPolicy {
        yearly: None,
        monthly: None,
        weekly: None,
        daily: Some(2),
        hourly: Some(0),
    };
    let unset = RetentionPolicy {
        yearly: None,
        monthly: None,
        weekly: None,
        daily: Some(2),
        hourly: None,
    };
    let a = zero.check_age(&v);
    let b = unset.check_age(&v);
    assert_eq!(a.keep, b.keep);
    assert_eq!(a.delete, b.delete);
}

#[test]
fn test_idempotent_evaluation() {
    let v = vec![
        snap("t@a", 2021, 10, 2, 0, 10),
        snap("t@b", 2021, 10, 2, 2, 0),
        snap("t@c", 2021, 10, 3, 2, 0),
    ];
    let policy = RetentionPolicy::parse("h2d1");
    let first = policy.check_age(&v);
    let second = policy.check_age(&v);
    assert_eq!(first.keep, second.keep);
    assert_eq!(first.delete, second.delete);
}

#[test]
fn test_monotonic_in_rule_count() {
    let v = vec![
        snap("t@0010", 2021, 10, 2, 0, 10),
        snap("t@0040", 2021, 10, 2, 0, 40),
        snap("t@0105", 2021, 10, 2, 1, 5),
        snap("t@0200", 2021, 10, 2, 2, 0),
        snap("t@2600", 2021, 10, 3, 2, 0),
    ];
    let small = RetentionPolicy::parse("h2");
    let large = RetentionPolicy::parse("h3");
    let a = small.check_age(&v);
    let b = large.check_age(&v);
    for kept in &a.keep {
        assert!(b.keep.contains(kept));
    }
    for deleted in &b.delete {
        assert!(a.delete.contains(deleted));
    }
}

#[test]
fn test_stable_order_on_equal_timestamps() {
    // Equal creation times keep their input order; the first of the two
    // is the bucket representative.
    let v = vec![snap("t@first", 2021, 10, 2, 9, 59), snap("t@second", 2021, 10, 2, 9, 59)];
    let policy = RetentionPolicy::parse("h1");
    let check = policy.check_age(&v);
    assert_eq!(names(&check.keep), vec!["t@first"]);
    assert_eq!(names(&check.delete), vec!["t@second"]);
}

#[test]
fn test_weekly_bucket_is_year_and_weekday() {
    // 2021-10-02 and 2021-10-09 are both Saturdays: under the weekly
    // rule they share one bucket across calendar weeks, so w2 keeps the
    // newest Saturday and the Sunday, and deletes the older Saturday.
    let v = vec![
        snap("t@sat1", 2021, 10, 2, 12, 0),
        snap("t@sun", 2021, 10, 3, 12, 0),
        snap("t@sat2", 2021, 10, 9, 12, 0),
    ];
    let policy = RetentionPolicy::parse("w2");
    let check = policy.check_age(&v);
    assert_eq!(names(&check.keep), vec!["t@sat2", "t@sun"]);
    assert_eq!(names(&check.delete), vec!["t@sat1"]);
}

#[test]
fn test_weekday_values() {
    // 2021-10-02 was a Saturday, 2021-10-03 a Sunday.
    let sat = DateTime { year: 2021, month: 10, day: 2, hour: 0, minute: 0, second: 0 };
    let sun = DateTime { year: 2021, month: 10, day: 3, hour: 0, minute: 0, second: 0 };
    let mon = DateTime { year: 2021, month: 10, day: 4, hour: 0, minute: 0, second: 0 };
    assert_eq!(weekday(&sat), 6);
    assert_eq!(weekday(&sun), 0);
    assert_eq!(weekday(&mon), 1);
}

#[test]
fn test_record_kept_once_under_many_rules() {
    // One record matched by several rules appears exactly once in keep.
    let v = vec![snap("t@only", 2021, 10, 2, 9, 59)];
    let policy = RetentionPolicy::parse("h24d30w8m6y1");
    let check = policy.check_age(&v);
    assert_eq!(names(&check.keep), vec!["t@only"]);
    assert!(check.delete.is_empty());
}

#[test]
fn test_partition_covers_input() {
    let v = vec![
        snap("t@a", 2021, 10, 2, 0, 10),
        snap("t@b", 2021, 10, 2, 2, 0),
        snap("t@c", 2021, 10, 3, 2, 0),
        snap("t@d", 2020, 1, 1, 0, 0),
    ];
    let policy = RetentionPolicy::parse("d2");
    let check = policy.check_age(&v);
    assert_eq!(check.keep.len() + check.delete.len(), v.len());
    for record in &v {
        let in_keep = check.keep.contains(record);
        let in_delete = check.delete.contains(record);
        assert!(in_keep != in_delete);
    }
}
