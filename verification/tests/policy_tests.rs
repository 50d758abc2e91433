use std::str::FromStr;

use zfs_autosnap::date::Granularity;
use zfs_autosnap::RetentionPolicy;

#[test]
fn test_retention_policy_from_str() {
    let actual = RetentionPolicy::from_str("h24d30w8m6y1").unwrap();
    let expected = RetentionPolicy {
        yearly: Some(1),
        monthly: Some(6),
        weekly: Some(8),
        daily: Some(30),
        hourly: Some(24),
    };
    assert_eq!(actual, expected);
}

#[test]
fn test_retention_policy_invalid() {
    let actual = RetentionPolicy::from_str("y1d88a1b2c3m5").unwrap();
    let expected = RetentionPolicy {
        yearly: Some(1),
        monthly: Some(5),
        weekly: None,
        daily: Some(88),
        hourly: None,
    };
    assert_eq!(actual, expected);
}

#[test]
fn test_retention_policy_empty() {
    let actual = RetentionPolicy::from_str("").unwrap();
    let expected = RetentionPolicy {
        yearly: None,
        monthly: None,
        weekly: None,
        daily: None,
        hourly: None,
    };
    assert_eq!(actual, expected);
}

#[test]
fn test_retention_policy_truncated() {
    let actual = RetentionPolicy::from_str("y").unwrap();
    let expected = RetentionPolicy {
        yearly: None,
        monthly: None,
        weekly: None,
        daily: None,
        hourly: None,
    };
    assert_eq!(actual, expected);
}

#[test]
fn test_retention_policy_last_occurrence_wins() {
    let actual = RetentionPolicy::parse("h1h2");
    assert_eq!(actual.hourly, Some(2));
}

#[test]
fn test_retention_policy_bare_marker_contributes_nothing() {
    // A later marker with no digits is ignored and does not unset an
    // earlier well-formed count.
    let actual = RetentionPolicy::parse("h5h");
    assert_eq!(actual.hourly, Some(5));
}

#[test]
fn test_retention_policy_overflowing_count_ignored() {
    // 4294967296 does not fit a u32 count, so the marker contributes
    // nothing.
    let actual = RetentionPolicy::parse("h4294967296");
    assert_eq!(actual.hourly, None);
}

#[test]
fn test_retention_policy_count_at_limit() {
    let actual = RetentionPolicy::parse("h4294967295");
    assert_eq!(actual.hourly, Some(4294967295));
}

#[test]
fn test_retention_policy_zero_count() {
    let actual = RetentionPolicy::parse("h0d3");
    assert_eq!(actual.hourly, Some(0));
    assert_eq!(actual.daily, Some(3));
}

#[test]
fn test_retention_policy_rules_order() {
    let p = RetentionPolicy::parse("h24d30w8m6y1");
    let rules = p.rules();
    assert_eq!(
        rules,
        vec![
            (Granularity::Hourly, 24),
            (Granularity::Daily, 30),
            (Granularity::Weekly, 8),
            (Granularity::Monthly, 6),
            (Granularity::Yearly, 1),
        ]
    );
}

#[test]
fn test_retention_policy_rules_unset_is_zero() {
    let p = RetentionPolicy::parse("d7");
    let rules = p.rules();
    assert_eq!(rules[0], (Granularity::Hourly, 0));
    assert_eq!(rules[1], (Granularity::Daily, 7));
}
