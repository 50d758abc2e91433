use zfs_autosnap::date::DateTime;
use zfs_autosnap::zfs::{
    datasets_to_snapshot, is_snapshot_name, parse_snapshots, parse_used, snapshot_name,
    SnapshotMetadata, ZfsListError,
};

fn row(cols: &[&str]) -> Vec<String> {
    cols.iter().map(|c| c.to_string()).collect()
}

#[test]
fn test_parse_snapshots() {
    let lines = vec![
        // name, created, used, snapkeep
        row(&["first", "Sat Oct 2 09:59 2021", "13G", "at.rollc.at:snapkeep=h24d30w8m6y1"]),
        row(&["skip", "Sat Oct 1 19:59 2021", "2G", "-"]),
    ];
    let snapshots = parse_snapshots(lines).unwrap();
    assert_eq!(
        snapshots,
        vec![SnapshotMetadata {
            name: String::from("first"),
            created: DateTime { year: 2021, month: 10, day: 2, hour: 9, minute: 59, second: 0 },
            used: 13u128 * 1024 * 1024 * 1024,
        }]
    );
}

#[test]
fn test_parse_snapshots_empty() {
    let lines = vec![];
    let snapshots = parse_snapshots(lines).unwrap();
    assert_eq!(snapshots, vec![]);
}

#[test]
fn test_parse_snapshots_invalid_row() {
    let lines = vec![row(&["unexpected"])];
    let err = parse_snapshots(lines).unwrap_err();
    assert_eq!(err.message(), "list snapshots parse error");
}

#[test]
fn test_parse_snapshots_invalid_date() {
    let lines = vec![row(&[
        "first",
        "2 Oct 2021 9:52AM",
        "3G",
        "at.rollc.at:snapkeep=h24d30w8m6y1",
    ])];
    let err = parse_snapshots(lines).unwrap_err();
    assert_eq!(err.message(), "input contains invalid characters");
}

#[test]
fn test_parse_snapshots_invalid_size() {
    let lines = vec![row(&[
        "first",
        "Sat Oct 2 09:59 2021",
        "13Q",
        "at.rollc.at:snapkeep=h24d30w8m6y1",
    ])];
    let err = parse_snapshots(lines).unwrap_err();
    assert!(matches!(err, ZfsListError::BadSize(_)));
}

#[test]
fn test_parse_snapshots_first_error_wins() {
    let lines = vec![
        row(&["first", "not a date", "13G", "k"]),
        row(&["short"]),
    ];
    let err = parse_snapshots(lines).unwrap_err();
    assert!(matches!(err, ZfsListError::BadDate(_)));
}

#[test]
fn test_parse_used_binary_suffix() {
    // The storage tool prints 13G but means 13GiB.
    assert_eq!(parse_used("13G").unwrap(), 13u128 * 1024 * 1024 * 1024);
    assert_eq!(parse_used("1K").unwrap(), 1024);
    assert_eq!(parse_used("2M").unwrap(), 2 * 1024 * 1024);
}

#[test]
fn test_parse_used_plain_number() {
    assert_eq!(parse_used("500").unwrap(), 500);
    assert_eq!(parse_used("0").unwrap(), 0);
}

#[test]
fn test_parse_used_fractional() {
    assert_eq!(parse_used("1.5K").unwrap(), 1536);
}

#[test]
fn test_parse_used_rejects_garbage() {
    assert!(parse_used("garbage").is_err());
    assert!(parse_used("").is_err());
}

#[test]
fn test_is_snapshot_name() {
    assert!(is_snapshot_name("tank/data@2021-10-02"));
    assert!(!is_snapshot_name("tank/data"));
    assert!(!is_snapshot_name(""));
}

#[test]
fn test_snapshot_name_accepted_by_destroy_guard() {
    let name = snapshot_name("tank/data", "2021-10-02T09:59:00Z");
    assert_eq!(name, "tank/data@2021-10-02T09:59:00Z-autosnap");
    assert!(is_snapshot_name(&name));
}

#[test]
fn test_datasets_to_snapshot_filters_untracked() {
    let rows = vec![
        row(&["tank/a", "h24d30"]),
        row(&["tank/b", "-"]),
        row(&["tank/c", "y1"]),
    ];
    let datasets = datasets_to_snapshot(&rows);
    assert_eq!(datasets, vec!["tank/a".to_string(), "tank/c".to_string()]);
}
