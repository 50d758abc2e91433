use zfs_autosnap::aggregate::{check_all, dataset_of, group_by_dataset};
use zfs_autosnap::date::DateTime;
use zfs_autosnap::zfs::SnapshotMetadata;
use zfs_autosnap::RetentionPolicy;

fn snap(name: &str, year: u16, month: u8, day: u8, hour: u8, minute: u8) -> SnapshotMetadata {
    SnapshotMetadata {
        name: name.to_string(),
        created: DateTime { year, month, day, hour, minute, second: 0 },
        used: 1024,
    }
}

fn names(records: &[SnapshotMetadata]) -> Vec<String> {
    records.iter().map(|r| r.name.clone()).collect()
}

#[test]
fn test_dataset_of_prefix() {
    assert_eq!(dataset_of("tank/a@2021-10-02"), "tank/a");
    assert_eq!(dataset_of("tank/a"), "tank/a");
    assert_eq!(dataset_of("@bare"), "");
}

#[test]
fn test_group_by_dataset_first_appearance_order() {
    let v = vec![
        snap("tank/a@1", 2021, 10, 2, 0, 10),
        snap("tank/b@1", 2021, 10, 2, 0, 40),
        snap("tank/a@2", 2021, 10, 3, 2, 0),
        snap("tank/b@2", 2021, 10, 3, 1, 0),
    ];
    let groups = group_by_dataset(&v);
    assert_eq!(groups.len(), 2);
    assert_eq!(groups[0].dataset, "tank/a");
    assert_eq!(names(&groups[0].snapshots), vec!["tank/a@1", "tank/a@2"]);
    assert_eq!(groups[1].dataset, "tank/b");
    assert_eq!(names(&groups[1].snapshots), vec!["tank/b@1", "tank/b@2"]);
}

#[test]
fn test_multi_dataset_isolation() {
    // The aggregator on the combined, interleaved fleet gives each
    // dataset exactly what the engine gives it alone.
    let combined = vec![
        snap("tank/a@1", 2021, 10, 2, 0, 10),
        snap("tank/b@1", 2021, 10, 2, 0, 40),
        snap("tank/a@2", 2021, 10, 3, 2, 0),
        snap("tank/b@2", 2021, 10, 3, 1, 0),
    ];
    let groups = group_by_dataset(&combined);
    let mut policies: Vec<String> = Vec::new();
    for g in &groups {
        if g.dataset == "tank/a" {
            policies.push("h1".to_string());
        } else {
            policies.push("h24".to_string());
        }
    }
    let merged = check_all(&groups, &policies);

    let only_a = vec![snap("tank/a@1", 2021, 10, 2, 0, 10), snap("tank/a@2", 2021, 10, 3, 2, 0)];
    let only_b = vec![snap("tank/b@1", 2021, 10, 2, 0, 40), snap("tank/b@2", 2021, 10, 3, 1, 0)];
    let a_alone = RetentionPolicy::parse("h1").check_age(&only_a);
    let b_alone = RetentionPolicy::parse("h24").check_age(&only_b);

    let mut expected_keep = a_alone.keep;
    expected_keep.extend(b_alone.keep);
    let mut expected_delete = a_alone.delete;
    expected_delete.extend(b_alone.delete);
    assert_eq!(merged.keep, expected_keep);
    assert_eq!(merged.delete, expected_delete);
}

#[test]
fn test_check_all_empty_fleet() {
    let groups = group_by_dataset(&vec![]);
    let policies: Vec<String> = Vec::new();
    let merged = check_all(&groups, &policies);
    assert!(merged.keep.is_empty());
    assert!(merged.delete.is_empty());
}
