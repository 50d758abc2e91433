//! The fleet-wide aggregator: groups the global snapshot listing by
//! owning dataset and merges the per-dataset engine decisions into one
//! global decision. The property lookup that supplies each dataset's
//! policy string is the caller's: this module takes the strings.

use vstd::prelude::*;
use vstd::string::StrSliceExecFns;
use vstd::string::StringExecFns;

use crate::engine::{spec_check_age, AgeCheckResult};
use crate::policy::{spec_parse, RetentionPolicy};
use crate::zfs::SnapshotMetadata;

verus! {

/// The position of the first `@` in `s` at or after `i`, or the length.
pub open spec fn first_sep(s: Seq<char>, i: int) -> int
    decreases s.len() - i,
{
    if !(0 <= i < s.len()) {
        s.len() as int
    } else if s[i] == '@' {
        i
    } else {
        first_sep(s, i + 1)
    }
}

/// The dataset a snapshot name belongs to: everything before the first
/// `@`, or the whole name if there is none.
pub open spec fn spec_dataset_of(s: Seq<char>) -> Seq<char> {
    s.take(first_sep(s, 0))
}

proof fn lemma_first_sep_at(s: Seq<char>, a: int, j: int)
    requires
        0 <= a <= j <= s.len(),
        forall|k: int| a <= k < j ==> s[k] != '@',
        j < s.len() ==> s[j] == '@',
    ensures
        first_sep(s, a) == j,
    decreases j - a,
{
    if a < j {
        lemma_first_sep_at(s, a + 1, j);
    }
}

/// Extracts the dataset name of a snapshot name.
pub fn dataset_of(name: &str) -> (d: String)
    ensures
        d@ == spec_dataset_of(name@),
{
    let n = name.unicode_len();
    let mut i: usize = 0;
    while i < n && !(name.get_char(i) == '@')
        invariant
            n == name@.len(),
            i <= n,
            forall|k: int| 0 <= k < i ==> name@[k] != '@',
        decreases n - i,
    {
        i += 1;
    }
    proof {
        lemma_first_sep_at(name@, 0, i as int);
    }
    let d = name.substring_char(0, i);
    String::from_str(d)
}

/// One dataset's name and its snapshots, in listing order.
#[derive(Debug)]
pub struct DatasetGroup {
    pub dataset: String,
    pub snapshots: Vec<SnapshotMetadata>,
}

/// A group as its mathematical pair: dataset name and records.
pub open spec fn group_view(g: DatasetGroup) -> (Seq<char>, Seq<SnapshotMetadata>) {
    (g.dataset@, g.snapshots@)
}

/// A group list as its mathematical pairs.
pub open spec fn groups_view(gs: Seq<DatasetGroup>) -> Seq<(Seq<char>, Seq<SnapshotMetadata>)> {
    gs.map_values(|g: DatasetGroup| group_view(g))
}

/// Adds one record to a group list: to its dataset's group where one
/// exists, else as a new group at the end.
pub open spec fn add_to_groups(
    gs: Seq<(Seq<char>, Seq<SnapshotMetadata>)>,
    x: SnapshotMetadata,
) -> Seq<(Seq<char>, Seq<SnapshotMetadata>)>
    decreases gs.len(),
{
    if gs.len() == 0 {
        seq![(spec_dataset_of(x.name@), seq![x])]
    } else if gs[0].0 == spec_dataset_of(x.name@) {
        seq![(gs[0].0, gs[0].1.push(x))] + gs.drop_first()
    } else {
        seq![gs[0]] + add_to_groups(gs.drop_first(), x)
    }
}

/// The records grouped by owning dataset: groups stand in order of first
/// appearance, and each group keeps its records in input order.
pub open spec fn groups_of(s: Seq<SnapshotMetadata>) -> Seq<(Seq<char>, Seq<SnapshotMetadata>)>
    decreases s.len(),
{
    if s.len() == 0 {
        Seq::empty()
    } else {
        add_to_groups(groups_of(s.drop_last()), s.last())
    }
}

/// Adding lands at the first group of the record's dataset, or appends a
/// fresh group when no group matches.
proof fn lemma_add_at(gs: Seq<(Seq<char>, Seq<SnapshotMetadata>)>, x: SnapshotMetadata, j: int)
    requires
        0 <= j <= gs.len(),
        forall|k: int| 0 <= k < j ==> (#[trigger] gs[k]).0 != spec_dataset_of(x.name@),
        j < gs.len() ==> gs[j].0 == spec_dataset_of(x.name@),
    ensures
        add_to_groups(gs, x) == (if j < gs.len() {
            gs.update(j, (gs[j].0, gs[j].1.push(x)))
        } else {
            gs.push((spec_dataset_of(x.name@), seq![x]))
        }),
    decreases gs.len(),
{
    if gs.len() == 0 {
        assert(add_to_groups(gs, x) =~= gs.push((spec_dataset_of(x.name@), seq![x])));
    } else if j == 0 {
        assert(seq![(gs[0].0, gs[0].1.push(x))] + gs.drop_first() =~= gs.update(
            0,
            (gs[0].0, gs[0].1.push(x)),
        ));
    } else {
        lemma_add_at(gs.drop_first(), x, j - 1);
        if j < gs.len() {
            assert(gs.drop_first()[j - 1] == gs[j]);
            assert(seq![gs[0]] + gs.drop_first().update(j - 1, (gs[j].0, gs[j].1.push(x)))
                =~= gs.update(j, (gs[j].0, gs[j].1.push(x))));
        } else {
            assert(seq![gs[0]] + gs.drop_first().push((spec_dataset_of(x.name@), seq![x]))
                =~= gs.push((spec_dataset_of(x.name@), seq![x])));
        }
    }
}

/// Groups the snapshots of a whole fleet by their owning dataset.
pub fn group_by_dataset(snaps: &Vec<SnapshotMetadata>) -> (r: Vec<DatasetGroup>)
    ensures
        groups_view(r@) == groups_of(snaps@),
{
    let mut r: Vec<DatasetGroup> = Vec::new();
    let mut i: usize = 0;
    while i < snaps.len()
        invariant
            i <= snaps@.len(),
            groups_view(r@) == groups_of(snaps@.subrange(0, i as int)),
        decreases snaps@.len() - i,
    {
        let x = snaps[i].clone();
        let ds = dataset_of(x.name.as_str());
        let mut j: usize = 0;
        while j < r.len() && !(r[j].dataset == ds)
            invariant
                j <= r@.len(),
                ds@ == spec_dataset_of(x.name@),
                forall|k: int| 0 <= k < j ==> (#[trigger] r@[k]).dataset@ != ds@,
            decreases r@.len() - j,
        {
            j += 1;
        }
        let ghost old_r = r@;
        proof {
            assert(forall|k: int|
                0 <= k < j ==> (#[trigger] groups_view(old_r)[k]).0 != spec_dataset_of(x.name@));
            lemma_add_at(groups_view(old_r), x, j as int);
        }
        if j < r.len() {
            let mut g = r.remove(j);
            g.snapshots.push(x);
            r.insert(j, g);
            proof {
                assert(groups_view(r@) =~= groups_view(old_r).update(
                    j as int,
                    (groups_view(old_r)[j as int].0, groups_view(old_r)[j as int].1.push(x)),
                ));
            }
        } else {
            let mut v: Vec<SnapshotMetadata> = Vec::new();
            v.push(x);
            r.push(DatasetGroup { dataset: ds, snapshots: v });
            proof {
                assert(seq![x] =~= Seq::<SnapshotMetadata>::empty().push(x));
                assert(groups_view(r@) =~= groups_view(old_r).push(
                    (spec_dataset_of(x.name@), seq![x]),
                ));
            }
        }
        proof {
            assert(snaps@.subrange(0, (i + 1) as int).drop_last() =~= snaps@.subrange(0, i as int));
            assert(snaps@.subrange(0, (i + 1) as int).last() == snaps@[i as int]);
        }
        i += 1;
    }
    proof {
        assert(snaps@.subrange(0, snaps@.len() as int) =~= snaps@);
    }
    r
}

/// The fleet-wide decision, given each group's raw policy string: every
/// group is decided by the engine alone, under its own parsed policy,
/// and the per-group keeps and deletes are concatenated in group order.
pub open spec fn spec_check_all(groups: Seq<DatasetGroup>, policies: Seq<String>) -> (Seq<
    SnapshotMetadata,
>, Seq<SnapshotMetadata>)
    decreases groups.len(),
{
    if groups.len() == 0 {
        (Seq::empty(), Seq::empty())
    } else {
        let head = spec_check_age(spec_parse(policies[0]@), groups[0].snapshots@);
        let rest = spec_check_all(groups.drop_first(), policies.drop_first());
        (head.0 + rest.0, head.1 + rest.1)
    }
}

/// Merges the per-dataset decisions of a grouped fleet, one raw policy
/// string per group, into one global decision.
pub fn check_all(groups: &Vec<DatasetGroup>, policies: &Vec<String>) -> (r: AgeCheckResult)
    requires
        policies@.len() == groups@.len(),
    ensures
        r.keep@ == spec_check_all(groups@, policies@).0,
        r.delete@ == spec_check_all(groups@, policies@).1,
{
    let mut keep: Vec<SnapshotMetadata> = Vec::new();
    let mut delete: Vec<SnapshotMetadata> = Vec::new();
    proof {
        assert(groups@.skip(0) =~= groups@);
        assert(policies@.skip(0) =~= policies@);
        assert(Seq::<SnapshotMetadata>::empty() + spec_check_all(groups@, policies@).0
            =~= spec_check_all(groups@, policies@).0);
        assert(Seq::<SnapshotMetadata>::empty() + spec_check_all(groups@, policies@).1
            =~= spec_check_all(groups@, policies@).1);
    }
    let mut i: usize = 0;
    while i < groups.len()
        invariant
            policies@.len() == groups@.len(),
            i <= groups@.len(),
            spec_check_all(groups@, policies@).0 == keep@ + spec_check_all(
                groups@.skip(i as int),
                policies@.skip(i as int),
            ).0,
            spec_check_all(groups@, policies@).1 == delete@ + spec_check_all(
                groups@.skip(i as int),
                policies@.skip(i as int),
            ).1,
        decreases groups@.len() - i,
    {
        let policy = RetentionPolicy::parse(policies[i].as_str());
        let mut res = policy.check_age(&groups[i].snapshots);
        let ghost keep_prev = keep@;
        let ghost delete_prev = delete@;
        keep.append(&mut res.keep);
        delete.append(&mut res.delete);
        proof {
            let gs = groups@.skip(i as int);
            let ps = policies@.skip(i as int);
            assert(gs[0] == groups@[i as int]);
            assert(ps[0] == policies@[i as int]);
            assert(gs.drop_first() =~= groups@.skip(i + 1));
            assert(ps.drop_first() =~= policies@.skip(i + 1));
            let head = spec_check_age(spec_parse(policies@[i as int]@), groups@[i as int].snapshots@);
            let rest = spec_check_all(groups@.skip(i + 1), policies@.skip(i + 1));
            assert(keep_prev + (head.0 + rest.0) =~= (keep_prev + head.0) + rest.0);
            assert(delete_prev + (head.1 + rest.1) =~= (delete_prev + head.1) + rest.1);
        }
        i += 1;
    }
    proof {
        assert(groups@.skip(groups@.len() as int) =~= Seq::<DatasetGroup>::empty());
        assert(keep@ + Seq::<SnapshotMetadata>::empty() =~= keep@);
        assert(delete@ + Seq::<SnapshotMetadata>::empty() =~= delete@);
    }
    AgeCheckResult { keep, delete }
}

} // verus!
