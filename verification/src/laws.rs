//! Laws of the retention decision engine, stated over the same spec
//! functions its executable contract uses and proved once and for all.

use vstd::prelude::*;

use crate::aggregate::{add_to_groups, groups_of, spec_dataset_of};
use crate::date::{Bucket, Granularity};
use crate::engine::{
    keep_mask, lemma_rule_scan_len, lemma_sort_multiset, masked, masks_after, rule_mask, rule_scan,
    sort_newest_first, spec_check_age,
};
use crate::policy::{count_of, spec_rules, RetentionPolicy};
use crate::zfs::SnapshotMetadata;

verus! {

/// Splitting a sequence by a mask loses nothing and invents nothing: the
/// two halves together carry exactly the records of the sequence.
proof fn lemma_masked_split(s: Seq<SnapshotMetadata>, m: Seq<bool>)
    requires
        m.len() == s.len(),
    ensures
        masked(s, m, true).to_multiset().add(masked(s, m, false).to_multiset())
            =~= s.to_multiset(),
    decreases s.len(),
{
    broadcast use vstd::seq_lib::group_to_multiset_ensures;
    broadcast use vstd::multiset::group_multiset_axioms;

    if s.len() > 0 {
        lemma_masked_split(s.drop_last(), m.drop_last());
        assert(s.drop_last().push(s.last()) =~= s);
    }
}

proof fn lemma_masks_after_len(
    rules: Seq<(Granularity, u32)>,
    s: Seq<SnapshotMetadata>,
    m: Seq<bool>,
)
    requires
        m.len() == s.len(),
    ensures
        masks_after(rules, s, m).len() == m.len(),
    decreases rules.len(),
{
    if rules.len() > 0 {
        lemma_rule_scan_len(rules[0].0, rules[0].1, s, 0, None::<Bucket>, 0, m);
        lemma_masks_after_len(rules.drop_first(), s, rule_mask(rules[0].0, rules[0].1, s, m));
    }
}

/// The keep mask marks one bit per record of the sorted sequence.
pub proof fn lemma_keep_mask_len(p: RetentionPolicy, s: Seq<SnapshotMetadata>)
    ensures
        keep_mask(p, s).len() == s.len(),
{
    lemma_masks_after_len(spec_rules(p), s, Seq::new(s.len(), |k: int| false));
}

/// Law: for every snapshot set and policy, `keep` and `delete` form an
/// exhaustive, disjoint partition of the set — together they carry exactly
/// the input records, and no record stands in both.
pub proof fn lemma_partition(p: RetentionPolicy, s: Seq<SnapshotMetadata>)
    requires
        s.no_duplicates(),
    ensures
        spec_check_age(p, s).0.to_multiset().add(spec_check_age(p, s).1.to_multiset())
            =~= s.to_multiset(),
        forall|x: SnapshotMetadata|
            !(#[trigger] spec_check_age(p, s).0.contains(x) && spec_check_age(
                p,
                s,
            ).1.contains(x)),
{
    broadcast use vstd::seq_lib::group_to_multiset_ensures;
    broadcast use vstd::multiset::group_multiset_axioms;

    let sorted = sort_newest_first(s);
    let m = keep_mask(p, sorted);
    let keep = masked(sorted, m, true);
    let del = masked(sorted, m, false);
    lemma_sort_multiset(s);
    lemma_keep_mask_len(p, sorted);
    lemma_masked_split(sorted, m);
    s.lemma_multiset_has_no_duplicates();
    assert forall|x: SnapshotMetadata|
        !(#[trigger] keep.contains(x) && del.contains(x)) by {
        if keep.contains(x) && del.contains(x) {
            assert(keep.to_multiset().count(x) > 0);
            assert(del.to_multiset().count(x) > 0);
            assert(s.to_multiset().count(x) == keep.to_multiset().count(x) + del.to_multiset()
                .count(x));
            assert(s.to_multiset().contains(x));
            assert(s.to_multiset().count(x) == 1);
        }
    }
}

/// Law: the decision is a pure function of the policy and the records, so
/// evaluating the same pair again yields the identical partition.
pub proof fn lemma_idempotent(
    p1: RetentionPolicy,
    p2: RetentionPolicy,
    s1: Seq<SnapshotMetadata>,
    s2: Seq<SnapshotMetadata>,
)
    requires
        p1 == p2,
        s1 == s2,
    ensures
        spec_check_age(p1, s1) == spec_check_age(p2, s2),
{
}

/// `m2` keeps every record `m1` keeps.
pub open spec fn mask_le(m1: Seq<bool>, m2: Seq<bool>) -> bool {
    &&& m1.len() == m2.len()
    &&& forall|i: int| 0 <= i < m1.len() ==> (m1[i] ==> m2[i])
}

/// A rule scan only ever adds marks to the mask it is given.
proof fn lemma_scan_extends(
    g: Granularity,
    n: u32,
    s: Seq<SnapshotMetadata>,
    i: int,
    last: Option<Bucket>,
    cnt: u32,
    m: Seq<bool>,
)
    requires
        m.len() == s.len(),
    ensures
        mask_le(m, rule_scan(g, n, s, i, last, cnt, m)),
    decreases s.len() - i,
{
    if 0 <= i < s.len() && cnt < n {
        let b = crate::date::spec_bucket_of(g, s[i].created);
        if last != Some(b) {
            lemma_scan_extends(g, n, s, i + 1, Some(b), (cnt + 1) as u32, m.update(i, true));
        } else {
            lemma_scan_extends(g, n, s, i + 1, last, cnt, m);
        }
    }
}

/// A rule scan started on a larger mask ends on a larger mask: its
/// decisions never read the mask, only the buckets and its own counter.
proof fn lemma_scan_mono_mask(
    g: Granularity,
    n: u32,
    s: Seq<SnapshotMetadata>,
    i: int,
    last: Option<Bucket>,
    cnt: u32,
    m1: Seq<bool>,
    m2: Seq<bool>,
)
    requires
        m1.len() == s.len(),
        mask_le(m1, m2),
    ensures
        mask_le(rule_scan(g, n, s, i, last, cnt, m1), rule_scan(g, n, s, i, last, cnt, m2)),
    decreases s.len() - i,
{
    if 0 <= i < s.len() && cnt < n {
        let b = crate::date::spec_bucket_of(g, s[i].created);
        if last != Some(b) {
            lemma_scan_mono_mask(
                g,
                n,
                s,
                i + 1,
                Some(b),
                (cnt + 1) as u32,
                m1.update(i, true),
                m2.update(i, true),
            );
        } else {
            lemma_scan_mono_mask(g, n, s, i + 1, last, cnt, m1, m2);
        }
    }
}

/// Raising a rule's count only adds marks: the scan with the larger count
/// walks the same bucket sequence and keeps marking after the smaller one
/// has stopped.
proof fn lemma_scan_mono_n(
    g: Granularity,
    n1: u32,
    n2: u32,
    s: Seq<SnapshotMetadata>,
    i: int,
    last: Option<Bucket>,
    cnt: u32,
    m: Seq<bool>,
)
    requires
        n1 <= n2,
        m.len() == s.len(),
    ensures
        mask_le(rule_scan(g, n1, s, i, last, cnt, m), rule_scan(g, n2, s, i, last, cnt, m)),
    decreases s.len() - i,
{
    if cnt >= n1 {
        lemma_scan_extends(g, n2, s, i, last, cnt, m);
    } else if 0 <= i < s.len() {
        let b = crate::date::spec_bucket_of(g, s[i].created);
        if last != Some(b) {
            lemma_scan_mono_n(g, n1, n2, s, i + 1, Some(b), (cnt + 1) as u32, m.update(i, true));
        } else {
            lemma_scan_mono_n(g, n1, n2, s, i + 1, last, cnt, m);
        }
    }
}

/// Rule lists of equal granularities with pointwise larger counts build
/// pointwise larger masks.
proof fn lemma_masks_after_mono(
    rules1: Seq<(Granularity, u32)>,
    rules2: Seq<(Granularity, u32)>,
    s: Seq<SnapshotMetadata>,
    m1: Seq<bool>,
    m2: Seq<bool>,
)
    requires
        rules1.len() == rules2.len(),
        forall|i: int|
            0 <= i < rules1.len() ==> (#[trigger] rules1[i]).0 == (#[trigger] rules2[i]).0
                && rules1[i].1 <= rules2[i].1,
        m1.len() == s.len(),
        mask_le(m1, m2),
    ensures
        mask_le(masks_after(rules1, s, m1), masks_after(rules2, s, m2)),
    decreases rules1.len(),
{
    if rules1.len() > 0 {
        let g = rules1[0].0;
        let n1 = rules1[0].1;
        let n2 = rules2[0].1;
        lemma_scan_mono_mask(g, n1, s, 0, None::<Bucket>, 0, m1, m2);
        lemma_scan_mono_n(g, n1, n2, s, 0, None::<Bucket>, 0, m2);
        lemma_rule_scan_len(g, n1, s, 0, None::<Bucket>, 0, m1);
        assert(mask_le(rule_mask(g, n1, s, m1), rule_mask(g, n2, s, m2)));
        lemma_masks_after_mono(
            rules1.drop_first(),
            rules2.drop_first(),
            s,
            rule_mask(g, n1, s, m1),
            rule_mask(g, n2, s, m2),
        );
    }
}

/// Membership in a pushed sequence: the new element, or one of the old.
proof fn lemma_push_contains(q: Seq<SnapshotMetadata>, a: SnapshotMetadata, x: SnapshotMetadata)
    ensures
        q.push(a).contains(x) <==> q.contains(x) || x == a,
{
    if q.push(a).contains(x) && x != a {
        let i = choose|i: int| 0 <= i < q.push(a).len() && q.push(a)[i] == x;
        assert(q[i] == x);
    }
    if q.contains(x) {
        let i = choose|i: int| 0 <= i < q.len() && q[i] == x;
        assert(q.push(a)[i] == x);
    }
    if x == a {
        assert(q.push(a)[q.len() as int] == x);
    }
}

/// A larger mask keeps more and deletes less.
proof fn lemma_masked_mono(s: Seq<SnapshotMetadata>, m1: Seq<bool>, m2: Seq<bool>)
    requires
        m1.len() == s.len(),
        mask_le(m1, m2),
    ensures
        forall|x: SnapshotMetadata| #[trigger]
            masked(s, m1, true).contains(x) ==> masked(s, m2, true).contains(x),
        forall|x: SnapshotMetadata| #[trigger]
            masked(s, m2, false).contains(x) ==> masked(s, m1, false).contains(x),
    decreases s.len(),
{
    if s.len() > 0 {
        lemma_masked_mono(s.drop_last(), m1.drop_last(), m2.drop_last());
        let last = s.last();
        let r1t = masked(s.drop_last(), m1.drop_last(), true);
        let r2t = masked(s.drop_last(), m2.drop_last(), true);
        let r1f = masked(s.drop_last(), m1.drop_last(), false);
        let r2f = masked(s.drop_last(), m2.drop_last(), false);
        assert forall|x: SnapshotMetadata| #[trigger]
            masked(s, m1, true).contains(x) implies masked(s, m2, true).contains(x) by {
            lemma_push_contains(r1t, last, x);
            lemma_push_contains(r2t, last, x);
            if m1[s.len() - 1] {
                assert(m2[s.len() - 1]);
                assert(masked(s, m1, true) == r1t.push(last));
                assert(masked(s, m2, true) == r2t.push(last));
            } else {
                assert(masked(s, m1, true) == r1t);
            }
        }
        assert forall|x: SnapshotMetadata| #[trigger]
            masked(s, m2, false).contains(x) implies masked(s, m1, false).contains(x) by {
            lemma_push_contains(r1f, last, x);
            lemma_push_contains(r2f, last, x);
            if !m2[s.len() - 1] {
                assert(!m1[s.len() - 1]);
                assert(masked(s, m1, false) == r1f.push(last));
                assert(masked(s, m2, false) == r2f.push(last));
            } else {
                assert(masked(s, m2, false) == r2f);
            }
        }
    }
}

/// Law: increasing rule counts while keeping the granularities can only
/// move records from `delete` to `keep`, never the reverse. Increasing a
/// single rule's count and holding the rest fixed is the special case.
pub proof fn lemma_monotonic(p1: RetentionPolicy, p2: RetentionPolicy, s: Seq<SnapshotMetadata>)
    requires
        count_of(p1.hourly) <= count_of(p2.hourly),
        count_of(p1.daily) <= count_of(p2.daily),
        count_of(p1.weekly) <= count_of(p2.weekly),
        count_of(p1.monthly) <= count_of(p2.monthly),
        count_of(p1.yearly) <= count_of(p2.yearly),
    ensures
        forall|x: SnapshotMetadata| #[trigger]
            spec_check_age(p1, s).0.contains(x) ==> spec_check_age(p2, s).0.contains(x),
        forall|x: SnapshotMetadata| #[trigger]
            spec_check_age(p2, s).1.contains(x) ==> spec_check_age(p1, s).1.contains(x),
{
    let sorted = sort_newest_first(s);
    let m0 = Seq::new(sorted.len(), |k: int| false);
    lemma_masks_after_mono(spec_rules(p1), spec_rules(p2), sorted, m0, m0);
    lemma_keep_mask_len(p1, sorted);
    lemma_masked_mono(sorted, keep_mask(p1, sorted), keep_mask(p2, sorted));
}

/// Law: a rule count set to zero and an unset rule give the same
/// partition — the engine reads each rule only through its effective
/// count, and both mean "this granularity retains nothing".
pub proof fn lemma_zero_unset(p1: RetentionPolicy, p2: RetentionPolicy, s: Seq<SnapshotMetadata>)
    requires
        count_of(p1.hourly) == count_of(p2.hourly),
        count_of(p1.daily) == count_of(p2.daily),
        count_of(p1.weekly) == count_of(p2.weekly),
        count_of(p1.monthly) == count_of(p2.monthly),
        count_of(p1.yearly) == count_of(p2.yearly),
    ensures
        spec_check_age(p1, s) == spec_check_age(p2, s),
{
    assert(spec_rules(p1) =~= spec_rules(p2));
}

/// The records of one dataset, in input order.
pub open spec fn dataset_records(s: Seq<SnapshotMetadata>, ds: Seq<char>) -> Seq<SnapshotMetadata>
    decreases s.len(),
{
    if s.len() == 0 {
        Seq::empty()
    } else {
        let rest = dataset_records(s.drop_last(), ds);
        if spec_dataset_of(s.last().name@) == ds {
            rest.push(s.last())
        } else {
            rest
        }
    }
}

/// The records of dataset `ds` in a group list: those of its first
/// group, or nothing where no group matches.
pub open spec fn group_lookup(
    gs: Seq<(Seq<char>, Seq<SnapshotMetadata>)>,
    ds: Seq<char>,
) -> Option<Seq<SnapshotMetadata>>
    decreases gs.len(),
{
    if gs.len() == 0 {
        None
    } else if gs[0].0 == ds {
        Some(gs[0].1)
    } else {
        group_lookup(gs.drop_first(), ds)
    }
}

/// Adding a record touches exactly its own dataset's group.
proof fn lemma_add_lookup(
    gs: Seq<(Seq<char>, Seq<SnapshotMetadata>)>,
    x: SnapshotMetadata,
    ds: Seq<char>,
)
    ensures
        group_lookup(add_to_groups(gs, x), ds) == (if ds == spec_dataset_of(x.name@) {
            Some(
                match group_lookup(gs, ds) {
                    Some(g) => g.push(x),
                    None => seq![x],
                },
            )
        } else {
            group_lookup(gs, ds)
        }),
    decreases gs.len(),
{
    let dsx = spec_dataset_of(x.name@);
    if gs.len() == 0 {
        let gs2 = seq![(dsx, seq![x])];
        assert(add_to_groups(gs, x) == gs2);
        assert(gs2[0] == (dsx, seq![x]));
        assert(gs2.drop_first() =~= Seq::<(Seq<char>, Seq<SnapshotMetadata>)>::empty());
        assert(group_lookup(gs, ds) is None);
        if ds == dsx {
            assert(group_lookup(gs2, ds) == Some(seq![x]));
        } else {
            assert(group_lookup(gs2, ds) == group_lookup(gs2.drop_first(), ds));
            assert(group_lookup(gs2.drop_first(), ds) is None);
        }
    } else if gs[0].0 == dsx {
        let gs2 = seq![(gs[0].0, gs[0].1.push(x))] + gs.drop_first();
        assert(add_to_groups(gs, x) == gs2);
        assert(gs2[0] == (gs[0].0, gs[0].1.push(x)));
        assert(gs2.drop_first() =~= gs.drop_first());
        if ds == dsx {
            assert(group_lookup(gs2, ds) == Some(gs[0].1.push(x)));
            assert(group_lookup(gs, ds) == Some(gs[0].1));
        } else {
            assert(group_lookup(gs2, ds) == group_lookup(gs.drop_first(), ds));
            assert(group_lookup(gs, ds) == group_lookup(gs.drop_first(), ds));
        }
    } else {
        lemma_add_lookup(gs.drop_first(), x, ds);
        let gs2 = seq![gs[0]] + add_to_groups(gs.drop_first(), x);
        assert(add_to_groups(gs, x) == gs2);
        assert(gs2[0] == gs[0]);
        assert(gs2.drop_first() =~= add_to_groups(gs.drop_first(), x));
        if ds == gs[0].0 {
            assert(group_lookup(gs2, ds) == Some(gs[0].1));
            assert(group_lookup(gs, ds) == Some(gs[0].1));
        } else {
            assert(group_lookup(gs2, ds) == group_lookup(add_to_groups(gs.drop_first(), x), ds));
            assert(group_lookup(gs, ds) == group_lookup(gs.drop_first(), ds));
        }
    }
}

/// Law-support: grouping collects, for each dataset, exactly that
/// dataset's records, in input order; a dataset without records gets no
/// group.
pub proof fn lemma_groups_collect(s: Seq<SnapshotMetadata>, ds: Seq<char>)
    ensures
        group_lookup(groups_of(s), ds) == (if dataset_records(s, ds).len() > 0 {
            Some(dataset_records(s, ds))
        } else {
            None::<Seq<SnapshotMetadata>>
        }),
    decreases s.len(),
{
    if s.len() > 0 {
        lemma_groups_collect(s.drop_last(), ds);
        lemma_add_lookup(groups_of(s.drop_last()), s.last(), ds);
    }
}

/// Law: one dataset's keep/delete outcome depends on its own records and
/// policy alone. Two fleets that agree on a dataset's records give it the
/// same group, and the engine — which each group passes through by itself
/// — then gives it the same partition under its policy; other datasets'
/// interleaved snapshots never cross-influence it.
pub proof fn lemma_dataset_isolation(
    s1: Seq<SnapshotMetadata>,
    s2: Seq<SnapshotMetadata>,
    ds: Seq<char>,
    p: RetentionPolicy,
)
    requires
        dataset_records(s1, ds) == dataset_records(s2, ds),
    ensures
        group_lookup(groups_of(s1), ds) == group_lookup(groups_of(s2), ds),
        group_lookup(groups_of(s1), ds) matches Some(g) ==> spec_check_age(p, g)
            == spec_check_age(p, dataset_records(s1, ds)),
{
    lemma_groups_collect(s1, ds);
    lemma_groups_collect(s2, ds);
}

} // verus!
