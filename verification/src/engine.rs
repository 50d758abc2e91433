//! The retention decision engine: sorts one dataset's snapshots newest
//! first, marks the snapshots each rule keeps, and splits the dataset into
//! an exhaustive, disjoint keep/delete partition.

use vstd::prelude::*;

use crate::date::{bucket_of, spec_bucket_of, spec_time_key, time_key, Bucket, Granularity};
use crate::policy::{spec_rules, RetentionPolicy};
use crate::zfs::SnapshotMetadata;

verus! {

/// The decision for one set of snapshots: every input record lands in
/// exactly one of the two sequences.
#[derive(Debug)]
pub struct AgeCheckResult {
    pub keep: Vec<SnapshotMetadata>,
    pub delete: Vec<SnapshotMetadata>,
}

/// Newest first and, among equal creation times, input order kept.
pub open spec fn sorted_newest_first(s: Seq<SnapshotMetadata>) -> bool {
    forall|i: int, j: int|
        0 <= i <= j < s.len() ==> spec_time_key(s[i].created) >= spec_time_key(s[j].created)
}

/// Stable insertion into a newest-first sequence: `x` goes after every
/// element at least as new as itself.
pub open spec fn insert_newest_first(s: Seq<SnapshotMetadata>, x: SnapshotMetadata) -> Seq<
    SnapshotMetadata,
>
    decreases s.len(),
{
    if s.len() > 0 && spec_time_key(s.last().created) < spec_time_key(x.created) {
        insert_newest_first(s.drop_last(), x).push(s.last())
    } else {
        s.push(x)
    }
}

/// Stable sort of the records, newest creation time first.
pub open spec fn sort_newest_first(s: Seq<SnapshotMetadata>) -> Seq<SnapshotMetadata>
    decreases s.len(),
{
    if s.len() == 0 {
        Seq::empty()
    } else {
        insert_newest_first(sort_newest_first(s.drop_last()), s.last())
    }
}

/// Inserting at the first position whose key is strictly older lands
/// exactly where `insert_newest_first` puts the element.
proof fn lemma_insert_at(s: Seq<SnapshotMetadata>, x: SnapshotMetadata, j: int)
    requires
        sorted_newest_first(s),
        0 <= j <= s.len(),
        forall|k: int| 0 <= k < j ==> spec_time_key(s[k].created) >= spec_time_key(x.created),
        j < s.len() ==> spec_time_key(s[j].created) < spec_time_key(x.created),
    ensures
        insert_newest_first(s, x) == s.insert(j, x),
    decreases s.len(),
{
    if j == s.len() {
        assert(insert_newest_first(s, x) =~= s.insert(j, x));
    } else {
        assert(spec_time_key(s.last().created) < spec_time_key(x.created));
        lemma_insert_at(s.drop_last(), x, j);
        assert(insert_newest_first(s.drop_last(), x).push(s.last()) =~= s.insert(j, x));
    }
}

/// Insertion adds the element to the sequence's multiset and keeps length.
proof fn lemma_insert_multiset(s: Seq<SnapshotMetadata>, x: SnapshotMetadata)
    ensures
        insert_newest_first(s, x).to_multiset() =~= s.to_multiset().insert(x),
        insert_newest_first(s, x).len() == s.len() + 1,
    decreases s.len(),
{
    broadcast use vstd::seq_lib::group_to_multiset_ensures;

    if s.len() > 0 && spec_time_key(s.last().created) < spec_time_key(x.created) {
        lemma_insert_multiset(s.drop_last(), x);
        assert(s.drop_last().push(s.last()) =~= s);
    }
}

/// Sorting preserves the multiset of records, and hence the length.
pub proof fn lemma_sort_multiset(s: Seq<SnapshotMetadata>)
    ensures
        sort_newest_first(s).to_multiset() =~= s.to_multiset(),
        sort_newest_first(s).len() == s.len(),
    decreases s.len(),
{
    broadcast use vstd::seq_lib::group_to_multiset_ensures;

    if s.len() > 0 {
        lemma_sort_multiset(s.drop_last());
        lemma_insert_multiset(sort_newest_first(s.drop_last()), s.last());
        assert(s.drop_last().push(s.last()) =~= s);
    }
}

/// Sorts the records newest first with a stable insertion sort.
fn sorted_by_creation(v: &Vec<SnapshotMetadata>) -> (r: Vec<SnapshotMetadata>)
    ensures
        r@ == sort_newest_first(v@),
        sorted_newest_first(r@),
{
    let mut r: Vec<SnapshotMetadata> = Vec::new();
    let mut i: usize = 0;
    while i < v.len()
        invariant
            i <= v@.len(),
            r@ == sort_newest_first(v@.subrange(0, i as int)),
            sorted_newest_first(r@),
        decreases v@.len() - i,
    {
        let x = v[i].clone();
        let key_x = time_key(&x.created);
        let mut j: usize = 0;
        while j < r.len() && time_key(&r[j].created) >= key_x
            invariant
                j <= r@.len(),
                key_x == spec_time_key(x.created),
                forall|k: int|
                    0 <= k < j ==> spec_time_key(r@[k].created) >= spec_time_key(x.created),
            decreases r@.len() - j,
        {
            j += 1;
        }
        let ghost old_r = r@;
        proof {
            lemma_insert_at(old_r, x, j as int);
            assert(v@.subrange(0, (i + 1) as int).drop_last() =~= v@.subrange(0, i as int));
            assert(v@.subrange(0, (i + 1) as int).last() == v@[i as int]);
        }
        r.insert(j, x);
        proof {
            old_r.insert_ensures(j as int, x);
            assert forall|a: int, b: int| 0 <= a <= b < r@.len() implies spec_time_key(
                r@[a].created,
            ) >= spec_time_key(r@[b].created) by {
                if a < j && b > j {
                    assert(r@[a] == old_r[a]);
                    assert(r@[b] == old_r[b - 1]);
                }
            }
        }
        i += 1;
    }
    proof {
        assert(v@.subrange(0, v@.len() as int) =~= v@);
    }
    r
}

/// One rule's scan from position `i`: `last` is the bucket of the record
/// most recently accepted, `cnt` how many this rule has accepted, and `m`
/// the keep mask built so far. The scan stops once `cnt` reaches `n`.
pub open spec fn rule_scan(
    g: Granularity,
    n: u32,
    s: Seq<SnapshotMetadata>,
    i: int,
    last: Option<Bucket>,
    cnt: u32,
    m: Seq<bool>,
) -> Seq<bool>
    decreases s.len() - i,
{
    if !(0 <= i < s.len()) || cnt >= n {
        m
    } else {
        let b = spec_bucket_of(g, s[i].created);
        if last != Some(b) {
            rule_scan(g, n, s, i + 1, Some(b), (cnt + 1) as u32, m.update(i, true))
        } else {
            rule_scan(g, n, s, i + 1, last, cnt, m)
        }
    }
}

/// The keep mask after one rule runs over the whole sorted sequence.
pub open spec fn rule_mask(g: Granularity, n: u32, s: Seq<SnapshotMetadata>, m: Seq<bool>) -> Seq<
    bool,
> {
    rule_scan(g, n, s, 0, None, 0, m)
}

/// The keep mask after a list of rules runs, each over the whole sequence,
/// in list order.
pub open spec fn masks_after(
    rules: Seq<(Granularity, u32)>,
    s: Seq<SnapshotMetadata>,
    m: Seq<bool>,
) -> Seq<bool>
    decreases rules.len(),
{
    if rules.len() == 0 {
        m
    } else {
        masks_after(rules.drop_first(), s, rule_mask(rules[0].0, rules[0].1, s, m))
    }
}

/// The keep mask of a policy over a sorted sequence: all five rules run in
/// evaluation order, starting from an all-false mask.
pub open spec fn keep_mask(p: RetentionPolicy, s: Seq<SnapshotMetadata>) -> Seq<bool> {
    masks_after(spec_rules(p), s, Seq::new(s.len(), |k: int| false))
}

/// The records whose mask entry equals `keep`, in sequence order.
pub open spec fn masked(s: Seq<SnapshotMetadata>, m: Seq<bool>, keep: bool) -> Seq<
    SnapshotMetadata,
>
    recommends
        m.len() == s.len(),
    decreases s.len(),
{
    if s.len() == 0 {
        Seq::empty()
    } else {
        let rest = masked(s.drop_last(), m.drop_last(), keep);
        if m[s.len() - 1] == keep {
            rest.push(s.last())
        } else {
            rest
        }
    }
}

/// The whole decision: sort newest first, run the five rules, and split
/// the sorted records into the kept ones and the deleted ones.
pub open spec fn spec_check_age(p: RetentionPolicy, s: Seq<SnapshotMetadata>) -> (Seq<
    SnapshotMetadata,
>, Seq<SnapshotMetadata>) {
    let sorted = sort_newest_first(s);
    let m = keep_mask(p, sorted);
    (masked(sorted, m, true), masked(sorted, m, false))
}

/// The scan changes nothing but mask entries, so it keeps the length.
pub proof fn lemma_rule_scan_len(
    g: Granularity,
    n: u32,
    s: Seq<SnapshotMetadata>,
    i: int,
    last: Option<Bucket>,
    cnt: u32,
    m: Seq<bool>,
)
    requires
        m.len() == s.len(),
    ensures
        rule_scan(g, n, s, i, last, cnt, m).len() == m.len(),
    decreases s.len() - i,
{
    if 0 <= i < s.len() && cnt < n {
        let b = spec_bucket_of(g, s[i].created);
        if last != Some(b) {
            lemma_rule_scan_len(g, n, s, i + 1, Some(b), (cnt + 1) as u32, m.update(i, true));
        } else {
            lemma_rule_scan_len(g, n, s, i + 1, last, cnt, m);
        }
    }
}

/// Runs one rule over the sorted records, marking in `mask` the newest
/// record of each of the `n` most recent distinct period buckets.
fn apply_rule(g: Granularity, n: u32, sorted: &Vec<SnapshotMetadata>, mask: &mut Vec<bool>)
    requires
        old(mask)@.len() == sorted@.len(),
    ensures
        final(mask)@ == rule_mask(g, n, sorted@, old(mask)@),
        final(mask)@.len() == old(mask)@.len(),
{
    proof {
        lemma_rule_scan_len(g, n, sorted@, 0, None::<Bucket>, 0, old(mask)@);
    }
    let mut last_b: Option<Bucket> = None;
    let mut cnt: u32 = 0;
    let mut i: usize = 0;
    while i < sorted.len() && cnt < n
        invariant
            sorted@.len() == mask@.len(),
            i <= sorted@.len(),
            cnt <= n,
            rule_mask(g, n, sorted@, old(mask)@) == rule_scan(
                g,
                n,
                sorted@,
                i as int,
                last_b,
                cnt,
                mask@,
            ),
        decreases sorted@.len() - i,
    {
        let b = bucket_of(g, &sorted[i].created);
        let same = match last_b {
            Some(lb) => lb == b,
            None => false,
        };
        let ghost last_prev = last_b;
        let ghost cnt_prev = cnt;
        let ghost m_prev = mask@;
        if !same {
            mask.set(i, true);
            last_b = Some(b);
            cnt = cnt + 1;
            proof {
                assert(rule_scan(g, n, sorted@, i as int, last_prev, cnt_prev, m_prev)
                    == rule_scan(g, n, sorted@, i + 1, last_b, cnt, mask@));
            }
        } else {
            proof {
                assert(rule_scan(g, n, sorted@, i as int, last_prev, cnt_prev, m_prev)
                    == rule_scan(g, n, sorted@, i + 1, last_b, cnt, mask@));
            }
        }
        i += 1;
    }
}

impl RetentionPolicy {
    /// Decides which of one dataset's snapshots to keep and which to
    /// delete. The result is the keep/delete partition of the records
    /// sorted newest first: a record is kept exactly when some rule of
    /// this policy accepts it as the newest representative of one of its
    /// `n` most recent distinct period buckets.
    pub fn check_age(&self, snapshots: &Vec<SnapshotMetadata>) -> (r: AgeCheckResult)
        ensures
            r.keep@ == spec_check_age(*self, snapshots@).0,
            r.delete@ == spec_check_age(*self, snapshots@).1,
    {
        let sorted = sorted_by_creation(snapshots);
        let mut mask: Vec<bool> = Vec::new();
        let mut i: usize = 0;
        while i < sorted.len()
            invariant
                i <= sorted@.len(),
                mask@.len() == i,
                forall|k: int| 0 <= k < i ==> mask@[k] == false,
            decreases sorted@.len() - i,
        {
            mask.push(false);
            i += 1;
        }
        proof {
            assert(mask@ =~= Seq::new(sorted@.len(), |k: int| false));
        }
        let ghost m0 = mask@;
        let rules = self.rules();
        proof {
            assert(spec_rules(*self).skip(0) =~= spec_rules(*self));
        }
        let mut ri: usize = 0;
        while ri < rules.len()
            invariant
                rules@ == spec_rules(*self),
                ri <= rules@.len(),
                mask@.len() == sorted@.len(),
                masks_after(spec_rules(*self), sorted@, m0) == masks_after(
                    spec_rules(*self).skip(ri as int),
                    sorted@,
                    mask@,
                ),
            decreases rules@.len() - ri,
        {
            let (g, n) = rules[ri];
            let ghost m_prev = mask@;
            apply_rule(g, n, &sorted, &mut mask);
            proof {
                let rs = spec_rules(*self);
                assert(rs.skip(ri as int).drop_first() =~= rs.skip(ri + 1));
                assert(rs.skip(ri as int)[0] == rs[ri as int]);
                assert(masks_after(rs.skip(ri as int), sorted@, m_prev) == masks_after(
                    rs.skip(ri + 1),
                    sorted@,
                    mask@,
                ));
            }
            ri += 1;
        }
        proof {
            assert(spec_rules(*self).skip(rules@.len() as int) =~= Seq::<(
                Granularity,
                u32,
            )>::empty());
            assert(mask@ == keep_mask(*self, sorted@));
        }
        let mut keep: Vec<SnapshotMetadata> = Vec::new();
        let mut delete: Vec<SnapshotMetadata> = Vec::new();
        let mut k: usize = 0;
        while k < sorted.len()
            invariant
                k <= sorted@.len(),
                mask@.len() == sorted@.len(),
                keep@ == masked(sorted@.subrange(0, k as int), mask@.subrange(0, k as int), true),
                delete@ == masked(
                    sorted@.subrange(0, k as int),
                    mask@.subrange(0, k as int),
                    false,
                ),
            decreases sorted@.len() - k,
        {
            let x = sorted[k].clone();
            if mask[k] {
                keep.push(x);
            } else {
                delete.push(x);
            }
            proof {
                assert(sorted@.subrange(0, k + 1).drop_last() =~= sorted@.subrange(0, k as int));
                assert(mask@.subrange(0, k + 1).drop_last() =~= mask@.subrange(0, k as int));
                assert(sorted@.subrange(0, k + 1).last() == sorted@[k as int]);
            }
            k += 1;
        }
        proof {
            assert(sorted@.subrange(0, sorted@.len() as int) =~= sorted@);
            assert(mask@.subrange(0, mask@.len() as int) =~= mask@);
        }
        AgeCheckResult { keep, delete }
    }
}

} // verus!
