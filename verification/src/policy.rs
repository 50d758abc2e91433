//! The retention policy: five optional generation counts, and the parser
//! that reads them from a compact specification string.
//!
//! The grammar: the string is scanned left to right; the letters `y`, `m`,
//! `w`, `d`, `h` are rule markers, and the ASCII digits immediately after a
//! marker are that rule's count. A marker with no digits, a count too large
//! for `u32`, and every other character contribute nothing. The last
//! well-formed occurrence of a marker wins. Parsing never fails.

use vstd::prelude::*;
use vstd::string::StrSliceExecFns;

use crate::date::Granularity;

verus! {

/// The number of snapshots to keep for each period; `None` means the
/// granularity retains nothing, exactly as a count of zero does.
#[derive(Debug, PartialEq, Eq, Hash, Clone, Copy)]
pub struct RetentionPolicy {
    pub yearly: Option<u32>,
    pub monthly: Option<u32>,
    pub weekly: Option<u32>,
    pub daily: Option<u32>,
    pub hourly: Option<u32>,
}

pub open spec fn is_digit(c: char) -> bool {
    48 <= c as u32 <= 57
}

pub open spec fn is_marker(c: char) -> bool {
    c == 'y' || c == 'm' || c == 'w' || c == 'd' || c == 'h'
}

/// How many consecutive ASCII digits stand at position `i` of `s`.
pub open spec fn digit_run_len(s: Seq<char>, i: int) -> nat
    decreases s.len() - i,
{
    if 0 <= i < s.len() && is_digit(s[i]) {
        (1 + digit_run_len(s, i + 1)) as nat
    } else {
        0
    }
}

/// The value of the `l` digits of `s` that start at position `i`.
pub open spec fn digits_val(s: Seq<char>, i: int, l: int) -> int
    decreases l,
{
    if l <= 0 {
        0
    } else {
        digits_val(s, i, l - 1) * 10 + (s[i + l - 1] as u32 - 48)
    }
}

/// The policy with the one rule named by marker `c` set to `v`.
pub open spec fn spec_set_field(p: RetentionPolicy, c: char, v: u32) -> RetentionPolicy {
    if c == 'y' {
        RetentionPolicy { yearly: Some(v), ..p }
    } else if c == 'm' {
        RetentionPolicy { monthly: Some(v), ..p }
    } else if c == 'w' {
        RetentionPolicy { weekly: Some(v), ..p }
    } else if c == 'd' {
        RetentionPolicy { daily: Some(v), ..p }
    } else if c == 'h' {
        RetentionPolicy { hourly: Some(v), ..p }
    } else {
        p
    }
}

proof fn lemma_digit_run_len_in_bounds(s: Seq<char>, j: int)
    requires
        0 <= j <= s.len(),
    ensures
        j + digit_run_len(s, j) <= s.len(),
    decreases s.len() - j,
{
    if j < s.len() && is_digit(s[j]) {
        lemma_digit_run_len_in_bounds(s, j + 1);
    }
}

/// The rest of the scan: the policy that results from reading `s` from
/// position `i` onward, starting from the partial result `p`.
pub open spec fn parse_from(s: Seq<char>, i: int, p: RetentionPolicy) -> RetentionPolicy
    decreases s.len() - i,
    via parse_from_decreases
{
    if !(0 <= i < s.len()) {
        p
    } else if is_marker(s[i]) {
        let l = digit_run_len(s, i + 1) as int;
        let p2 = if l > 0 && digits_val(s, i + 1, l) <= u32::MAX {
            spec_set_field(p, s[i], digits_val(s, i + 1, l) as u32)
        } else {
            p
        };
        parse_from(s, i + 1 + l, p2)
    } else {
        parse_from(s, i + 1, p)
    }
}

#[via_fn]
proof fn parse_from_decreases(s: Seq<char>, i: int, p: RetentionPolicy) {
    if 0 <= i < s.len() {
        lemma_digit_run_len_in_bounds(s, i + 1);
    }
}

/// What parsing a whole policy string yields.
pub open spec fn spec_parse(s: Seq<char>) -> RetentionPolicy {
    parse_from(
        s,
        0,
        RetentionPolicy { yearly: None, monthly: None, weekly: None, daily: None, hourly: None },
    )
}

/// The effective count of one rule: an unset rule counts as zero.
pub open spec fn count_of(c: Option<u32>) -> u32 {
    match c {
        Some(n) => n,
        None => 0,
    }
}

/// The five retention rules of a policy in evaluation order: hourly,
/// daily, weekly, monthly, yearly, each with its effective count.
pub open spec fn spec_rules(p: RetentionPolicy) -> Seq<(Granularity, u32)> {
    seq![
        (Granularity::Hourly, count_of(p.hourly)),
        (Granularity::Daily, count_of(p.daily)),
        (Granularity::Weekly, count_of(p.weekly)),
        (Granularity::Monthly, count_of(p.monthly)),
        (Granularity::Yearly, count_of(p.yearly)),
    ]
}

fn is_digit_char(c: char) -> (b: bool)
    ensures
        b == is_digit(c),
{
    let u = c as u32;
    48 <= u && u <= 57
}

fn effective_count(c: Option<u32>) -> (n: u32)
    ensures
        n == count_of(c),
{
    match c {
        Some(n) => n,
        None => 0,
    }
}

fn set_field(p: RetentionPolicy, c: char, v: u32) -> (r: RetentionPolicy)
    ensures
        r == spec_set_field(p, c, v),
{
    match c {
        'y' => RetentionPolicy { yearly: Some(v), ..p },
        'm' => RetentionPolicy { monthly: Some(v), ..p },
        'w' => RetentionPolicy { weekly: Some(v), ..p },
        'd' => RetentionPolicy { daily: Some(v), ..p },
        'h' => RetentionPolicy { hourly: Some(v), ..p },
        _ => p,
    }
}

impl RetentionPolicy {
    /// The policy with every rule unset.
    pub fn unset() -> (p: RetentionPolicy)
        ensures
            p == (RetentionPolicy {
                yearly: None,
                monthly: None,
                weekly: None,
                daily: None,
                hourly: None,
            }),
    {
        RetentionPolicy { yearly: None, monthly: None, weekly: None, daily: None, hourly: None }
    }

    /// Parses a policy specification string. Total: malformed input
    /// degrades to a policy that retains nothing.
    pub fn parse(s: &str) -> (p: RetentionPolicy)
        ensures
            p == spec_parse(s@),
    {
        let n: usize = s.unicode_len();
        let mut p = RetentionPolicy::unset();
        let mut i: usize = 0;
        while i < n
            invariant
                n == s@.len(),
                i <= n,
                spec_parse(s@) == parse_from(s@, i as int, p),
            decreases n - i,
        {
            let c = s.get_char(i);
            if c == 'y' || c == 'm' || c == 'w' || c == 'd' || c == 'h' {
                let ghost p_before = p;
                let mut j: usize = i + 1;
                while j < n && is_digit_char(s.get_char(j))
                    invariant
                        n == s@.len(),
                        i + 1 <= j <= n,
                        forall|k: int| i + 1 <= k < j ==> is_digit(s@[k]),
                    decreases n - j,
                {
                    j += 1;
                }
                proof {
                    lemma_digit_run_exact(s@, (i + 1) as int, j as int);
                }
                let mut val: u32 = 0;
                let mut over = false;
                let mut k: usize = i + 1;
                while k < j
                    invariant
                        n == s@.len(),
                        i + 1 <= k <= j <= n,
                        forall|kk: int| i + 1 <= kk < j ==> is_digit(s@[kk]),
                        !over ==> val == digits_val(s@, i + 1, k - (i + 1)),
                        over ==> digits_val(s@, i + 1, k - (i + 1)) > u32::MAX,
                    decreases j - k,
                {
                    let c2 = s.get_char(k);
                    let d: u32 = c2 as u32 - 48;
                    if !over {
                        if val > (u32::MAX - d) / 10 {
                            over = true;
                        } else {
                            val = val * 10 + d;
                        }
                    } else {
                        proof {
                            assert(digits_val(s@, i + 1, k + 1 - (i + 1)) == digits_val(
                                s@,
                                i + 1,
                                k - (i + 1),
                            ) * 10 + (s@[k as int] as u32 - 48));
                        }
                    }
                    k += 1;
                }
                if !over && j > i + 1 {
                    p = set_field(p, c, val);
                }
                proof {
                    assert(parse_from(s@, i as int, p_before) == parse_from(s@, j as int, p));
                }
                i = j;
            } else {
                proof {
                    assert(parse_from(s@, i as int, p) == parse_from(s@, i + 1, p));
                }
                i += 1;
            }
        }
        p
    }

    /// The five retention rules of this policy, in the order the decision
    /// engine evaluates them.
    pub fn rules(&self) -> (r: Vec<(Granularity, u32)>)
        ensures
            r@ == spec_rules(*self),
    {
        let mut r: Vec<(Granularity, u32)> = Vec::new();
        r.push((Granularity::Hourly, effective_count(self.hourly)));
        r.push((Granularity::Daily, effective_count(self.daily)));
        r.push((Granularity::Weekly, effective_count(self.weekly)));
        r.push((Granularity::Monthly, effective_count(self.monthly)));
        r.push((Granularity::Yearly, effective_count(self.yearly)));
        proof {
            assert(r@ =~= spec_rules(*self));
        }
        r
    }
}

/// After a scan that stopped at the first non-digit, the digit run at `a`
/// is exactly the scanned range.
proof fn lemma_digit_run_exact(s: Seq<char>, a: int, b: int)
    requires
        0 <= a <= b <= s.len(),
        forall|k: int| a <= k < b ==> is_digit(s[k]),
        b == s.len() || !is_digit(s[b]),
    ensures
        digit_run_len(s, a) == b - a,
    decreases b - a,
{
    if a < b {
        lemma_digit_run_exact(s, a + 1, b);
    }
}

impl core::str::FromStr for RetentionPolicy {
    type Err = ();

    fn from_str(x: &str) -> Result<RetentionPolicy, ()> {
        Ok(RetentionPolicy::parse(x))
    }
}

} // verus!
