//! Calendar timestamps as plain fields, a total order on them, and the
//! coarse period buckets each retention granularity maps a timestamp to.

use vstd::prelude::*;

verus! {

/// A snapshot creation time, held as plain UTC calendar fields.
#[derive(Clone, Copy, Debug, PartialEq, Eq, Hash, Structural)]
pub struct DateTime {
    pub year: u16,
    pub month: u8,
    pub day: u8,
    pub hour: u8,
    pub minute: u8,
    pub second: u8,
}

impl DateTime {
    /// Field ranges every well-formed creation time satisfies.
    pub open spec fn wf(self) -> bool {
        &&& 1 <= self.year
        &&& 1 <= self.month <= 12
        &&& 1 <= self.day <= 31
        &&& self.hour < 24
        &&& self.minute < 60
        &&& self.second < 60
    }
}

/// A mixed-radix encoding of the calendar fields. Later timestamps get
/// strictly larger keys, so comparing keys compares creation times.
pub open spec fn spec_time_key(t: DateTime) -> int {
    ((((t.year * 16 + t.month) * 32 + t.day) * 32 + t.hour) * 64 + t.minute) * 64 + t.second
}

/// Computes the ordering key of a timestamp.
pub fn time_key(t: &DateTime) -> (k: u64)
    ensures
        k == spec_time_key(*t),
{
    (((((t.year as u64) * 16 + (t.month as u64)) * 32 + (t.day as u64)) * 32 + (t.hour as u64))
        * 64 + (t.minute as u64)) * 64 + (t.second as u64)
}

/// Sakamoto's anchor value for each month (1 through 12).
pub open spec fn month_anchor(m: int) -> int {
    if m == 1 {
        0
    } else if m == 2 {
        3
    } else if m == 3 {
        2
    } else if m == 4 {
        5
    } else if m == 5 {
        0
    } else if m == 6 {
        3
    } else if m == 7 {
        5
    } else if m == 8 {
        1
    } else if m == 9 {
        4
    } else if m == 10 {
        6
    } else if m == 11 {
        2
    } else {
        4
    }
}

/// Day of the week of a proleptic Gregorian date, with Sunday as 0,
/// by Sakamoto's congruence. Out-of-range fields map to 0.
pub open spec fn spec_weekday(t: DateTime) -> int {
    if 1 <= t.year && 1 <= t.month <= 12 {
        let y: int = if t.month < 3 {
            t.year - 1
        } else {
            t.year as int
        };
        (y + y / 4 - y / 100 + y / 400 + month_anchor(t.month as int) + t.day) % 7
    } else {
        0
    }
}

/// Computes the weekday index (0 = Sunday) of a timestamp.
pub fn weekday(t: &DateTime) -> (w: u64)
    ensures
        w == spec_weekday(*t),
        w < 7,
{
    if t.year < 1 || t.month < 1 || t.month > 12 {
        return 0;
    }
    let y: u64 = if t.month < 3 {
        (t.year - 1) as u64
    } else {
        t.year as u64
    };
    let anchor: u64 = match t.month {
        1 => 0,
        2 => 3,
        3 => 2,
        4 => 5,
        5 => 0,
        6 => 3,
        7 => 5,
        8 => 1,
        9 => 4,
        10 => 6,
        11 => 2,
        _ => 4,
    };
    proof {
        vstd::arithmetic::div_mod::lemma_div_is_ordered_by_denominator(y as int, 4, 100);
    }
    (y + y / 4 - y / 100 + y / 400 + anchor + (t.day as u64)) % 7
}

/// The five retention granularities, coarsest last.
#[derive(Clone, Copy, Debug, PartialEq, Eq, Structural)]
pub enum Granularity {
    Hourly,
    Daily,
    Weekly,
    Monthly,
    Yearly,
}

/// The coarse calendar label one granularity maps a timestamp to.
/// Unused positions are zero; buckets of different granularities are
/// never compared with each other.
#[derive(Clone, Copy, Debug, PartialEq, Eq, Structural)]
pub struct Bucket {
    pub major: u64,
    pub mid: u64,
    pub minor: u64,
    pub fine: u64,
}

/// The period bucket of a timestamp under one granularity. The weekly
/// bucket is deliberately the pair (year, weekday index), not a calendar
/// week number: snapshots on the same weekday of one year share it.
pub open spec fn spec_bucket_of(g: Granularity, t: DateTime) -> Bucket {
    match g {
        Granularity::Hourly => Bucket {
            major: t.year as u64,
            mid: t.month as u64,
            minor: t.day as u64,
            fine: t.hour as u64,
        },
        Granularity::Daily => Bucket {
            major: t.year as u64,
            mid: t.month as u64,
            minor: t.day as u64,
            fine: 0,
        },
        Granularity::Weekly => Bucket {
            major: t.year as u64,
            mid: spec_weekday(t) as u64,
            minor: 0,
            fine: 0,
        },
        Granularity::Monthly => Bucket {
            major: t.year as u64,
            mid: t.month as u64,
            minor: 0,
            fine: 0,
        },
        Granularity::Yearly => Bucket { major: t.year as u64, mid: 0, minor: 0, fine: 0 },
    }
}

/// Computes the period bucket of a timestamp under one granularity.
pub fn bucket_of(g: Granularity, t: &DateTime) -> (b: Bucket)
    ensures
        b == spec_bucket_of(g, *t),
{
    match g {
        Granularity::Hourly => Bucket {
            major: t.year as u64,
            mid: t.month as u64,
            minor: t.day as u64,
            fine: t.hour as u64,
        },
        Granularity::Daily => Bucket {
            major: t.year as u64,
            mid: t.month as u64,
            minor: t.day as u64,
            fine: 0,
        },
        Granularity::Weekly => Bucket { major: t.year as u64, mid: weekday(t), minor: 0, fine: 0 },
        Granularity::Monthly => Bucket {
            major: t.year as u64,
            mid: t.month as u64,
            minor: 0,
            fine: 0,
        },
        Granularity::Yearly => Bucket { major: t.year as u64, mid: 0, minor: 0, fine: 0 },
    }
}

} // verus!
