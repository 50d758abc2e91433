//! Snapshot records as the storage tool reports them, and the parsing of
//! its tabular listing output into such records.
//!
//! A listing row has four columns: name, creation time, used size, and
//! the retention annotation. Rows whose annotation is the untracked
//! sentinel `-` are skipped; every other row must parse, and the first
//! failing row aborts the whole listing.

use vstd::prelude::*;
use vstd::string::StrSliceExecFns;
use vstd::string::StringExecFns;

use crate::date::DateTime;

use chrono::Datelike;
use chrono::Timelike;

verus! {

/// One snapshot: a globally unique `<dataset>@<suffix>` name, its creation
/// time, and its size in bytes.
#[derive(Debug, PartialEq, Eq, Hash)]
pub struct SnapshotMetadata {
    pub name: String,
    pub created: DateTime,
    pub used: u128,
}

impl Clone for SnapshotMetadata {
    fn clone(&self) -> (r: Self)
        ensures
            r == *self,
    {
        SnapshotMetadata { name: self.name.clone(), created: self.created, used: self.used }
    }
}

/// What chrono computes from a listing timestamp string, as the raw
/// (year, month, day, hour, minute, second) fields: a function of the
/// string alone.
pub uninterp spec fn datetime_parse(s: Seq<char>) -> Option<(i32, u32, u32, u32, u32, u32)>;

/// Relies on chrono::NaiveDateTime::parse_from_str with the fixed format
/// `%a %b %e %H:%M %Y` (the storage tool's listing format), and on the
/// documented ranges of the chrono accessors: month() is 1 to 12, day()
/// 1 to 31, hour() 0 to 23, minute() and second() 0 to 59. The format has
/// no seconds field, which chrono documents as parsing to zero. The
/// result depends on the input string alone.
#[verifier::external_body]
fn chrono_parse_datetime(s: &str) -> (r: Result<(i32, u32, u32, u32, u32, u32), String>)
    ensures
        r matches Ok(t) ==> datetime_parse(s@) == Some(t) && 1 <= t.1 <= 12 && 1 <= t.2 <= 31
            && t.3 < 24 && t.4 < 60 && t.5 < 60,
        r is Err <==> datetime_parse(s@) is None,
{
    match chrono::NaiveDateTime::parse_from_str(s, "%a %b %e %H:%M %Y") {
        Ok(dt) => Ok((dt.year(), dt.month(), dt.day(), dt.hour(), dt.minute(), dt.second())),
        Err(e) => Err(e.to_string()),
    }
}

/// What byte_unit computes from a size string: a function of the string
/// alone.
pub uninterp spec fn byte_parse(s: Seq<char>) -> Option<u128>;

/// Relies on byte_unit::Byte::from_str, which parses a decimal value with
/// an optional unit into a byte count, and on Byte::get_bytes, which
/// hands that count out as an integer. The result depends on the input
/// string alone.
#[verifier::external_body]
fn byte_unit_parse(s: &str) -> (r: Result<u128, String>)
    ensures
        r matches Ok(v) ==> byte_parse(s@) == Some(v),
        r is Err <==> byte_parse(s@) is None,
{
    match byte_unit::Byte::from_str(s) {
        Ok(b) => Ok(b.get_bytes()),
        Err(e) => Err(e.to_string()),
    }
}

/// The library timestamp raw chrono fields yield, when every field fits
/// the library's ranges.
pub open spec fn fields_to_datetime(t: (i32, u32, u32, u32, u32, u32)) -> Option<DateTime> {
    if 1 <= t.0 as int <= u16::MAX as int && 1 <= t.1 <= 12 && 1 <= t.2 <= 31 && t.3 < 24 && t.4
        < 60 && t.5 < 60 {
        Some(
            DateTime {
                year: t.0 as u16,
                month: t.1 as u8,
                day: t.2 as u8,
                hour: t.3 as u8,
                minute: t.4 as u8,
                second: t.5 as u8,
            },
        )
    } else {
        None
    }
}

/// Narrows raw calendar fields to a library timestamp, rejecting anything
/// outside the supported ranges.
pub fn datetime_from_fields(t: (i32, u32, u32, u32, u32, u32)) -> (r: Option<DateTime>)
    ensures
        r == fields_to_datetime(t),
        r matches Some(d) ==> d.wf(),
{
    if 1 <= t.0 && t.0 <= u16::MAX as i32 && 1 <= t.1 && t.1 <= 12 && 1 <= t.2 && t.2 <= 31 && t.3
        < 24 && t.4 < 60 && t.5 < 60 {
        Some(
            DateTime {
                year: t.0 as u16,
                month: t.1 as u8,
                day: t.2 as u8,
                hour: t.3 as u8,
                minute: t.4 as u8,
                second: t.5 as u8,
            },
        )
    } else {
        None
    }
}

/// The library timestamp a listing timestamp string denotes, if any.
pub open spec fn spec_datetime(s: Seq<char>) -> Option<DateTime> {
    match datetime_parse(s) {
        Some(t) => fields_to_datetime(t),
        None => None,
    }
}

/// Parses one listing timestamp into a well-formed library timestamp.
pub fn parse_datetime(s: &str) -> (r: Result<DateTime, String>)
    ensures
        r matches Ok(d) ==> spec_datetime(s@) == Some(d) && d.wf(),
        r is Err <==> spec_datetime(s@) is None,
{
    match chrono_parse_datetime(s) {
        Ok(t) => match datetime_from_fields(t) {
            Some(d) => Ok(d),
            None => Err(String::from_str("timestamp out of supported range")),
        },
        Err(m) => Err(m),
    }
}

/// Whether a size string ends in one of the bare binary-unit letters the
/// storage tool prints.
pub open spec fn has_iec_suffix(s: Seq<char>) -> bool {
    s.len() > 0 && (s.last() == 'K' || s.last() == 'M' || s.last() == 'G' || s.last() == 'T'
        || s.last() == 'P' || s.last() == 'E' || s.last() == 'Z')
}

/// The byte count a listing size column denotes. The storage tool prints
/// binary units with bare suffix letters (`13G` means gibibytes), so `iB`
/// is appended before the size parser runs.
pub open spec fn spec_used(s: Seq<char>) -> Option<u128> {
    if has_iec_suffix(s) {
        byte_parse(s + seq!['i', 'B'])
    } else {
        byte_parse(s)
    }
}

/// Parses one listing size column into a byte count.
pub fn parse_used(x: &str) -> (r: Result<u128, String>)
    ensures
        r matches Ok(v) ==> spec_used(x@) == Some(v),
        r is Err <==> spec_used(x@) is None,
{
    let n = x.unicode_len();
    let mut suffixed = false;
    if n > 0 {
        let c = x.get_char(n - 1);
        if c == 'K' || c == 'M' || c == 'G' || c == 'T' || c == 'P' || c == 'E' || c == 'Z' {
            suffixed = true;
        }
    }
    if suffixed {
        let mut owned = String::from_str(x);
        owned.append("iB");
        proof {
            reveal_strlit("iB");
            assert(owned@ =~= x@ + seq!['i', 'B']);
        }
        byte_unit_parse(owned.as_str())
    } else {
        byte_unit_parse(x)
    }
}

/// Why a listing failed to parse.
#[derive(Debug)]
pub enum ZfsListError {
    /// A row did not have the four expected columns.
    BadRow,
    /// A creation-time column the date parser rejected, with its message.
    BadDate(String),
    /// A size column the size parser rejected, with its message.
    BadSize(String),
}

impl ZfsListError {
    /// The human-readable message of this error.
    pub fn message(&self) -> (m: String)
        ensures
            *self is BadRow ==> m@ == "list snapshots parse error"@,
            *self matches ZfsListError::BadDate(s) ==> m@ == s@,
            *self matches ZfsListError::BadSize(s) ==> m@ == s@,
    {
        match self {
            ZfsListError::BadRow => String::from_str("list snapshots parse error"),
            ZfsListError::BadDate(s) => s.clone(),
            ZfsListError::BadSize(s) => s.clone(),
        }
    }
}

/// The kind of a listing failure, without its message.
pub enum ListFailure {
    Shape,
    Date,
    Size,
}

/// The failure kind a listing error reports.
pub open spec fn failure_of(e: ZfsListError) -> ListFailure {
    match e {
        ZfsListError::BadRow => ListFailure::Shape,
        ZfsListError::BadDate(_) => ListFailure::Date,
        ZfsListError::BadSize(_) => ListFailure::Size,
    }
}

/// What one listing row yields: a record, a skip (untracked sentinel in
/// the annotation column), or the first failure in column order.
pub open spec fn spec_row(row: Vec<String>) -> Result<Option<SnapshotMetadata>, ListFailure> {
    if row@.len() != 4 {
        Err(ListFailure::Shape)
    } else if row@[3]@ == "-"@ {
        Ok(None)
    } else {
        match spec_datetime(row@[1]@) {
            None => Err(ListFailure::Date),
            Some(d) => match spec_used(row@[2]@) {
                None => Err(ListFailure::Size),
                Some(v) => Ok(Some(SnapshotMetadata { name: row@[0], created: d, used: v })),
            },
        }
    }
}

/// The records of the rows from position `i` on, or the first failure.
pub open spec fn spec_rows_from(rows: Seq<Vec<String>>, i: int) -> Result<
    Seq<SnapshotMetadata>,
    ListFailure,
>
    decreases rows.len() - i,
{
    if !(0 <= i < rows.len()) {
        Ok(Seq::empty())
    } else {
        match spec_row(rows[i]) {
            Err(f) => Err(f),
            Ok(opt) => match spec_rows_from(rows, i + 1) {
                Err(f) => Err(f),
                Ok(rest) => match opt {
                    Some(rec) => Ok(seq![rec] + rest),
                    None => Ok(rest),
                },
            },
        }
    }
}

/// What the whole listing yields: its records in row order, skipping
/// untracked rows, or the first failure.
pub open spec fn spec_parse_snapshots(rows: Seq<Vec<String>>) -> Result<
    Seq<SnapshotMetadata>,
    ListFailure,
> {
    spec_rows_from(rows, 0)
}

/// Parses the storage tool's tab-split listing into snapshot records.
/// Rows whose annotation column is `-` are skipped; the first malformed
/// row aborts the listing with the matching error.
pub fn parse_snapshots(lines: Vec<Vec<String>>) -> (r: Result<Vec<SnapshotMetadata>, ZfsListError>)
    ensures
        r matches Ok(v) ==> spec_parse_snapshots(lines@) == Ok::<
            Seq<SnapshotMetadata>,
            ListFailure,
        >(v@),
        r matches Err(e) ==> spec_parse_snapshots(lines@) == Err::<
            Seq<SnapshotMetadata>,
            ListFailure,
        >(failure_of(e)),
        r matches Ok(v) ==> forall|i: int|
            0 <= i < v@.len() ==> (#[trigger] v@[i]).created.wf(),
{
    let mut out: Vec<SnapshotMetadata> = Vec::new();
    let mut i: usize = 0;
    while i < lines.len()
        invariant
            i <= lines@.len(),
            spec_rows_from(lines@, 0) == (match spec_rows_from(lines@, i as int) {
                Err(f) => Err::<Seq<SnapshotMetadata>, ListFailure>(f),
                Ok(rest) => Ok::<Seq<SnapshotMetadata>, ListFailure>(out@ + rest),
            }),
            forall|k: int| 0 <= k < out@.len() ==> (#[trigger] out@[k]).created.wf(),
        decreases lines@.len() - i,
    {
        let row = &lines[i];
        if row.len() != 4 {
            proof {
                assert(spec_rows_from(lines@, i as int) == Err::<
                    Seq<SnapshotMetadata>,
                    ListFailure,
                >(ListFailure::Shape));
            }
            return Err(ZfsListError::BadRow);
        }
        let dash = String::from_str("-");
        if row[3] == dash {
            proof {
                assert(spec_row(lines@[i as int]) == Ok::<
                    Option<SnapshotMetadata>,
                    ListFailure,
                >(None));
                assert(spec_rows_from(lines@, i as int) == spec_rows_from(lines@, i + 1));
            }
            i += 1;
        } else {
            let created = match parse_datetime(row[1].as_str()) {
                Ok(d) => d,
                Err(m) => {
                    proof {
                        assert(spec_rows_from(lines@, i as int) == Err::<
                            Seq<SnapshotMetadata>,
                            ListFailure,
                        >(ListFailure::Date));
                    }
                    return Err(ZfsListError::BadDate(m));
                },
            };
            let used = match parse_used(row[2].as_str()) {
                Ok(v) => v,
                Err(m) => {
                    proof {
                        assert(spec_rows_from(lines@, i as int) == Err::<
                            Seq<SnapshotMetadata>,
                            ListFailure,
                        >(ListFailure::Size));
                    }
                    return Err(ZfsListError::BadSize(m));
                },
            };
            let rec = SnapshotMetadata { name: row[0].clone(), created, used };
            let ghost out_prev = out@;
            out.push(rec);
            proof {
                assert(spec_row(lines@[i as int]) == Ok::<Option<SnapshotMetadata>, ListFailure>(
                    Some(rec),
                ));
                if spec_rows_from(lines@, i + 1) is Ok {
                    let rest = spec_rows_from(lines@, i + 1)->Ok_0;
                    assert(out_prev + (seq![rec] + rest) =~= out@ + rest);
                }
            }
            i += 1;
        }
    }
    proof {
        assert(spec_rows_from(lines@, lines@.len() as int) == Ok::<
            Seq<SnapshotMetadata>,
            ListFailure,
        >(Seq::empty()));
        assert(out@ + Seq::<SnapshotMetadata>::empty() =~= out@);
    }
    Ok(out)
}

/// Whether a name is recognizably a snapshot name: it holds the
/// dataset/snapshot separator `@` somewhere.
pub open spec fn spec_is_snapshot_name(s: Seq<char>) -> bool {
    exists|i: int| 0 <= i < s.len() && s[i] == '@'
}

/// The guard before the destructive call: destroying anything whose name
/// lacks the separator must be refused, so a whole dataset can never be
/// named by accident.
pub fn is_snapshot_name(name: &str) -> (b: bool)
    ensures
        b == spec_is_snapshot_name(name@),
{
    let n = name.unicode_len();
    let mut i: usize = 0;
    while i < n
        invariant
            n == name@.len(),
            i <= n,
            forall|k: int| 0 <= k < i ==> name@[k] != '@',
        decreases n - i,
    {
        if name.get_char(i) == '@' {
            return true;
        }
        i += 1;
    }
    false
}

/// Builds the auto-generated name for a new snapshot of a dataset from a
/// timestamp string: `<dataset>@<stamp>-autosnap`. The name always carries
/// the separator, so the destroy guard accepts it.
pub fn snapshot_name(dataset: &str, stamp: &str) -> (r: String)
    ensures
        r@ == dataset@ + seq!['@'] + stamp@ + "-autosnap"@,
        spec_is_snapshot_name(r@),
{
    let mut r = String::from_str(dataset);
    r.append("@");
    r.append(stamp);
    r.append("-autosnap");
    proof {
        reveal_strlit("@");
        assert(r@ =~= dataset@ + seq!['@'] + stamp@ + "-autosnap"@);
        assert(spec_is_snapshot_name(r@)) by {
            assert(r@[dataset@.len() as int] == '@');
        }
    }
    r
}

/// The dataset names of the rows whose annotation column is not the
/// untracked sentinel, in row order.
pub open spec fn spec_datasets_to_snapshot(rows: Seq<Vec<String>>) -> Seq<String>
    decreases rows.len(),
{
    if rows.len() == 0 {
        Seq::empty()
    } else {
        let rest = spec_datasets_to_snapshot(rows.drop_last());
        if rows.last()@[1]@ == "-"@ {
            rest
        } else {
            rest.push(rows.last()@[0])
        }
    }
}

/// Picks, out of the (name, annotation) rows of the property listing, the
/// datasets that are opted in and should receive a snapshot.
pub fn datasets_to_snapshot(rows: &Vec<Vec<String>>) -> (r: Vec<String>)
    requires
        forall|i: int| 0 <= i < rows@.len() ==> (#[trigger] rows@[i])@.len() >= 2,
    ensures
        r@ == spec_datasets_to_snapshot(rows@),
{
    let mut r: Vec<String> = Vec::new();
    let mut i: usize = 0;
    while i < rows.len()
        invariant
            i <= rows@.len(),
            forall|k: int| 0 <= k < rows@.len() ==> (#[trigger] rows@[k])@.len() >= 2,
            r@ == spec_datasets_to_snapshot(rows@.subrange(0, i as int)),
        decreases rows@.len() - i,
    {
        let row = &rows[i];
        let dash = String::from_str("-");
        if !(row[1] == dash) {
            r.push(row[0].clone());
        }
        proof {
            assert(rows@.subrange(0, (i + 1) as int).drop_last() =~= rows@.subrange(0, i as int));
            assert(rows@.subrange(0, (i + 1) as int).last() == rows@[i as int]);
        }
        i += 1;
    }
    proof {
        assert(rows@.subrange(0, rows@.len() as int) =~= rows@);
    }
    r
}

} // verus!
