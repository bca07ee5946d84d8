//! Grouping flat per-period timetable rows into a subject-keyed schedule.
//!
//! Each row contributes one (weekday, period) slot to the entry keyed by
//! `"<subject>(<classroom>)"`; slots keep the order in which the rows were
//! encountered, duplicates included.

use crate::date::{parse_yyyymmdd, parsed_yyyymmdd};
use crate::numeric::{parse_u8, parsed_u8};
use crate::timetable::TimeTableData;
use vstd::prelude::*;
use vstd::string::StringExecFns;

verus! {

/// One outward schedule entry: the subject, its slots in row order, and
/// the classroom.
#[derive(Clone, PartialEq, Eq, Debug)]
pub struct Subject {
    pub subject: String,
    pub time: Vec<(String, u8)>,
    pub classroom: String,
}

/// The mathematical view of a schedule entry.
#[verifier::ext_equal]
pub struct SubjectModel {
    pub subject: Seq<char>,
    pub time: Seq<(Seq<char>, u8)>,
    pub classroom: Seq<char>,
}

impl Subject {
    pub open spec fn model(self) -> SubjectModel {
        SubjectModel {
            subject: self.subject@,
            time: self.time@.map_values(|t: (String, u8)| (t.0@, t.1)),
            classroom: self.classroom@,
        }
    }
}

/// Whether a row can be aggregated: its date is a valid `YYYYMMDD` date
/// and its period is numeric.
pub open spec fn row_well_formed(r: TimeTableData) -> bool {
    &&& parsed_yyyymmdd(r.date@) is Some
    &&& parsed_u8(r.perio@) is Some
}

/// The (weekday name, period) slot a well-formed row denotes.
pub open spec fn row_slot(r: TimeTableData) -> (Seq<char>, u8)
    recommends
        row_well_formed(r),
{
    (parsed_yyyymmdd(r.date@)->0.weekday_spec().name_seq(), parsed_u8(r.perio@)->0)
}

/// The grouping key of a row: the subject name with the classroom in
/// parentheses.
pub open spec fn row_key(r: TimeTableData) -> Seq<char> {
    r.subject@ + "("@ + r.classroom@ + ")"@
}

/// The index of the entry carrying key `k`, or -1 when there is none.
pub open spec fn key_index(m: Seq<(Seq<char>, SubjectModel)>, k: Seq<char>) -> int
    decreases m.len(),
{
    if m.len() == 0 {
        -1
    } else if m[0].0 == k {
        0
    } else {
        let r = key_index(m.drop_first(), k);
        if r < 0 {
            -1
        } else {
            r + 1
        }
    }
}

/// `key_index` finds the first entry with the key, if any.
pub proof fn lemma_key_index(m: Seq<(Seq<char>, SubjectModel)>, k: Seq<char>, j: int)
    requires
        0 <= j <= m.len(),
        forall|l: int| 0 <= l < j ==> (#[trigger] m[l]).0 != k,
        j < m.len() ==> m[j].0 == k,
    ensures
        key_index(m, k) == if j == m.len() {
            -1int
        } else {
            j
        },
    decreases m.len(),
{
    if m.len() == 0 {
    } else if m[0].0 == k {
        assert(j == 0);
    } else {
        let t = m.drop_first();
        assert(forall|l: int| 0 <= l < j - 1 ==> (#[trigger] t[l]).0 != k);
        lemma_key_index(t, k, j - 1);
    }
}

/// No two entries of the schedule carry the same key.
pub open spec fn unique_keys(m: Seq<(Seq<char>, SubjectModel)>) -> bool {
    forall|i: int, j: int| 0 <= i < j < m.len() ==> (#[trigger] m[i]).0 != (#[trigger] m[j]).0
}

/// A negative `key_index` means no entry carries the key; a non-negative
/// one points at an entry that does.
pub proof fn lemma_key_index_meaning(m: Seq<(Seq<char>, SubjectModel)>, k: Seq<char>)
    ensures
        key_index(m, k) == -1 ==> forall|l: int| 0 <= l < m.len() ==> (#[trigger] m[l]).0 != k,
        key_index(m, k) >= 0 ==> 0 <= key_index(m, k) < m.len() && m[key_index(m, k)].0 == k,
    decreases m.len(),
{
    if m.len() > 0 && m[0].0 != k {
        let t = m.drop_first();
        lemma_key_index_meaning(t, k);
        if key_index(m, k) == -1 {
            assert(forall|l: int| 1 <= l < m.len() ==> (#[trigger] m[l]).0 == t[l - 1].0);
        }
    }
}

/// Folding one more row in never duplicates a key.
pub proof fn lemma_insert_row_unique(m: Seq<(Seq<char>, SubjectModel)>, r: TimeTableData)
    requires
        unique_keys(m),
    ensures
        unique_keys(insert_row(m, r)),
{
    lemma_key_index_meaning(m, row_key(r));
}

/// The keys of an aggregated schedule are unique, whatever the rows.
pub proof fn lemma_aggregate_keys_unique(rows: Seq<TimeTableData>)
    ensures
        unique_keys(aggregate_spec(rows)),
    decreases rows.len(),
{
    if rows.len() > 0 {
        lemma_aggregate_keys_unique(rows.drop_last());
        lemma_insert_row_unique(aggregate_spec(rows.drop_last()), rows.last());
    }
}

/// One row folded into the schedule: its slot appended to its key's entry,
/// or a new entry opened at the end.
pub open spec fn insert_row(m: Seq<(Seq<char>, SubjectModel)>, r: TimeTableData) -> Seq<
    (Seq<char>, SubjectModel),
> {
    let k = row_key(r);
    let i = key_index(m, k);
    if i < 0 {
        m.push(
            (k, SubjectModel { subject: r.subject@, time: seq![row_slot(r)], classroom: r.classroom@ }),
        )
    } else {
        m.update(
            i,
            (
                k,
                SubjectModel {
                    subject: m[i].1.subject,
                    time: m[i].1.time.push(row_slot(r)),
                    classroom: m[i].1.classroom,
                },
            ),
        )
    }
}

/// The schedule of a row list, folded left to right.
pub open spec fn aggregate_spec(rows: Seq<TimeTableData>) -> Seq<(Seq<char>, SubjectModel)>
    decreases rows.len(),
{
    if rows.len() == 0 {
        Seq::empty()
    } else {
        insert_row(aggregate_spec(rows.drop_last()), rows.last())
    }
}

/// The mathematical view of a schedule's entry list.
pub open spec fn schedule_model(s: Seq<(String, Subject)>) -> Seq<(Seq<char>, SubjectModel)> {
    s.map_values(|e: (String, Subject)| (e.0@, e.1.model()))
}

/// The subject-keyed schedule: entries in the order their keys were first
/// encountered.
#[derive(Clone, PartialEq, Eq, Debug)]
pub struct Subjects(pub Vec<(String, Subject)>);

impl Subjects {
    pub open spec fn model(self) -> Seq<(Seq<char>, SubjectModel)> {
        schedule_model(self.0@)
    }

    /// Groups the rows into a schedule, exactly as [`aggregate_spec`]
    /// describes. Every row must be well-formed; a caller that cannot
    /// promise that goes through [`Subjects::try_from_time_table`].
    pub fn from_time_table(time_tables: &[TimeTableData]) -> (r: Subjects)
        requires
            forall|i: int|
                0 <= i < time_tables@.len() ==> row_well_formed(#[trigger] time_tables@[i]),
        ensures
            r.model() == aggregate_spec(time_tables@),
            unique_keys(r.model()),
    {
        proof {
            lemma_aggregate_keys_unique(time_tables@);
        }
        let mut out: Vec<(String, Subject)> = Vec::new();
        let mut i: usize = 0;
        while i < time_tables.len()
            invariant
                i <= time_tables@.len(),
                forall|l: int|
                    0 <= l < time_tables@.len() ==> row_well_formed(#[trigger] time_tables@[l]),
                schedule_model(out@) == aggregate_spec(time_tables@.take(i as int)),
            decreases time_tables@.len() - i,
        {
            let row = &time_tables[i];
            let date = parse_yyyymmdd(row.date.as_str()).unwrap();
            let wd_name = date.weekday().name();
            let period = parse_u8(row.perio.as_str()).unwrap();
            let mut key = row.subject.clone();
            key.append("(");
            key.append(row.classroom.as_str());
            key.append(")");
            proof {
                assert(key@ == row_key(*row));
                assert((wd_name@, period) == row_slot(*row));
            }
            let ghost pre = schedule_model(out@);
            let mut j: usize = 0;
            let mut found = false;
            while j < out.len() && !found
                invariant
                    j <= out@.len(),
                    pre == schedule_model(out@),
                    !found ==> forall|l: int| 0 <= l < j ==> (#[trigger] pre[l]).0 != key@,
                    found ==> j < out@.len() && pre[j as int].0 == key@ && (forall|l: int|
                        0 <= l < j ==> (#[trigger] pre[l]).0 != key@),
                decreases out@.len() - j + (if found { 0int } else { 1int }),
            {
                if crate::split::str_equal(out[j].0.as_str(), key.as_str()) {
                    proof {
                        assert(pre[j as int].0 == key@);
                    }
                    found = true;
                } else {
                    proof {
                        assert(pre[j as int].0 != key@);
                    }
                    j = j + 1;
                }
            }
            proof {
                if found {
                    lemma_key_index(pre, key@, j as int);
                } else {
                    lemma_key_index(pre, key@, pre.len() as int);
                }
            }
            if found {
                let ghost out0 = out@;
                let mut e = out.remove(j);
                e.1.time.push((wd_name, period));
                let ghost e_snap = e;
                out.insert(j, e);
                proof {
                    assert(out@ =~= out0.update(j as int, e_snap));
                    assert(key_index(pre, key@) == j as int);
                    assert(schedule_model(out@) =~~= insert_row(pre, *row));
                }
            } else {
                let slot_list: Vec<(String, u8)> = vec![(wd_name, period)];
                out.push(
                    (
                        key,
                        Subject {
                            subject: row.subject.clone(),
                            time: slot_list,
                            classroom: row.classroom.clone(),
                        },
                    ),
                );
                proof {
                    assert(schedule_model(out@) =~~= insert_row(pre, *row));
                }
            }
            proof {
                assert(time_tables@.take(i + 1).drop_last() =~= time_tables@.take(i as int));
                assert(time_tables@.take(i + 1).last() == time_tables@[i as int]);
                assert(schedule_model(out@) == insert_row(pre, time_tables@[i as int]));
            }
            i = i + 1;
        }
        proof {
            assert(time_tables@.take(time_tables@.len() as int) =~= time_tables@);
        }
        Subjects(out)
    }

    /// Checks every row first: the schedule of the rows, or `None` when
    /// any row's date or period does not parse.
    pub fn try_from_time_table(time_tables: &[TimeTableData]) -> (r: Option<Subjects>)
        ensures
            r is Some <==> (forall|i: int|
                0 <= i < time_tables@.len() ==> row_well_formed(#[trigger] time_tables@[i])),
            r matches Some(s) ==> s.model() == aggregate_spec(time_tables@),
    {
        let mut i: usize = 0;
        while i < time_tables.len()
            invariant
                i <= time_tables@.len(),
                forall|l: int| 0 <= l < i ==> row_well_formed(#[trigger] time_tables@[l]),
            decreases time_tables@.len() - i,
        {
            let row = &time_tables[i];
            let date_ok = parse_yyyymmdd(row.date.as_str()).is_some();
            let period_ok = parse_u8(row.perio.as_str()).is_some();
            if !(date_ok && period_ok) {
                return None;
            }
            i = i + 1;
        }
        Some(Subjects::from_time_table(time_tables))
    }
}

/// Aggregation is deterministic: two schedules built from the same row
/// list are identical — the same keys and the same slot order.
pub proof fn lemma_aggregate_deterministic(rows: Seq<TimeTableData>, a: Subjects, b: Subjects)
    requires
        a.model() == aggregate_spec(rows),
        b.model() == aggregate_spec(rows),
    ensures
        a.model() == b.model(),
{
}

} // verus!
