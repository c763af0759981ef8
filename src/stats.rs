//! Pulling identity attributes (vendor, product, serial number) of a disk
//! out of the kernel statistics records of its error-counters module.

use vstd::prelude::*;
use crate::text::{chars_of, string_of};

verus! {

/// A typed value of a named statistic.
pub enum StatValue {
    Char(i8),
    Int32(i32),
    UInt32(u32),
    Int64(i64),
    UInt64(u64),
    Text(String),
}

/// One named value of a statistics record.
pub struct StatField {
    pub name: String,
    pub value: StatValue,
}

/// One statistics record: its named values. A record read from the
/// statistics facility holds each name at most once (see `names_unique`).
pub struct StatRecord {
    pub fields: Vec<StatField>,
}

impl StatRecord {
    /// No two fields of the record share a name, as in the keyed map that
    /// the statistics facility hands out.
    pub open spec fn names_unique(&self) -> bool {
        forall|i: int, j: int|
            0 <= i < j < self.fields@.len() ==> #[trigger] self.fields@[i].name@
                != #[trigger] self.fields@[j].name@
    }
}

/// Why an attribute could not be read from the statistics records.
#[derive(Debug, PartialEq, Eq, Structural, Clone, Copy)]
pub enum StatError {
    /// The record holds no value of that name.
    MissingField,
    /// The value of that name is not a string.
    UnexpectedKind,
}

/// The module filter of a disk's error counters: the module name followed
/// by ",err".
pub open spec fn err_module(module: Seq<char>) -> Seq<char> {
    module + seq![',', 'e', 'r', 'r']
}

/// Builds the statistics filter "<module>,err" for a disk's module name.
pub fn stat_filter_name(module: &str) -> (r: String)
    ensures
        r@ == err_module(module@),
{
    let mut c = chars_of(module);
    c.push(',');
    c.push('e');
    c.push('r');
    c.push('r');
    assert(c@ =~= err_module(module@));
    string_of(&c)
}

/// The index of the last field called `name`.
pub open spec fn field_index(fields: Seq<StatField>, name: Seq<char>) -> Option<int>
    decreases fields.len(),
{
    if fields.len() == 0 {
        None
    } else if fields.last().name@ == name {
        Some(fields.len() - 1)
    } else {
        field_index(fields.drop_last(), name)
    }
}

/// The string value called `name` in a record.
pub open spec fn value_in(fields: Seq<StatField>, name: Seq<char>) -> Result<Seq<char>, StatError> {
    match field_index(fields, name) {
        None => Err(StatError::MissingField),
        Some(k) => match fields[k].value {
            StatValue::Text(s) => Ok(s@),
            _ => Err(StatError::UnexpectedKind),
        },
    }
}

/// The value of attribute `name` over the records that matched a filter.
/// Every record is read in order: the first one that lacks the name or holds
/// a value of another kind than a string gives the error; when all hold
/// strings, the last one's value is used. No record gives the empty string.
pub open spec fn stat_result(records: Seq<StatRecord>, name: Seq<char>) -> Result<Seq<char>, StatError>
    decreases records.len(),
{
    if records.len() == 0 {
        Ok(Seq::<char>::empty())
    } else {
        match stat_result(records.drop_last(), name) {
            Err(e) => Err(e),
            Ok(_) => value_in(records.last().fields@, name),
        }
    }
}

proof fn lemma_field_index_step(fields: Seq<StatField>, i: int, name: Seq<char>)
    requires
        0 <= i < fields.len(),
    ensures
        field_index(fields.take(i + 1), name) == if fields[i].name@ == name {
            Some(i)
        } else {
            field_index(fields.take(i), name)
        },
{
    assert(fields.take(i + 1).drop_last() =~= fields.take(i));
}

/// In a record whose names are unique, the field that `field_index` picks
/// is the one field of that name: no choice between fields is made.
pub proof fn lemma_unique_field_index(rec: StatRecord, name: Seq<char>, k: int)
    requires
        rec.names_unique(),
        0 <= k < rec.fields@.len(),
        rec.fields@[k].name@ == name,
    ensures
        field_index(rec.fields@, name) == Some(k),
    decreases rec.fields@.len(),
{
    lemma_unique_field_index_seq(rec.fields@, name, k);
}

proof fn lemma_unique_field_index_seq(f: Seq<StatField>, name: Seq<char>, k: int)
    requires
        forall|i: int, j: int| 0 <= i < j < f.len() ==> #[trigger] f[i].name@ != #[trigger] f[j].name@,
        0 <= k < f.len(),
        f[k].name@ == name,
    ensures
        field_index(f, name) == Some(k),
    decreases f.len(),
{
    if k < f.len() - 1 {
        assert(f[k].name@ != f[f.len() - 1].name@);
        let g = f.drop_last();
        assert forall|i: int, j: int| 0 <= i < j < g.len() implies #[trigger] g[i].name@ != #[trigger] g[j].name@ by {
            assert(g[i] == f[i] && g[j] == f[j]);
        }
        lemma_unique_field_index_seq(g, name, k);
    }
}

proof fn lemma_all_strings_ok(records: Seq<StatRecord>, name: Seq<char>)
    requires
        forall|i: int| 0 <= i < records.len() ==> (#[trigger] value_in(records[i].fields@, name)) is Ok,
    ensures
        stat_result(records, name) is Ok,
    decreases records.len(),
{
    if records.len() > 0 {
        let r = records.drop_last();
        assert forall|i: int| 0 <= i < r.len() implies (#[trigger] value_in(r[i].fields@, name)) is Ok by {
            assert(r[i] == records[i]);
        }
        lemma_all_strings_ok(r, name);
        assert(value_in(records[records.len() - 1].fields@, name) is Ok);
    }
}

proof fn lemma_error_persists(records: Seq<StatRecord>, n: int, name: Seq<char>, e: StatError)
    requires
        0 <= n <= records.len(),
        stat_result(records.take(n), name) == Err::<Seq<char>, StatError>(e),
    ensures
        stat_result(records, name) == Err::<Seq<char>, StatError>(e),
    decreases records.len(),
{
    if n < records.len() {
        let r = records.drop_last();
        assert(r.take(n) =~= records.take(n));
        lemma_error_persists(r, n, name, e);
    } else {
        assert(records.take(n) =~= records);
    }
}

/// When several records match a filter and the earlier ones all hold a
/// string under the name, the last record's value is the result.
pub proof fn law_last_record_wins(earlier: Seq<StatRecord>, last: StatRecord, name: Seq<char>)
    requires
        forall|i: int| 0 <= i < earlier.len() ==> (#[trigger] value_in(earlier[i].fields@, name)) is Ok,
    ensures
        stat_result(earlier.push(last), name) == stat_result(seq![last], name),
        stat_result(earlier.push(last), name) == value_in(last.fields@, name),
{
    lemma_all_strings_ok(earlier, name);
    assert(earlier.push(last).drop_last() =~= earlier);
    assert(seq![last].drop_last() =~= Seq::<StatRecord>::empty());
    assert(stat_result(seq![last].drop_last(), name) is Ok);
}

/// Reads the string value called `name` from one record.
fn record_value(rec: &StatRecord, name: &String) -> (r: Result<String, StatError>)
    ensures
        r matches Ok(s) ==> value_in(rec.fields@, name@) == Ok::<Seq<char>, StatError>(s@),
        r matches Err(e) ==> value_in(rec.fields@, name@) == Err::<Seq<char>, StatError>(e),
{
    let fields = &rec.fields;
    let mut found: Option<usize> = None;
    let mut i: usize = 0;
    while i < fields.len()
        invariant
            i <= fields.len(),
            found == (match field_index(fields@.take(i as int), name@) {
                Some(k) => Some(k as usize),
                None => None::<usize>,
            }),
            field_index(fields@.take(i as int), name@) matches Some(k) ==> 0 <= k < i,
        decreases fields.len() - i,
    {
        proof {
            lemma_field_index_step(fields@, i as int, name@);
        }
        if fields[i].name == *name {
            found = Some(i);
        }
        i += 1;
    }
    proof {
        assert(fields@.take(fields.len() as int) =~= fields@);
    }
    match found {
        None => Err(StatError::MissingField),
        Some(k) => match &fields[k].value {
            StatValue::Text(s) => Ok(s.clone()),
            _ => Err(StatError::UnexpectedKind),
        },
    }
}

/// Reads the string attribute `name` from the statistics records of one
/// module. Every record is read: the first that lacks the name or holds a
/// non-string value there gives the error; otherwise the last record's
/// value is used.
pub fn stat_value(records: &Vec<StatRecord>, name: &str) -> (r: Result<String, StatError>)
    ensures
        r matches Ok(s) ==> stat_result(records@, name@) == Ok::<Seq<char>, StatError>(s@),
        r matches Err(e) ==> stat_result(records@, name@) == Err::<Seq<char>, StatError>(e),
{
    let key = name.to_owned();
    let mut acc = String::new();
    let mut i: usize = 0;
    while i < records.len()
        invariant
            i <= records.len(),
            key@ == name@,
            stat_result(records@.take(i as int), name@) == Ok::<Seq<char>, StatError>(acc@),
        decreases records.len() - i,
    {
        proof {
            assert(records@.take(i + 1).drop_last() =~= records@.take(i as int));
            assert(records@.take(i + 1).last() == records@[i as int]);
        }
        match record_value(&records[i], &key) {
            Ok(v) => {
                acc = v;
            },
            Err(e) => {
                proof {
                    lemma_error_persists(records@, i + 1, name@, e);
                }
                return Err(e);
            },
        }
        i += 1;
    }
    proof {
        assert(records@.take(records.len() as int) =~= records@);
    }
    Ok(acc)
}

} // verus!
