//! Process records as a snapshot delivers them, and the rows made from them.

use vstd::prelude::*;
use vstd::string::*;

verus! {

/// Text shown where a snapshot record carries no executable path or no
/// resolved owner.
pub const UNKNOWN: &'static str = "unknown";

/// One process as the snapshot source reports it. `path` is absent where the
/// process has no executable path, `owner` where its user id is missing or
/// could not be resolved to a name.
pub struct ProcessRecord {
    pub pid: u32,
    pub name: String,
    pub path: Option<String>,
    pub owner: Option<String>,
}

/// One row of the table.
pub struct ProcessRow {
    pub pid: u32,
    pub name: String,
    pub path: String,
    pub owner: String,
}

/// What a row is: its pid and the characters of its three texts.
pub struct RowModel {
    pub pid: u32,
    pub name: Seq<char>,
    pub path: Seq<char>,
    pub owner: Seq<char>,
}

/// The text of an optional field, with the placeholder for an absent one.
pub open spec fn text_or_unknown(field: Option<String>) -> Seq<char> {
    match field {
        Some(text) => text@,
        None => UNKNOWN@,
    }
}

/// The row that a record becomes: absent fields degrade to the placeholder,
/// the record is never dropped.
pub open spec fn row_of(record: ProcessRecord) -> RowModel {
    RowModel {
        pid: record.pid,
        name: record.name@,
        path: text_or_unknown(record.path),
        owner: text_or_unknown(record.owner),
    }
}

/// The rows of a sequence of records, in the same order.
pub open spec fn rows_of(records: Seq<ProcessRecord>) -> Seq<RowModel> {
    records.map_values(|record: ProcessRecord| row_of(record))
}

/// The models of a sequence of rows, in the same order.
pub open spec fn models(rows: Seq<ProcessRow>) -> Seq<RowModel> {
    rows.map_values(|row: ProcessRow| row@)
}

/// No two records of the sequence share a pid.
pub open spec fn distinct_pids(records: Seq<ProcessRecord>) -> bool {
    forall|i: int, j: int|
        0 <= i < j < records.len() ==> (#[trigger] records[i]).pid != (#[trigger] records[j]).pid
}

impl View for ProcessRow {
    type V = RowModel;

    open spec fn view(&self) -> RowModel {
        RowModel { pid: self.pid, name: self.name@, path: self.path@, owner: self.owner@ }
    }
}

fn owned_or_unknown(field: &Option<String>) -> (text: String)
    ensures
        text@ == text_or_unknown(*field),
{
    match field {
        Some(text) => text.clone(),
        None => String::from_str(UNKNOWN),
    }
}

impl ProcessRecord {
    pub fn new(pid: u32, name: &str, path: Option<&str>, owner: Option<&str>) -> (record: Self)
        ensures
            record.pid == pid,
            record.name@ == name@,
            match path {
                Some(text) => record.path.is_some() && record.path.unwrap()@ == text@,
                None => record.path.is_none(),
            },
            match owner {
                Some(text) => record.owner.is_some() && record.owner.unwrap()@ == text@,
                None => record.owner.is_none(),
            },
    {
        let path = match path {
            Some(text) => Some(String::from_str(text)),
            None => None,
        };
        let owner = match owner {
            Some(text) => Some(String::from_str(text)),
            None => None,
        };
        ProcessRecord { pid, name: String::from_str(name), path, owner }
    }
}

impl ProcessRow {
    pub fn new(pid: u32, name: &str, path: &str, owner: &str) -> (row: Self)
        ensures
            row@ == (RowModel { pid, name: name@, path: path@, owner: owner@ }),
    {
        ProcessRow {
            pid,
            name: String::from_str(name),
            path: String::from_str(path),
            owner: String::from_str(owner),
        }
    }

    /// The row for a snapshot record.
    pub fn from_record(record: &ProcessRecord) -> (row: Self)
        ensures
            row@ == row_of(*record),
    {
        ProcessRow {
            pid: record.pid,
            name: record.name.clone(),
            path: owned_or_unknown(&record.path),
            owner: owned_or_unknown(&record.owner),
        }
    }
}

impl Clone for ProcessRow {
    fn clone(&self) -> (row: Self)
        ensures
            row@ == self@,
    {
        ProcessRow {
            pid: self.pid,
            name: self.name.clone(),
            path: self.path.clone(),
            owner: self.owner.clone(),
        }
    }
}

} // verus!
