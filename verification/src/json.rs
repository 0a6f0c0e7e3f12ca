//! The records of the JSON output: one object for each entry.

use vstd::prelude::*;
use vstd::string::*;
use crate::entry::{DirectoryEntry, EntryModel};
use crate::permissions::{get_permissions_string, permissions_text};

verus! {

/// What the JSON output holds of one entry. All six fields are always there,
/// whichever columns are asked for.
#[derive(Clone, Debug, PartialEq, Eq)]
pub struct Entry {
    /// The permission string.
    pub permissions: String,
    /// The numeric id of the owner.
    pub owner_uid: u32,
    /// The owner as shown.
    pub owner: String,
    /// The size in bytes, as the file system reports it.
    pub size_in_bytes: u64,
    /// When the entry was last modified, in seconds since the epoch.
    pub date_modified: u64,
    /// The base name.
    pub name: String,
}

/// The mathematical value of an `Entry`.
pub struct Record {
    pub permissions: Seq<char>,
    pub owner_uid: u32,
    pub owner: Seq<char>,
    pub size_in_bytes: u64,
    pub date_modified: u64,
    pub name: Seq<char>,
}

impl View for Entry {
    type V = Record;

    open spec fn view(&self) -> Record {
        Record {
            permissions: self.permissions@,
            owner_uid: self.owner_uid,
            owner: self.owner@,
            size_in_bytes: self.size_in_bytes,
            date_modified: self.date_modified,
            name: self.name@,
        }
    }
}

impl DeepView for Entry {
    type V = Record;

    open spec fn deep_view(&self) -> Record {
        self@
    }
}

/// The record of an entry.
pub open spec fn record_of(entry: EntryModel) -> Record {
    Record {
        permissions: permissions_text(entry.file_kind, entry.permission_bits),
        owner_uid: entry.owner_id,
        owner: entry.owner_name,
        size_in_bytes: entry.size_bytes,
        date_modified: entry.modified_at,
        name: entry.name,
    }
}

/// The records of the entries, in their order.
pub open spec fn records_of(entries: Seq<EntryModel>) -> Seq<Record> {
    entries.map_values(|entry: EntryModel| record_of(entry))
}

/// The JSON output holds one record for each listed entry, and each record
/// holds the size of its entry unchanged.
pub proof fn law_records_keep_count_and_size(entries: Seq<EntryModel>, i: int)
    requires
        0 <= i < entries.len(),
    ensures
        records_of(entries).len() == entries.len(),
        records_of(entries)[i].size_in_bytes == entries[i].size_bytes,
        records_of(entries)[i].name == entries[i].name,
{
}

/// The record of an entry.
pub fn to_entry(entry: &DirectoryEntry) -> (record: Entry)
    ensures
        record@ == record_of(entry@),
{
    Entry {
        permissions: get_permissions_string(entry.file_kind, entry.permission_bits),
        owner_uid: entry.owner_id,
        owner: entry.owner_name.clone(),
        size_in_bytes: entry.size_bytes,
        date_modified: entry.modified_at,
        name: entry.name.clone(),
    }
}

/// The records of the entries, in their order.
pub fn to_entries(entries: &Vec<DirectoryEntry>) -> (records: Vec<Entry>)
    ensures
        records.deep_view() == records_of(entries.deep_view()),
        records.len() == entries.len(),
{
    let mut records: Vec<Entry> = Vec::new();
    let mut i: usize = 0;
    while i < entries.len()
        invariant
            i <= entries.len(),
            records.len() == i,
            forall|k: int| 0 <= k < i ==> (#[trigger] records@[k])@ == record_of(entries@[k]@),
        decreases entries.len() - i,
    {
        records.push(to_entry(&entries[i]));
        i = i + 1;
    }
    assert(records.deep_view() =~= records_of(entries.deep_view()));
    records
}

} // verus!
