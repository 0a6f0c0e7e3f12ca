//! One immediate child of the listed directory.

use vstd::prelude::*;
use crate::owner::{get_owner, is_owner_text};
use crate::permissions::FileKind;
use crate::time::{
    is_local_time_text, system_time_to_human_time, time_label, unknown_time_text,
};

verus! {

/// An entry as the listing holds it: what was read of it from the file
/// system, and the two texts that were looked up for it.
#[derive(Clone, Debug, PartialEq, Eq)]
pub struct DirectoryEntry {
    /// The base name.
    pub name: String,
    /// What kind of object it is.
    pub file_kind: FileKind,
    /// The raw mode: the permission bits and the three special bits.
    pub permission_bits: u32,
    /// The numeric id of the owner.
    pub owner_id: u32,
    /// The owner as shown: the user name, or the id where none was found.
    pub owner_name: String,
    /// The size in bytes.
    pub size_bytes: u64,
    /// When it was last modified, in seconds since the epoch.
    pub modified_at: u64,
    /// That instant as shown, in local time.
    pub modified_text: String,
}

/// The mathematical value of a `DirectoryEntry`.
pub struct EntryModel {
    pub name: Seq<char>,
    pub file_kind: FileKind,
    pub permission_bits: u32,
    pub owner_id: u32,
    pub owner_name: Seq<char>,
    pub size_bytes: u64,
    pub modified_at: u64,
    pub modified_text: Seq<char>,
}

impl EntryModel {
    /// Whether the entry counts as a directory when entries are grouped.
    pub open spec fn is_directory(self) -> bool {
        self.file_kind == FileKind::Directory
    }

    /// Whether the entry is hidden: its name begins with a dot.
    pub open spec fn is_hidden(self) -> bool {
        self.name.len() > 0 && self.name[0] == '.'
    }
}

impl View for DirectoryEntry {
    type V = EntryModel;

    open spec fn view(&self) -> EntryModel {
        EntryModel {
            name: self.name@,
            file_kind: self.file_kind,
            permission_bits: self.permission_bits,
            owner_id: self.owner_id,
            owner_name: self.owner_name@,
            size_bytes: self.size_bytes,
            modified_at: self.modified_at,
            modified_text: self.modified_text@,
        }
    }
}

impl DeepView for DirectoryEntry {
    type V = EntryModel;

    open spec fn deep_view(&self) -> EntryModel {
        self@
    }
}

impl DirectoryEntry {
    /// Builds the entry of a child from what the file system holds of it.
    /// The owner is looked up on the machine. The modification time is
    /// shown in local time, which is `ahead` seconds ahead of universal time
    /// at that instant. Where the file system gave no modification time,
    /// `modified_at` is `None`: the entry then holds the epoch and shows the
    /// placeholder.
    pub fn from_metadata(
        name: String,
        file_kind: FileKind,
        permission_bits: u32,
        owner_id: u32,
        size_bytes: u64,
        modified_at: Option<u64>,
        ahead: Option<i32>,
    ) -> (entry: DirectoryEntry)
        ensures
            entry@.name == name@,
            entry@.file_kind == file_kind,
            entry@.permission_bits == permission_bits,
            entry@.owner_id == owner_id,
            entry@.size_bytes == size_bytes,
            is_owner_text(owner_id, entry@.owner_name),
            match modified_at {
                Some(seconds) => entry@.modified_at == seconds && is_local_time_text(
                    entry@.modified_text,
                    seconds,
                    ahead,
                ),
                None => entry@.modified_at == 0 && entry@.modified_text == unknown_time_text(),
            },
    {
        let owner_name = get_owner(owner_id);
        let (seconds, modified_text) = match modified_at {
            Some(seconds) => (seconds, system_time_to_human_time(seconds, ahead)),
            None => (0, time_label(None)),
        };
        DirectoryEntry {
            name,
            file_kind,
            permission_bits,
            owner_id,
            owner_name,
            size_bytes,
            modified_at: seconds,
            modified_text,
        }
    }

    /// Whether the entry counts as a directory when entries are grouped.
    pub fn is_directory(&self) -> (b: bool)
        ensures
            b == self@.is_directory(),
    {
        match self.file_kind {
            FileKind::Directory => true,
            _ => false,
        }
    }

    /// Whether the entry is hidden: its name begins with a dot.
    pub fn is_hidden(&self) -> (b: bool)
        ensures
            b == self@.is_hidden(),
    {
        let name = self.name.as_str();
        !name.is_empty() && name.get_char(0) == '.'
    }
}

} // verus!
