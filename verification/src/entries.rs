//! Scanned filesystem entries: classification into files and directories,
//! and the retention filter that selects deletion candidates.

use vstd::prelude::*;

verus! {

/// Classification of a scanned item: a directory, or anything else.
#[derive(Clone, Copy, PartialEq, Eq, Structural, Debug)]
pub enum EntryKind {
    File,
    Directory,
}

/// One scanned filesystem item: its path, its kind, its size in bytes
/// (direct size for a file, recursive aggregate for a directory), and its
/// creation time in whole seconds since the Unix epoch.
#[derive(Debug)]
pub struct Entry {
    pub path: String,
    pub kind: EntryKind,
    pub size: u64,
    pub created_at: u64,
}

impl Clone for Entry {
    fn clone(&self) -> (r: Self)
        ensures
            r == *self,
    {
        Entry {
            path: self.path.clone(),
            kind: self.kind,
            size: self.size,
            created_at: self.created_at,
        }
    }
}

/// Retention threshold in seconds: seven days.
pub const SEVEN_DAYS_SECS: u64 = 604800;

pub open spec fn is_file(e: Entry) -> bool {
    e.kind == EntryKind::File
}

pub open spec fn is_directory(e: Entry) -> bool {
    e.kind == EntryKind::Directory
}

/// A directory is considered for deletion when strictly more than seven days
/// have elapsed between its creation and `now`. An entry created at or after
/// `now` is never considered.
pub open spec fn spec_considered(e: Entry, now: u64) -> bool {
    now - e.created_at > SEVEN_DAYS_SECS
}

pub open spec fn spec_files_of(entries: Seq<Entry>) -> Seq<Entry> {
    entries.filter(|e: Entry| is_file(e))
}

pub open spec fn spec_directories_of(entries: Seq<Entry>) -> Seq<Entry> {
    entries.filter(|e: Entry| is_directory(e))
}

pub open spec fn spec_considered_of(directories: Seq<Entry>, now: u64) -> Seq<Entry> {
    directories.filter(|e: Entry| spec_considered(e, now))
}

/// Build the record for one scanned child, classified by the directory flag
/// of its metadata.
pub fn make_entry(path: String, is_dir: bool, size: u64, created_at: u64) -> (e: Entry)
    ensures
        e.path == path,
        e.kind == (if is_dir { EntryKind::Directory } else { EntryKind::File }),
        e.size == size,
        e.created_at == created_at,
{
    let kind = if is_dir { EntryKind::Directory } else { EntryKind::File };
    Entry { path, kind, size, created_at }
}

/// Split the scanned entries into files and directories, each sequence in
/// the original scan order.
pub fn get_files_directories_list(entries: &Vec<Entry>) -> (r: (Vec<Entry>, Vec<Entry>))
    ensures
        r.0@ == spec_files_of(entries@),
        r.1@ == spec_directories_of(entries@),
{
    let mut files: Vec<Entry> = Vec::new();
    let mut directories: Vec<Entry> = Vec::new();
    let n = entries.len();
    let mut i: usize = 0;
    while i < n
        invariant
            i <= n,
            n == entries@.len(),
            files@ == spec_files_of(entries@.subrange(0, i as int)),
            directories@ == spec_directories_of(entries@.subrange(0, i as int)),
        decreases n - i,
    {
        let e = &entries[i];
        if e.kind == EntryKind::Directory {
            directories.push(e.clone());
        } else {
            files.push(e.clone());
        }
        proof {
            reveal(Seq::filter);
            assert(entries@.subrange(0, i + 1 as int).drop_last() =~= entries@.subrange(
                0,
                i as int,
            ));
            assert(entries@.subrange(0, i + 1 as int).last() == entries@[i as int]);
        }
        i += 1;
    }
    proof {
        assert(entries@.subrange(0, n as int) =~= entries@);
    }
    (files, directories)
}

/// Select the directories older than the retention threshold, preserving
/// their relative order.
pub fn get_considered_directories(directories: &Vec<Entry>, now: u64) -> (r: Vec<Entry>)
    ensures
        r@ == spec_considered_of(directories@, now),
{
    let mut considered: Vec<Entry> = Vec::new();
    let n = directories.len();
    let mut i: usize = 0;
    while i < n
        invariant
            i <= n,
            n == directories@.len(),
            considered@ == spec_considered_of(directories@.subrange(0, i as int), now),
        decreases n - i,
    {
        let e = &directories[i];
        if e.created_at <= u64::MAX - SEVEN_DAYS_SECS && now > e.created_at + SEVEN_DAYS_SECS {
            considered.push(e.clone());
        }
        proof {
            reveal(Seq::filter);
            assert(directories@.subrange(0, i + 1 as int).drop_last() =~= directories@.subrange(
                0,
                i as int,
            ));
            assert(directories@.subrange(0, i + 1 as int).last() == directories@[i as int]);
        }
        i += 1;
    }
    proof {
        assert(directories@.subrange(0, n as int) =~= directories@);
    }
    considered
}

/// The retention boundary is strict: an entry younger than seven days, or
/// exactly seven days old, is kept; one strictly older is considered.
pub proof fn lemma_retention_boundary(e: Entry, now: u64)
    ensures
        now - e.created_at < SEVEN_DAYS_SECS ==> !spec_considered(e, now),
        now - e.created_at == SEVEN_DAYS_SECS ==> !spec_considered(e, now),
        now - e.created_at > SEVEN_DAYS_SECS ==> spec_considered(e, now),
{
}

/// With nothing scanned there are no files, no directories, and no deletion
/// candidates: the run stops at the zero-candidates branch.
pub proof fn lemma_no_entries_zero_candidates(now: u64)
    ensures
        spec_files_of(Seq::<Entry>::empty()) =~= Seq::<Entry>::empty(),
        spec_directories_of(Seq::<Entry>::empty()) =~= Seq::<Entry>::empty(),
        spec_considered_of(Seq::<Entry>::empty(), now) =~= Seq::<Entry>::empty(),
{
    reveal(Seq::filter);
}

} // verus!
