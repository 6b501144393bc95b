//! One record per direct child of a listed directory, built from what the
//! caller read of each child, with a fallback for every kind of failure.
use vstd::prelude::*;
use crate::units::{binary_units, convert_binary_units};

verus! {

/// Whether a listed entry is a directory.
#[derive(Clone, Copy, Debug, PartialEq, Eq, Structural)]
pub enum FileType {
    File,
    Directory,
}

/// The label of each entry type.
pub open spec fn type_label(t: FileType) -> Seq<char> {
    match t {
        FileType::File => seq!['F', 'i', 'l', 'e'],
        FileType::Directory => seq!['D', 'i', 'r', 'e', 'c', 't', 'o', 'r', 'y'],
    }
}

impl FileType {
    /// `File` or `Directory`.
    pub fn label(&self) -> (r: String)
        ensures
            r@ == type_label(*self),
    {
        match self {
            FileType::File => {
                proof { reveal_strlit("File"); }
                String::from_str("File")
            },
            FileType::Directory => {
                proof { reveal_strlit("Directory"); }
                String::from_str("Directory")
            },
        }
    }
}

/// One line of a listing.
pub struct FileMetadata {
    pub name: String,
    pub ftype: FileType,
    pub size: String,
    pub modified: String,
}

/// The size that was found for an entry.
#[derive(Clone, Copy, Debug, PartialEq, Eq, Structural)]
pub enum EntrySize {
    /// Not a directory: its own length in bytes.
    File(u64),
    /// A directory with no entries at all.
    EmptyDir,
    /// A directory with entries, and the bytes found under it.
    DirTotal(u64),
    /// A directory that could not be read.
    UnreadableDir,
}

/// What was read of one direct child of the listed directory.
pub struct EntryProbe {
    /// Its base name, or `None` where that name is not valid text.
    pub name: Option<String>,
    pub size: EntrySize,
    /// Its modification time in whole seconds since the Unix epoch, where readable.
    pub modified: Option<i64>,
}

/// The text shown for a name that is not valid text.
pub open spec fn placeholder() -> Seq<char> {
    seq!['?', '?', '?']
}

pub open spec fn name_text(name: Option<String>) -> Seq<char> {
    match name {
        Some(s) => s@,
        None => placeholder(),
    }
}

pub open spec fn type_of(size: EntrySize) -> FileType {
    match size {
        EntrySize::File(_) => FileType::File,
        _ => FileType::Directory,
    }
}

/// A file shows its length; a directory shows the bytes under it, or `0B`
/// where it is empty or could not be read.
pub open spec fn size_text(size: EntrySize) -> Seq<char> {
    match size {
        EntrySize::File(n) => binary_units(n as nat),
        EntrySize::DirTotal(n) => binary_units(n as nat),
        _ => seq!['0', 'B'],
    }
}

/// The date of a time as chrono renders it with the pattern `%a %e %b %y`
/// (short weekday, day of month, short month, two-digit year).
pub uninterp spec fn day_text(secs: int) -> Seq<char>;

/// The last second for which the date is known to be shown.
pub const DATED_UNTIL: i64 = 1_000_000_000_000;

/// Relies on chrono's `DateTime::<Utc>::from_timestamp`, which is `None` only
/// outside its range of dates (years up to 262142, far past `DATED_UNTIL`), and
/// on `DateTime::format` with the pattern that `day_text` names.
#[verifier::external_body]
fn format_day(secs: i64) -> (r: Option<String>)
    ensures
        r matches Some(t) ==> t@ == day_text(secs as int),
        0 <= secs <= DATED_UNTIL ==> r is Some,
{
    match chrono::DateTime::<chrono::Utc>::from_timestamp(secs, 0) {
        Some(d) => Some(d.format("%a %e %b %y").to_string()),
        None => None,
    }
}

/// What may be shown as the modification date: nothing without a time; the
/// time's date, which is owed from the epoch up to `DATED_UNTIL`, or nothing.
pub open spec fn modified_fits(modified: Option<i64>, t: Seq<char>) -> bool {
    match modified {
        None => t.len() == 0,
        Some(secs) => (t == day_text(secs as int) || t.len() == 0)
            && (0 <= secs <= DATED_UNTIL ==> t == day_text(secs as int)),
    }
}

/// The text of an entry's modification date; empty where there is none.
pub fn modified_text(modified: Option<i64>) -> (r: String)
    ensures
        modified_fits(modified, r@),
{
    match modified {
        Some(secs) => match format_day(secs) {
            Some(t) => t,
            None => String::new(),
        },
        None => String::new(),
    }
}

/// Whether `rec` is the record of `p` with the given modification text.
pub open spec fn record_of(rec: FileMetadata, p: EntryProbe, modified: Seq<char>) -> bool {
    &&& rec.name@ == name_text(p.name)
    &&& rec.ftype == type_of(p.size)
    &&& rec.size@ == size_text(p.size)
    &&& rec.modified@ == modified
}

/// Whether `rec` is a record that may be shown for `p`.
pub open spec fn describes(rec: FileMetadata, p: EntryProbe) -> bool {
    record_of(rec, p, rec.modified@) && modified_fits(p.modified, rec.modified@)
}

/// The record of one entry, with its modification text already rendered.
pub fn entry_record(p: &EntryProbe, modified: String) -> (r: FileMetadata)
    ensures
        record_of(r, *p, modified@),
{
    let name = match &p.name {
        Some(s) => s.clone(),
        None => {
            proof { reveal_strlit("???"); }
            let q = String::from_str("???");
            assert(q@ =~= placeholder());
            q
        },
    };
    let size = match p.size {
        EntrySize::File(n) => convert_binary_units(n),
        EntrySize::DirTotal(n) => convert_binary_units(n),
        _ => {
            proof { reveal_strlit("0B"); }
            let z = String::from_str("0B");
            assert(z@ =~= seq!['0', 'B']);
            z
        },
    };
    let ftype = match p.size {
        EntrySize::File(_) => FileType::File,
        _ => FileType::Directory,
    };
    FileMetadata { name, ftype, size, modified }
}

/// The entries that make it into a listing: those that could be read, in order.
pub open spec fn kept(s: Seq<Option<EntryProbe>>) -> Seq<EntryProbe>
    decreases s.len(),
{
    if s.len() == 0 {
        Seq::empty()
    } else {
        let k = kept(s.drop_last());
        match s.last() {
            Some(p) => k.push(p),
            None => k,
        }
    }
}

/// Builds the listing: one record for each readable entry, in the order given;
/// an entry that could not be read (`None`) is left out.
pub fn collect_records(probes: &Vec<Option<EntryProbe>>) -> (r: Vec<FileMetadata>)
    ensures
        r@.len() == kept(probes@).len(),
        forall|j: int| 0 <= j < r@.len() ==> describes(#[trigger] r@[j], kept(probes@)[j]),
{
    let mut data: Vec<FileMetadata> = Vec::new();
    let mut i: usize = 0;
    while i < probes.len()
        invariant
            i <= probes@.len(),
            data@.len() == kept(probes@.take(i as int)).len(),
            forall|j: int|
                0 <= j < data@.len() ==> describes(#[trigger] data@[j], kept(probes@.take(i as int))[j]),
        decreases probes@.len() - i,
    {
        proof {
            assert(probes@.take(i as int + 1).drop_last() =~= probes@.take(i as int));
        }
        match &probes[i] {
            Some(p) => {
                let rec = entry_record(p, modified_text(p.modified));
                data.push(rec);
            },
            None => {},
        }
        i = i + 1;
    }
    assert(probes@.take(probes@.len() as int) =~= probes@);
    data
}

/// An entry that could not be read is left out of the listing and changes
/// nothing else in it.
pub proof fn lemma_unreadable_omitted(s: Seq<Option<EntryProbe>>, i: int)
    requires
        0 <= i <= s.len(),
    ensures
        kept(s.insert(i, None)) == kept(s),
    decreases s.len() - i,
{
    let t = s.insert(i, None);
    if i == s.len() {
        assert(t.drop_last() =~= s);
    } else {
        lemma_unreadable_omitted(s.drop_last(), i);
        assert(t.drop_last() =~= s.drop_last().insert(i, None));
        assert(t.last() == s.last());
    }
}

} // verus!
