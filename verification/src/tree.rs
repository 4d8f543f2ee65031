use vstd::prelude::*;

verus! {

/// Why an operation on the file system failed, as far as the engine tells
/// failures apart.
#[derive(Clone, Copy, Debug, PartialEq, Eq, Structural)]
pub enum IoErrorKind {
    NotFound,
    PermissionDenied,
    AlreadyExists,
    InvalidInput,
    Interrupted,
    Other,
}

/// A snapshot of one entry of a directory, taken before the engine computes
/// anything. A failure met while the snapshot was taken is kept where it
/// occurred: the size of a file whose metadata could not be read, the
/// listing of a directory that could not be listed.
#[derive(Debug)]
pub enum Entry {
    File { name: String, size: Result<u64, IoErrorKind> },
    Directory { name: String, listing: Result<Vec<Entry>, IoErrorKind> },
}

/// A name as a listing gives it: not empty, without a separator, and
/// neither `.` nor `..`.
pub open spec fn plain_name(name: Seq<char>) -> bool {
    &&& name.len() > 0
    &&& forall|i: int| 0 <= i < name.len() ==> name[i] != '/'
    &&& name != seq!['.']
    &&& name != seq!['.', '.']
}

impl Entry {
    /// Every entry below and at this one has a plain name.
    pub open spec fn plain_names(self) -> bool
        decreases self, 0nat,
    {
        plain_name(self.name()) && match self {
            Entry::Directory { listing: Ok(children), .. } => plain_names_from(children@, 0),
            _ => true,
        }
    }

    /// The name of the entry inside its directory.
    pub open spec fn name(self) -> Seq<char> {
        match self {
            Entry::File { name, .. } => name@,
            Entry::Directory { name, .. } => name@,
        }
    }

    /// Number of entries below and at this entry.
    pub open spec fn all_entries(self) -> nat
        decreases self, 0nat,
    {
        match self {
            Entry::Directory { listing: Ok(children), .. } => 1 + all_entries_from(children@, 0),
            _ => 1,
        }
    }

    /// Number of files below (or at) this entry, whatever their type, failed
    /// listings counting as empty.
    pub open spec fn all_files(self) -> nat
        decreases self, 0nat,
    {
        match self {
            Entry::File { .. } => 1,
            Entry::Directory { listing: Ok(children), .. } => all_files_from(children@, 0),
            Entry::Directory { .. } => 0,
        }
    }

    /// Sum of the sizes of the files below (or at) this entry whose size is
    /// known.
    pub open spec fn all_bytes(self) -> nat
        decreases self, 0nat,
    {
        match self {
            Entry::File { size: Ok(n), .. } => n as nat,
            Entry::File { .. } => 0,
            Entry::Directory { listing: Ok(children), .. } => all_bytes_from(children@, 0),
            Entry::Directory { .. } => 0,
        }
    }
}

/// `plain_names` of every entry of `entries[from..]`.
pub open spec fn plain_names_from(entries: Seq<Entry>, from: nat) -> bool
    decreases entries, entries.len() - from,
{
    from >= entries.len() || (entries[from as int].plain_names() && plain_names_from(
        entries,
        from + 1,
    ))
}

/// `all_entries` summed over `entries[from..]`.
pub open spec fn all_entries_from(entries: Seq<Entry>, from: nat) -> nat
    decreases entries, entries.len() - from,
{
    if from >= entries.len() {
        0
    } else {
        entries[from as int].all_entries() + all_entries_from(entries, from + 1)
    }
}

/// `all_files` summed over `entries[from..]`.
pub open spec fn all_files_from(entries: Seq<Entry>, from: nat) -> nat
    decreases entries, entries.len() - from,
{
    if from >= entries.len() {
        0
    } else {
        entries[from as int].all_files() + all_files_from(entries, from + 1)
    }
}

/// `all_bytes` summed over `entries[from..]`.
pub open spec fn all_bytes_from(entries: Seq<Entry>, from: nat) -> nat
    decreases entries, entries.len() - from,
{
    if from >= entries.len() {
        0
    } else {
        entries[from as int].all_bytes() + all_bytes_from(entries, from + 1)
    }
}

} // verus!
