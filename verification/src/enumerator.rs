use crate::filter::{is_file_accepted, passes_filter, type_accepted};
use crate::tree::{all_bytes_from, all_entries_from, all_files_from, Entry, IoErrorKind};
use vstd::prelude::*;

verus! {

/// What the enumerator returns: how many files the filter accepts and how
/// many bytes they hold together.
#[derive(Clone, Copy, Debug, PartialEq, Eq, Structural)]
pub struct Totals {
    pub file_count: usize,
    pub byte_size: u64,
}

/// The outcome of counting, as mathematical values: the number of accepted
/// files and the sum of their sizes, or the first failure met.
pub type Tally = Result<(nat, nat), IoErrorKind>;

/// Counting one part of the tree and then another: the first failure wins,
/// otherwise the counts and the sizes add up.
pub open spec fn merge(first: Tally, second: Tally) -> Tally {
    match first {
        Err(kind) => Err(kind),
        Ok(a) => match second {
            Err(kind) => Err(kind),
            Ok(b) => Ok((a.0 + b.0, a.1 + b.1)),
        },
    }
}

/// The tally of one entry. A file counts once, with its size, if the filter
/// accepts its name, and fails the count if it is accepted and its size is
/// unknown. A directory is never counted itself: its tally is that of its
/// entries, taken in the order of the listing, and it fails the count if it
/// could not be listed.
pub open spec fn tally(entry: Entry, type_files: Seq<String>) -> Tally
    decreases entry, 0nat,
{
    match entry {
        Entry::File { name, size } => if passes_filter(name@, type_files) {
            match size {
                Ok(n) => Ok((1, n as nat)),
                Err(kind) => Err(kind),
            }
        } else {
            Ok((0, 0))
        },
        Entry::Directory { listing: Ok(children), .. } => tally_from(children@, 0, type_files),
        Entry::Directory { listing: Err(kind), .. } => Err(kind),
    }
}

/// The tally of `entries[from..]`, in order.
pub open spec fn tally_from(entries: Seq<Entry>, from: nat, type_files: Seq<String>) -> Tally
    decreases entries, entries.len() - from,
{
    if from >= entries.len() {
        Ok((0, 0))
    } else {
        merge(tally(entries[from as int], type_files), tally_from(entries, from + 1, type_files))
    }
}

/// The tally of a whole source. A source that is not a directory holds
/// nothing to count.
pub open spec fn source_tally(source: Entry, type_files: Seq<String>) -> Tally {
    match source {
        Entry::File { .. } => Ok((0, 0)),
        Entry::Directory { .. } => tally(source, type_files),
    }
}

/// Number of files below (or at) `entry` that the filter accepts.
pub open spec fn accepted_files(entry: Entry, type_files: Seq<String>) -> nat
    decreases entry, 0nat,
{
    match entry {
        Entry::File { name, .. } => if passes_filter(name@, type_files) {
            1
        } else {
            0
        },
        Entry::Directory { listing: Ok(children), .. } => accepted_files_from(
            children@,
            0,
            type_files,
        ),
        Entry::Directory { .. } => 0,
    }
}

/// `accepted_files` summed over `entries[from..]`.
pub open spec fn accepted_files_from(entries: Seq<Entry>, from: nat, type_files: Seq<String>)
    -> nat
    decreases entries, entries.len() - from,
{
    if from >= entries.len() {
        0
    } else {
        accepted_files(entries[from as int], type_files) + accepted_files_from(
            entries,
            from + 1,
            type_files,
        )
    }
}

/// Sum of the known sizes of the files below (or at) `entry` that the
/// filter accepts.
pub open spec fn accepted_bytes(entry: Entry, type_files: Seq<String>) -> nat
    decreases entry, 0nat,
{
    match entry {
        Entry::File { name, size: Ok(n) } => if passes_filter(name@, type_files) {
            n as nat
        } else {
            0
        },
        Entry::File { .. } => 0,
        Entry::Directory { listing: Ok(children), .. } => accepted_bytes_from(
            children@,
            0,
            type_files,
        ),
        Entry::Directory { .. } => 0,
    }
}

/// `accepted_bytes` summed over `entries[from..]`.
pub open spec fn accepted_bytes_from(entries: Seq<Entry>, from: nat, type_files: Seq<String>)
    -> nat
    decreases entries, entries.len() - from,
{
    if from >= entries.len() {
        0
    } else {
        accepted_bytes(entries[from as int], type_files) + accepted_bytes_from(
            entries,
            from + 1,
            type_files,
        )
    }
}

/// A count that succeeds gives the number of files that the filter accepts,
/// directories never counted, and the sum of their sizes.
pub proof fn lemma_tally_counts_accepted(entry: Entry, type_files: Seq<String>)
    ensures
        match tally(entry, type_files) {
            Ok(sums) => sums.0 == accepted_files(entry, type_files) && sums.1 == accepted_bytes(
                entry,
                type_files,
            ),
            Err(_) => true,
        },
    decreases entry, 0nat,
{
    match entry {
        Entry::Directory { listing: Ok(children), .. } => {
            lemma_tally_from_counts_accepted(children@, 0, type_files);
        },
        _ => {},
    }
}

/// The same for a run of entries.
pub proof fn lemma_tally_from_counts_accepted(
    entries: Seq<Entry>,
    from: nat,
    type_files: Seq<String>,
)
    ensures
        match tally_from(entries, from, type_files) {
            Ok(sums) => sums.0 == accepted_files_from(entries, from, type_files) && sums.1
                == accepted_bytes_from(entries, from, type_files),
            Err(_) => true,
        },
    decreases entries, entries.len() - from,
{
    if from < entries.len() {
        lemma_tally_counts_accepted(entries[from as int], type_files);
        lemma_tally_from_counts_accepted(entries, from + 1, type_files);
    }
}

/// An empty filter accepts every file: what it counts is every file of the
/// tree.
pub proof fn lemma_empty_filter_accepts_all(entry: Entry, type_files: Seq<String>)
    requires
        type_files.len() == 0,
    ensures
        accepted_files(entry, type_files) == entry.all_files(),
        accepted_bytes(entry, type_files) == entry.all_bytes(),
    decreases entry, 0nat,
{
    match entry {
        Entry::Directory { listing: Ok(children), .. } => {
            lemma_empty_filter_accepts_all_from(children@, 0, type_files);
        },
        _ => {},
    }
}

/// The same for a run of entries.
pub proof fn lemma_empty_filter_accepts_all_from(
    entries: Seq<Entry>,
    from: nat,
    type_files: Seq<String>,
)
    requires
        type_files.len() == 0,
    ensures
        accepted_files_from(entries, from, type_files) == all_files_from(entries, from),
        accepted_bytes_from(entries, from, type_files) == all_bytes_from(entries, from),
    decreases entries, entries.len() - from,
{
    if from < entries.len() {
        lemma_empty_filter_accepts_all(entries[from as int], type_files);
        lemma_empty_filter_accepts_all_from(entries, from + 1, type_files);
    }
}

/// With an empty filter, a count of a directory that succeeds is the number
/// of files of the tree, directories left out, and the sum of their sizes.
pub proof fn lemma_count_without_filter(source: Entry, type_files: Seq<String>)
    requires
        source is Directory,
        type_files.len() == 0,
        source_tally(source, type_files) is Ok,
    ensures
        source_tally(source, type_files) == Ok::<(nat, nat), IoErrorKind>(
            (source.all_files(), source.all_bytes()),
        ),
{
    lemma_tally_counts_accepted(source, type_files);
    lemma_empty_filter_accepts_all(source, type_files);
}

/// With a filter that is not empty, a count of a directory that succeeds is
/// the number of files whose extension, written with its dot, the filter
/// lists, and the sum of their sizes.
pub proof fn lemma_count_with_filter(source: Entry, type_files: Seq<String>)
    requires
        source is Directory,
        type_files.len() > 0,
        source_tally(source, type_files) is Ok,
    ensures
        source_tally(source, type_files) == Ok::<(nat, nat), IoErrorKind>(
            (accepted_files(source, type_files), accepted_bytes(source, type_files)),
        ),
        forall|path: Seq<char>| #[trigger]
            passes_filter(path, type_files) <==> type_accepted(path, type_files),
{
    lemma_tally_counts_accepted(source, type_files);
}

/// What the filter accepts of a tree fits the machine's integers: the
/// number of the accepted files, and the sum of their sizes.
pub open spec fn within_limits(source: Entry, type_files: Seq<String>) -> bool {
    accepted_files(source, type_files) <= usize::MAX && accepted_bytes(source, type_files)
        <= u64::MAX
}

/// `result` is the exact image of `expected`.
pub open spec fn totals_match(result: Result<Totals, IoErrorKind>, expected: Tally) -> bool {
    match (result, expected) {
        (Ok(totals), Ok(sums)) => totals.file_count == sums.0 && totals.byte_size == sums.1,
        (Err(got), Err(kind)) => got == kind,
        _ => false,
    }
}

/// The tally of a work stack: the entry on top is counted first.
pub closed spec fn tally_stack(stack: Seq<&Entry>, type_files: Seq<String>) -> Tally
    decreases stack.len(),
{
    if stack.len() == 0 {
        Ok((0, 0))
    } else {
        merge(tally(*stack.last(), type_files), tally_stack(stack.drop_last(), type_files))
    }
}

/// `all_entries` summed over a work stack.
pub closed spec fn all_entries_stack(stack: Seq<&Entry>) -> nat
    decreases stack.len(),
{
    if stack.len() == 0 {
        0
    } else {
        stack.last().all_entries() + all_entries_stack(stack.drop_last())
    }
}

/// `accepted_files` summed over a work stack.
pub closed spec fn accepted_files_stack(stack: Seq<&Entry>, type_files: Seq<String>) -> nat
    decreases stack.len(),
{
    if stack.len() == 0 {
        0
    } else {
        accepted_files(*stack.last(), type_files) + accepted_files_stack(
            stack.drop_last(),
            type_files,
        )
    }
}

/// `accepted_bytes` summed over a work stack.
pub closed spec fn accepted_bytes_stack(stack: Seq<&Entry>, type_files: Seq<String>) -> nat
    decreases stack.len(),
{
    if stack.len() == 0 {
        0
    } else {
        accepted_bytes(*stack.last(), type_files) + accepted_bytes_stack(
            stack.drop_last(),
            type_files,
        )
    }
}

/// Puts the entries of a listing on the work stack, the first on top.
fn push_children<'a>(
    stack: &mut Vec<&'a Entry>,
    children: &'a Vec<Entry>,
    Ghost(type_files): Ghost<Seq<String>>,
)
    ensures
        tally_stack(final(stack)@, type_files) == merge(
            tally_from(children@, 0, type_files),
            tally_stack(old(stack)@, type_files),
        ),
        all_entries_stack(final(stack)@) == all_entries_from(children@, 0) + all_entries_stack(
            old(stack)@,
        ),
        accepted_files_stack(final(stack)@, type_files) == accepted_files_from(
            children@,
            0,
            type_files,
        ) + accepted_files_stack(old(stack)@, type_files),
        accepted_bytes_stack(final(stack)@, type_files) == accepted_bytes_from(
            children@,
            0,
            type_files,
        ) + accepted_bytes_stack(old(stack)@, type_files),
{
    let ghost below = stack@;
    let mut i: usize = children.len();
    while i > 0
        invariant
            i <= children.len(),
            tally_stack(stack@, type_files) == merge(
                tally_from(children@, i as nat, type_files),
                tally_stack(below, type_files),
            ),
            all_entries_stack(stack@) == all_entries_from(children@, i as nat)
                + all_entries_stack(below),
            accepted_files_stack(stack@, type_files) == accepted_files_from(
                children@,
                i as nat,
                type_files,
            ) + accepted_files_stack(below, type_files),
            accepted_bytes_stack(stack@, type_files) == accepted_bytes_from(
                children@,
                i as nat,
                type_files,
            ) + accepted_bytes_stack(below, type_files),
        decreases i,
    {
        i = i - 1;
        let ghost before = stack@;
        stack.push(&children[i]);
        assert(stack@.drop_last() == before);
    }
}

/// Tells whether what the filter accepts of `source` fits the machine's
/// integers, which is what `calculate_total_files` asks of its input.
pub fn fits_machine_limits(source: &Entry, type_files: &Vec<String>) -> (fits: bool)
    ensures
        fits == within_limits(*source, type_files@),
{
    let mut stack: Vec<&Entry> = Vec::new();
    let mut files: usize = 0;
    let mut bytes: u64 = 0;
    stack.push(source);
    assert(stack@.drop_last() =~= Seq::<&Entry>::empty());
    assert(accepted_files_stack(stack@.drop_last(), type_files@) == 0 && accepted_bytes_stack(
        stack@.drop_last(),
        type_files@,
    ) == 0 && all_entries_stack(stack@.drop_last()) == 0);
    while stack.len() > 0
        invariant
            files + accepted_files_stack(stack@, type_files@) == accepted_files(
                *source,
                type_files@,
            ),
            bytes + accepted_bytes_stack(stack@, type_files@) == accepted_bytes(
                *source,
                type_files@,
            ),
        decreases all_entries_stack(stack@),
    {
        let ghost before = stack@;
        let entry = stack.pop().unwrap();
        assert(stack@ == before.drop_last());
        match entry {
            Entry::File { name, size } => {
                if is_file_accepted(name.as_str(), type_files) {
                    if files == usize::MAX {
                        return false;
                    }
                    files = files + 1;
                    match size {
                        Ok(n) => {
                            if *n > u64::MAX - bytes {
                                return false;
                            }
                            bytes = bytes + *n;
                        },
                        Err(_) => {},
                    }
                }
            },
            Entry::Directory { listing: Ok(children), .. } => {
                push_children(&mut stack, children, Ghost(type_files@));
            },
            Entry::Directory { listing: Err(_), .. } => {},
        }
    }
    true
}

/// Counts the files of `source` that the filter accepts and sums their
/// sizes, descending into every directory. The walk keeps its pending
/// entries on a stack of its own, so the depth of the tree costs no call
/// stack. It fails with the first failure that a walk in listing order
/// meets: a directory that could not be listed, or an accepted file whose
/// size could not be read.
pub fn calculate_total_files(source: &Entry, type_files: &Vec<String>) -> (result: Result<
    Totals,
    IoErrorKind,
>)
    requires
        within_limits(*source, type_files@),
    ensures
        totals_match(result, source_tally(*source, type_files@)),
{
    let mut stack: Vec<&Entry> = Vec::new();
    let mut file_count: usize = 0;
    let mut byte_size: u64 = 0;
    match source {
        Entry::File { .. } => {
            return Ok(Totals { file_count, byte_size });
        },
        Entry::Directory { listing: Err(kind), .. } => {
            return Err(*kind);
        },
        Entry::Directory { listing: Ok(children), .. } => {
            push_children(&mut stack, children, Ghost(type_files@));
        },
    }
    while stack.len() > 0
        invariant
            merge(Ok((file_count as nat, byte_size as nat)), tally_stack(stack@, type_files@))
                == source_tally(*source, type_files@),
            file_count + accepted_files_stack(stack@, type_files@) <= usize::MAX,
            byte_size + accepted_bytes_stack(stack@, type_files@) <= u64::MAX,
        decreases all_entries_stack(stack@),
    {
        let ghost before = stack@;
        let entry = stack.pop().unwrap();
        assert(stack@ == before.drop_last());
        match entry {
            Entry::File { name, size } => {
                if is_file_accepted(name.as_str(), type_files) {
                    match size {
                        Err(kind) => {
                            return Err(*kind);
                        },
                        Ok(n) => {
                            file_count = file_count + 1;
                            byte_size = byte_size + *n;
                        },
                    }
                }
            },
            Entry::Directory { listing: Err(kind), .. } => {
                return Err(*kind);
            },
            Entry::Directory { listing: Ok(children), .. } => {
                push_children(&mut stack, children, Ghost(type_files@));
            },
        }
    }
    Ok(Totals { file_count, byte_size })
}

} // verus!
