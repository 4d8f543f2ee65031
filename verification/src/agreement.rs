use crate::enumerator::{source_tally, tally, tally_from};
use crate::executor::{accepted_before, lemma_finished_run_processed_all, ExecutorModel};
use crate::filter::{file_name_of, lemma_last_index_of_is, passes_filter, trimmed};
use crate::planner::{join, plan_from, plan_of, source_plan, TaskModel};
use crate::tree::{plain_name, plain_names_from, Entry};
use vstd::prelude::*;

verus! {

/// How many of `tasks` the filter accepts.
pub open spec fn accepted_total(tasks: Seq<TaskModel>, type_files: Seq<String>) -> nat {
    accepted_before(tasks, type_files, tasks.len())
}

/// A path that ends with a plain name has that name for its file name.
pub proof fn lemma_ends_with_plain_name(path: Seq<char>, name: Seq<char>)
    requires
        plain_name(name),
        name.len() <= path.len(),
        path.subrange(path.len() - name.len(), path.len() as int) == name,
        path.len() > name.len() ==> path[path.len() - name.len() - 1] == '/',
    ensures
        file_name_of(path) == Some(name),
{
    let start = path.len() - name.len();
    let stop = path.len();
    assert(path[stop - 1] == name[name.len() - 1]);
    assert(trimmed(path, stop) == stop);
    assert(path.subrange(0, stop as int) =~= path);
    assert forall|j: int| start <= j < stop implies path[j] != '/' by {
        assert(path[j] == name[j - start]);
    }
    lemma_last_index_of_is(path, '/', start - 1);
}

/// A plain name is its own file name.
pub proof fn lemma_plain_name_is_file_name(name: Seq<char>)
    requires
        plain_name(name),
    ensures
        file_name_of(name) == Some(name),
{
    assert(name.subrange(0, name.len() as int) =~= name);
    lemma_ends_with_plain_name(name, name);
}

/// The file name of the path of an entry is the name of the entry.
pub proof fn lemma_join_keeps_name(base: Seq<char>, name: Seq<char>)
    requires
        plain_name(name),
    ensures
        file_name_of(join(base, name)) == Some(name),
{
    let path = join(base, name);
    assert(path.subrange(path.len() - name.len(), path.len() as int) =~= name);
    lemma_ends_with_plain_name(path, name);
}

/// The filter looks at the file name of a path only.
pub proof fn lemma_filter_reads_file_name(a: Seq<char>, b: Seq<char>, type_files: Seq<String>)
    requires
        file_name_of(a) == file_name_of(b),
    ensures
        passes_filter(a, type_files) == passes_filter(b, type_files),
{
}

/// The number accepted of two runs of tasks, one after the other, is the sum
/// of the two.
pub proof fn lemma_accepted_total_of_concat(
    a: Seq<TaskModel>,
    b: Seq<TaskModel>,
    type_files: Seq<String>,
)
    ensures
        accepted_total(a + b, type_files) == accepted_total(a, type_files) + accepted_total(
            b,
            type_files,
        ),
    decreases b.len(),
{
    if b.len() == 0 {
        assert(a + b =~= a);
    } else {
        let head = b.drop_last();
        lemma_accepted_total_of_concat(a, head, type_files);
        assert((a + b).drop_last() =~= a + head);
        lemma_accepted_before_ignores_tail(a + b, a + head, type_files, (a + head).len());
        lemma_accepted_before_ignores_tail(b, head, type_files, head.len());
    }
}

/// The number accepted among the first tasks does not depend on the tasks
/// that follow.
pub proof fn lemma_accepted_before_ignores_tail(
    long: Seq<TaskModel>,
    short: Seq<TaskModel>,
    type_files: Seq<String>,
    upto: nat,
)
    requires
        upto <= short.len() <= long.len(),
        forall|i: int| 0 <= i < short.len() ==> short[i] == long[i],
    ensures
        accepted_before(long, type_files, upto) == accepted_before(short, type_files, upto),
    decreases upto,
{
    if upto > 0 {
        lemma_accepted_before_ignores_tail(long, short, type_files, (upto - 1) as nat);
    }
}

/// Counting and planning agree on one entry: where the count succeeds, the
/// plan does not fail, and the filter accepts as many of its tasks as the
/// count gives files.
pub proof fn lemma_plan_agrees_with_tally(
    entry: Entry,
    source_path: Seq<char>,
    destination_path: Seq<char>,
    type_files: Seq<String>,
)
    requires
        entry.plain_names(),
        file_name_of(source_path) == Some(entry.name()),
        tally(entry, type_files) is Ok,
    ensures
        plan_of(entry, source_path, destination_path).failure is None,
        accepted_total(plan_of(entry, source_path, destination_path).tasks, type_files) == tally(
            entry,
            type_files,
        )->Ok_0.0,
    decreases entry, 0nat,
{
    match entry {
        Entry::File { name, .. } => {
            lemma_plain_name_is_file_name(name@);
            lemma_filter_reads_file_name(source_path, name@, type_files);
            let tasks = plan_of(entry, source_path, destination_path).tasks;
            assert(tasks.len() == 1);
            assert(accepted_before(tasks, type_files, 0) == 0);
        },
        Entry::Directory { listing: Ok(children), .. } => {
            lemma_plan_from_agrees_with_tally(
                children@,
                0,
                source_path,
                destination_path,
                type_files,
            );
            let inner = plan_from(children@, 0, source_path, destination_path);
            assert(Seq::<TaskModel>::empty() + inner.tasks =~= inner.tasks);
        },
        Entry::Directory { .. } => {},
    }
}

/// The same for the entries of one directory.
pub proof fn lemma_plan_from_agrees_with_tally(
    entries: Seq<Entry>,
    from: nat,
    source_dir: Seq<char>,
    destination_dir: Seq<char>,
    type_files: Seq<String>,
)
    requires
        plain_names_from(entries, from),
        tally_from(entries, from, type_files) is Ok,
    ensures
        plan_from(entries, from, source_dir, destination_dir).failure is None,
        accepted_total(plan_from(entries, from, source_dir, destination_dir).tasks, type_files)
            == tally_from(entries, from, type_files)->Ok_0.0,
    decreases entries, entries.len() - from,
{
    if from < entries.len() {
        let entry = entries[from as int];
        let first = plan_of(
            entry,
            join(source_dir, entry.name()),
            join(destination_dir, entry.name()),
        );
        let rest = plan_from(entries, from + 1, source_dir, destination_dir);
        assert(entry.plain_names());
        assert(plain_name(entry.name()));
        lemma_join_keeps_name(source_dir, entry.name());
        lemma_plan_agrees_with_tally(
            entry,
            join(source_dir, entry.name()),
            join(destination_dir, entry.name()),
            type_files,
        );
        lemma_plan_from_agrees_with_tally(
            entries,
            from + 1,
            source_dir,
            destination_dir,
            type_files,
        );
        lemma_accepted_total_of_concat(first.tasks, rest.tasks, type_files);
    } else {
        assert(accepted_before(Seq::<TaskModel>::empty(), type_files, 0) == 0);
    }
}

/// The totals and the copies agree. For a source directory whose entries
/// have plain names: where counting succeeds, planning succeeds too, and
/// the filter that gave the count accepts exactly as many of the planned
/// tasks as files were counted. So the executor processes as many files as
/// the totals announce.
pub proof fn lemma_totals_match_copies(
    source: Entry,
    source_path: Seq<char>,
    destination_path: Seq<char>,
    type_files: Seq<String>,
)
    requires
        source matches Entry::Directory { listing: Ok(children), .. } && plain_names_from(
            children@,
            0,
        ),
        source_tally(source, type_files) is Ok,
    ensures
        source_plan(source, source_path, destination_path).failure is None,
        accepted_total(source_plan(source, source_path, destination_path).tasks, type_files)
            == source_tally(source, type_files)->Ok_0.0,
{
    let children = source->Directory_listing->Ok_0;
    lemma_plan_from_agrees_with_tally(children@, 0, source_path, destination_path, type_files);
    let inner = plan_from(children@, 0, source_path, destination_path);
    assert(Seq::<TaskModel>::empty() + inner.tasks =~= inner.tasks);
}

/// A finished run copies what was counted. For a source directory whose
/// entries have plain names and whose count succeeds: a run of the
/// executor over the tasks planned for that source, with the filter of the
/// count, has at its end processed exactly as many files as were counted.
pub proof fn lemma_finished_run_matches_totals(
    source: Entry,
    source_path: Seq<char>,
    destination_path: Seq<char>,
    state: ExecutorModel,
)
    requires
        source matches Entry::Directory { listing: Ok(children), .. } && plain_names_from(
            children@,
            0,
        ),
        source_tally(source, state.type_files) is Ok,
        state.tasks == source_plan(source, source_path, destination_path).tasks,
        state.wf(),
        state.finished(),
    ensures
        state.processed() == source_tally(source, state.type_files)->Ok_0.0,
{
    lemma_totals_match_copies(source, source_path, destination_path, state.type_files);
    lemma_finished_run_processed_all(state);
}

} // verus!
