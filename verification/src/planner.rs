use crate::tree::{all_entries_from, Entry, IoErrorKind};
use vstd::prelude::*;
use vstd::string::*;

verus! {

/// One file to copy: where it is read and where it is written.
#[derive(Debug)]
pub struct FileTask {
    pub source_path: String,
    pub destination_path: String,
}

/// A `FileTask` as mathematical values.
pub struct TaskModel {
    pub source_path: Seq<char>,
    pub destination_path: Seq<char>,
}

impl View for FileTask {
    type V = TaskModel;

    open spec fn view(&self) -> TaskModel {
        TaskModel { source_path: self.source_path@, destination_path: self.destination_path@ }
    }
}

/// What planning yields: the destination directories to create, parents
/// before children and in the order of the walk; one task for every file
/// met; and the failure that cut the walk short, if one did.
#[derive(Debug)]
pub struct Plan {
    pub directories: Vec<String>,
    pub tasks: Vec<FileTask>,
    pub failure: Option<IoErrorKind>,
}

/// A `Plan` as mathematical values.
pub struct PlanModel {
    pub directories: Seq<Seq<char>>,
    pub tasks: Seq<TaskModel>,
    pub failure: Option<IoErrorKind>,
}

/// The texts of a sequence of strings.
pub open spec fn texts(strings: Seq<String>) -> Seq<Seq<char>> {
    Seq::new(strings.len(), |i: int| strings[i]@)
}

/// The models of a sequence of tasks.
pub open spec fn task_models(tasks: Seq<FileTask>) -> Seq<TaskModel> {
    Seq::new(tasks.len(), |i: int| tasks[i]@)
}

impl View for Plan {
    type V = PlanModel;

    open spec fn view(&self) -> PlanModel {
        PlanModel {
            directories: texts(self.directories@),
            tasks: task_models(self.tasks@),
            failure: self.failure,
        }
    }
}

/// The path of the entry `name` of the directory `base`. A separator is put
/// between the two unless `base` is empty or ends with one; a `name` that
/// starts at the root stands alone.
pub open spec fn join(base: Seq<char>, name: Seq<char>) -> Seq<char> {
    if name.len() > 0 && name[0] == '/' {
        name
    } else if base.len() == 0 || base.last() == '/' {
        base + name
    } else {
        base + seq!['/'] + name
    }
}

/// The plan that holds nothing.
pub open spec fn empty_plan() -> PlanModel {
    PlanModel { directories: Seq::empty(), tasks: Seq::empty(), failure: None }
}

/// One plan carried on by another: a plan that failed stays as it is.
pub open spec fn then(first: PlanModel, second: PlanModel) -> PlanModel {
    if first.failure is Some {
        first
    } else {
        PlanModel {
            directories: first.directories + second.directories,
            tasks: first.tasks + second.tasks,
            failure: second.failure,
        }
    }
}

/// The plan of one entry that is read at `source_path` and mirrored at
/// `destination_path`. A file gives one task. A directory gives its own
/// destination directory first, then the plans of its entries in the order
/// of the listing; if it could not be listed the plan fails after that
/// directory.
pub open spec fn plan_of(entry: Entry, source_path: Seq<char>, destination_path: Seq<char>)
    -> PlanModel
    decreases entry, 0nat,
{
    match entry {
        Entry::File { .. } => PlanModel {
            directories: Seq::empty(),
            tasks: seq![TaskModel { source_path, destination_path }],
            failure: None,
        },
        Entry::Directory { listing: Err(kind), .. } => PlanModel {
            directories: seq![destination_path],
            tasks: Seq::empty(),
            failure: Some(kind),
        },
        Entry::Directory { listing: Ok(children), .. } => then(
            PlanModel { directories: seq![destination_path], tasks: Seq::empty(), failure: None },
            plan_from(children@, 0, source_path, destination_path),
        ),
    }
}

/// The plan of `entries[from..]`, the entries of the directory read at
/// `source_dir` and mirrored at `destination_dir`.
pub open spec fn plan_from(
    entries: Seq<Entry>,
    from: nat,
    source_dir: Seq<char>,
    destination_dir: Seq<char>,
) -> PlanModel
    decreases entries, entries.len() - from,
{
    if from >= entries.len() {
        empty_plan()
    } else {
        then(
            plan_of(
                entries[from as int],
                join(source_dir, entries[from as int].name()),
                join(destination_dir, entries[from as int].name()),
            ),
            plan_from(entries, from + 1, source_dir, destination_dir),
        )
    }
}

/// The plan of a whole source. A source that is not a directory gives
/// nothing to do.
pub open spec fn source_plan(source: Entry, source_path: Seq<char>, destination_path: Seq<char>)
    -> PlanModel {
    match source {
        Entry::File { .. } => empty_plan(),
        Entry::Directory { .. } => plan_of(source, source_path, destination_path),
    }
}

/// Carrying plans on is associative.
pub proof fn lemma_then_associative(a: PlanModel, b: PlanModel, c: PlanModel)
    ensures
        then(then(a, b), c) == then(a, then(b, c)),
{
    if a.failure is None && b.failure is None {
        assert((a.directories + b.directories) + c.directories =~= a.directories + (b.directories
            + c.directories));
        assert((a.tasks + b.tasks) + c.tasks =~= a.tasks + (b.tasks + c.tasks));
    }
}

/// The empty plan changes nothing, before or after.
pub proof fn lemma_then_empty(a: PlanModel)
    ensures
        then(empty_plan(), a) == a,
        then(a, empty_plan()) == a,
{
    assert(Seq::<Seq<char>>::empty() + a.directories =~= a.directories);
    assert(Seq::<TaskModel>::empty() + a.tasks =~= a.tasks);
    assert(a.directories + Seq::<Seq<char>>::empty() =~= a.directories);
    assert(a.tasks + Seq::<TaskModel>::empty() =~= a.tasks);
}

/// The destination of `task` is an entry of one of `directories`.
pub open spec fn housed(task: TaskModel, directories: Seq<Seq<char>>) -> bool {
    exists|directory: Seq<char>, name: Seq<char>|
        directories.contains(directory) && task.destination_path == #[trigger] join(
            directory,
            name,
        )
}

/// Every task of `plan` has its destination in one of `directories`.
pub open spec fn all_housed(plan: PlanModel, directories: Seq<Seq<char>>) -> bool {
    forall|i: int| 0 <= i < plan.tasks.len() ==> housed(#[trigger] plan.tasks[i], directories)
}

/// What is housed in some directories is housed in more.
proof fn lemma_housed_in_more(task: TaskModel, few: Seq<Seq<char>>, more: Seq<Seq<char>>)
    requires
        housed(task, few),
        forall|directory: Seq<char>| few.contains(directory) ==> more.contains(directory),
    ensures
        housed(task, more),
{
    let (directory, name) = choose|directory: Seq<char>, name: Seq<char>|
        few.contains(directory) && task.destination_path == #[trigger] join(directory, name);
    assert(more.contains(directory) && task.destination_path == join(directory, name));
}

/// What two runs of directories hold is what either holds.
proof fn lemma_contains_of_concat(a: Seq<Seq<char>>, b: Seq<Seq<char>>)
    ensures
        forall|directory: Seq<char>|
            (a + b).contains(directory) <==> a.contains(directory) || b.contains(directory),
{
    assert forall|directory: Seq<char>| a.contains(directory) implies (a + b).contains(
        directory,
    ) by {
        let i = choose|i: int| 0 <= i < a.len() && a[i] == directory;
        assert((a + b)[i] == directory);
    }
    assert forall|directory: Seq<char>| b.contains(directory) implies (a + b).contains(
        directory,
    ) by {
        let i = choose|i: int| 0 <= i < b.len() && b[i] == directory;
        assert((a + b)[a.len() + i] == directory);
    }
    assert forall|directory: Seq<char>| (a + b).contains(directory) implies a.contains(directory)
        || b.contains(directory) by {
        let i = choose|i: int| 0 <= i < (a + b).len() && (a + b)[i] == directory;
        if i < a.len() {
            assert(a[i] == directory);
        } else {
            assert(b[i - a.len()] == directory);
        }
    }
}

/// The tasks of a directory's plan are housed in the directories of that
/// plan.
proof fn lemma_plan_of_housed(entry: Entry, source_path: Seq<char>, destination_path: Seq<char>)
    requires
        entry is Directory,
    ensures
        all_housed(
            plan_of(entry, source_path, destination_path),
            plan_of(entry, source_path, destination_path).directories,
        ),
    decreases entry, 0nat,
{
    match entry {
        Entry::Directory { listing: Ok(children), .. } => {
            let inner = plan_from(children@, 0, source_path, destination_path);
            lemma_plan_from_housed(children@, 0, source_path, destination_path);
            assert(Seq::<TaskModel>::empty() + inner.tasks =~= inner.tasks);
        },
        _ => {},
    }
}

/// The tasks of the plan of a directory's entries are housed in that
/// directory or in the directories of the plan.
proof fn lemma_plan_from_housed(
    entries: Seq<Entry>,
    from: nat,
    source_dir: Seq<char>,
    destination_dir: Seq<char>,
)
    ensures
        all_housed(
            plan_from(entries, from, source_dir, destination_dir),
            seq![destination_dir] + plan_from(
                entries,
                from,
                source_dir,
                destination_dir,
            ).directories,
        ),
    decreases entries, entries.len() - from,
{
    if from < entries.len() {
        let entry = entries[from as int];
        let first = plan_of(
            entry,
            join(source_dir, entry.name()),
            join(destination_dir, entry.name()),
        );
        let rest = plan_from(entries, from + 1, source_dir, destination_dir);
        let plan = plan_from(entries, from, source_dir, destination_dir);
        let home = seq![destination_dir];
        let all = home + plan.directories;
        lemma_plan_from_housed(entries, from + 1, source_dir, destination_dir);
        lemma_contains_of_concat(home, plan.directories);
        lemma_contains_of_concat(home, rest.directories);
        lemma_contains_of_concat(first.directories, rest.directories);
        assert(home.contains(destination_dir)) by {
            assert(home[0] == destination_dir);
        }
        if entry is Directory {
            lemma_plan_of_housed(
                entry,
                join(source_dir, entry.name()),
                join(destination_dir, entry.name()),
            );
        } else {
            assert(first.tasks.len() == 1);
            assert(first.tasks[0].destination_path == join(destination_dir, entry.name()));
            assert(housed(first.tasks[0], home));
        }
        assert forall|i: int| 0 <= i < plan.tasks.len() implies housed(
            #[trigger] plan.tasks[i],
            all,
        ) by {
            if i < first.tasks.len() {
                assert(plan.tasks[i] == first.tasks[i]);
                if entry is Directory {
                    lemma_housed_in_more(plan.tasks[i], first.directories, all);
                } else {
                    lemma_housed_in_more(plan.tasks[i], home, all);
                }
            } else {
                assert(first.failure is None);
                assert(plan.tasks[i] == rest.tasks[i - first.tasks.len()]);
                assert(plan.directories == first.directories + rest.directories);
                assert forall|directory: Seq<char>|
                    (home + rest.directories).contains(directory) implies all.contains(
                    directory,
                ) by {
                    if rest.directories.contains(directory) {
                        assert((first.directories + rest.directories).contains(directory));
                    }
                }
                lemma_housed_in_more(plan.tasks[i], home + rest.directories, all);
            }
        }
    }
}

/// No copy ever has to create a directory: the destination of every task
/// of a plan is an entry of a directory that the plan creates.
pub proof fn lemma_tasks_have_directories(
    source: Entry,
    source_path: Seq<char>,
    destination_path: Seq<char>,
)
    ensures
        all_housed(
            source_plan(source, source_path, destination_path),
            source_plan(source, source_path, destination_path).directories,
        ),
{
    if source is Directory {
        lemma_plan_of_housed(source, source_path, destination_path);
    }
}

/// Builds the path of the entry `name` of the directory `base`.
pub fn join_path(base: &str, name: &str) -> (path: String)
    ensures
        path@ == join(base@, name@),
{
    proof {
        reveal_strlit("/");
    }
    let base_len = base.unicode_len();
    if name.unicode_len() > 0 && name.get_char(0) == '/' {
        String::from_str(name)
    } else if base_len == 0 || base.get_char(base_len - 1) == '/' {
        let mut path = String::from_str(base);
        path.append(name);
        path
    } else {
        let mut path = String::from_str(base);
        path.append("/");
        assert("/"@ =~= seq!['/']);
        path.append(name);
        path
    }
}

/// An entry that waits on the work stack, with the paths it stands for.
struct Pending<'a> {
    entry: &'a Entry,
    source_path: String,
    destination_path: String,
}

/// The plan of a work stack: the entry on top is planned first.
spec fn plan_stack(stack: Seq<Pending>) -> PlanModel
    decreases stack.len(),
{
    if stack.len() == 0 {
        empty_plan()
    } else {
        then(
            plan_of(*stack.last().entry, stack.last().source_path@, stack.last().destination_path@),
            plan_stack(stack.drop_last()),
        )
    }
}

/// `all_entries` summed over a work stack.
spec fn entries_stack(stack: Seq<Pending>) -> nat
    decreases stack.len(),
{
    if stack.len() == 0 {
        0
    } else {
        stack.last().entry.all_entries() + entries_stack(stack.drop_last())
    }
}

/// Puts the entries of a listing on the work stack, the first on top, each
/// with its two paths.
fn push_children<'a>(
    stack: &mut Vec<Pending<'a>>,
    children: &'a Vec<Entry>,
    source_dir: &str,
    destination_dir: &str,
)
    ensures
        plan_stack(final(stack)@) == then(
            plan_from(children@, 0, source_dir@, destination_dir@),
            plan_stack(old(stack)@),
        ),
        entries_stack(final(stack)@) == all_entries_from(children@, 0) + entries_stack(
            old(stack)@,
        ),
{
    let ghost below = stack@;
    let mut i: usize = children.len();
    proof {
        lemma_then_empty(plan_stack(below));
    }
    while i > 0
        invariant
            i <= children.len(),
            plan_stack(stack@) == then(
                plan_from(children@, i as nat, source_dir@, destination_dir@),
                plan_stack(below),
            ),
            entries_stack(stack@) == all_entries_from(children@, i as nat) + entries_stack(below),
        decreases i,
    {
        i = i - 1;
        let ghost before = stack@;
        let child = &children[i];
        let name = match child {
            Entry::File { name, .. } => name,
            Entry::Directory { name, .. } => name,
        };
        let pending = Pending {
            entry: child,
            source_path: join_path(source_dir, name.as_str()),
            destination_path: join_path(destination_dir, name.as_str()),
        };
        stack.push(pending);
        proof {
            assert(stack@.drop_last() == before);
            lemma_then_associative(
                plan_of(*child, join(source_dir@, child.name()), join(destination_dir@, child.name())),
                plan_from(children@, (i + 1) as nat, source_dir@, destination_dir@),
                plan_stack(below),
            );
        }
    }
}

/// Plans the mirroring of `source`, read at `source_path`, under
/// `destination_path`. Every directory of the tree, the root included, gets
/// its destination directory, listed before anything inside it, and every
/// file gets a task, whatever its type. A directory that could not be listed
/// ends the plan with its failure, after its own destination directory.
/// The walk keeps its pending entries on a stack of its own.
pub fn schedule_backup_tasks(source: &Entry, source_path: &str, destination_path: &str) -> (plan:
    Plan)
    ensures
        plan@ == source_plan(*source, source_path@, destination_path@),
{
    let mut plan = Plan { directories: Vec::new(), tasks: Vec::new(), failure: None };
    let mut stack: Vec<Pending> = Vec::new();
    assert(plan@ == empty_plan()) by {
        assert(plan@.directories =~= Seq::empty());
        assert(plan@.tasks =~= Seq::empty());
    }
    match source {
        Entry::File { .. } => {
            return plan;
        },
        Entry::Directory { .. } => {
            stack.push(
                Pending {
                    entry: source,
                    source_path: String::from_str(source_path),
                    destination_path: String::from_str(destination_path),
                },
            );
        },
    }
    proof {
        assert(stack@.drop_last() =~= Seq::<Pending>::empty());
        assert(plan_stack(Seq::<Pending>::empty()) == empty_plan());
        assert(stack@.last().source_path@ == source_path@);
        assert(stack@.last().destination_path@ == destination_path@);
        lemma_then_empty(plan_of(*source, source_path@, destination_path@));
        lemma_then_empty(plan_stack(stack@));
    }
    while stack.len() > 0
        invariant
            plan.failure is None,
            then(plan@, plan_stack(stack@)) == source_plan(
                *source,
                source_path@,
                destination_path@,
            ),
        decreases entries_stack(stack@),
    {
        let ghost before = stack@;
        let ghost done = plan@;
        let pending = stack.pop().unwrap();
        let ghost rest = plan_stack(stack@);
        assert(stack@ == before.drop_last());
        let Pending { entry, source_path: from, destination_path: to } = pending;
        let ghost step = plan_of(*entry, from@, to@);
        match entry {
            Entry::File { .. } => {
                plan.tasks.push(FileTask { source_path: from, destination_path: to });
                assert(plan@ == then(done, step)) by {
                    assert(plan@.tasks =~= done.tasks + step.tasks);
                    assert(plan@.directories =~= done.directories + step.directories);
                }
                proof {
                    lemma_then_associative(done, step, rest);
                }
            },
            Entry::Directory { listing: Err(kind), .. } => {
                plan.directories.push(to);
                plan.failure = Some(*kind);
                assert(plan@ == then(done, step)) by {
                    assert(plan@.tasks =~= done.tasks + step.tasks);
                    assert(plan@.directories =~= done.directories + step.directories);
                }
                proof {
                    lemma_then_associative(done, step, rest);
                }
                return plan;
            },
            Entry::Directory { listing: Ok(children), .. } => {
                push_children(&mut stack, children, from.as_str(), to.as_str());
                plan.directories.push(to);
                let ghost opened = PlanModel {
                    directories: seq![to@],
                    tasks: Seq::empty(),
                    failure: None,
                };
                let ghost inner = plan_from(children@, 0, from@, to@);
                assert(plan@ == then(done, opened)) by {
                    assert(plan@.tasks =~= done.tasks + opened.tasks);
                    assert(plan@.directories =~= done.directories + opened.directories);
                }
                proof {
                    lemma_then_associative(opened, inner, rest);
                    lemma_then_associative(done, opened, then(inner, rest));
                }
            },
        }
    }
    proof {
        lemma_then_empty(plan@);
    }
    plan
}

} // verus!
