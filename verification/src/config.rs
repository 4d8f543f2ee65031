use crate::notification_popup::NotificationType;
use vstd::prelude::*;
use vstd::string::*;

verus! {

/// What the user configures: where the backup is written, what is backed
/// up, which file types are taken (none named: all of them), and whether
/// the backup is triggered by keys and clicks rather than by a gesture.
#[derive(Debug)]
pub struct Config {
    pub path_dest_backup: String,
    pub path_orig_backup: String,
    pub type_files: Vec<String>,
    pub btn_rec: bool,
}

/// A file type written with its leading dot.
pub open spec fn dotted(file_type: Seq<char>) -> Seq<char> {
    if file_type.len() > 0 && file_type[0] == '.' {
        file_type
    } else {
        seq!['.'] + file_type
    }
}

/// Writes a file type with its leading dot, adding the dot where it is
/// missing.
pub fn with_leading_dot(file_type: &str) -> (result: String)
    ensures
        result@ == dotted(file_type@),
{
    if file_type.unicode_len() > 0 && file_type.get_char(0) == '.' {
        String::from_str(file_type)
    } else {
        proof {
            reveal_strlit(".");
        }
        assert("."@ =~= seq!['.']);
        let mut result = String::from_str(".");
        result.append(file_type);
        result
    }
}

impl Config {
    /// The configuration as the engine uses it: every file type written
    /// with its leading dot, everything else as it was read.
    pub fn with_dotted_types(self) -> (config: Config)
        ensures
            config.path_dest_backup@ == self.path_dest_backup@,
            config.path_orig_backup@ == self.path_orig_backup@,
            config.btn_rec == self.btn_rec,
            config.type_files@.len() == self.type_files@.len(),
            forall|i: int|
                0 <= i < config.type_files@.len() ==> (#[trigger] config.type_files@[i])@
                    == dotted(self.type_files@[i]@),
    {
        let Config { path_dest_backup, path_orig_backup, type_files, btn_rec } = self;
        let mut dotted_types: Vec<String> = Vec::new();
        let mut i: usize = 0;
        while i < type_files.len()
            invariant
                i <= type_files.len(),
                dotted_types@.len() == i,
                forall|j: int|
                    0 <= j < i ==> (#[trigger] dotted_types@[j])@ == dotted(type_files@[j]@),
            decreases type_files.len() - i,
        {
            dotted_types.push(with_leading_dot(type_files[i].as_str()));
            i = i + 1;
        }
        Config { path_dest_backup, path_orig_backup, type_files: dotted_types, btn_rec }
    }
}

/// Position of the first `c` in `s` at or after `from`, or -1.
pub open spec fn first_index_from(s: Seq<char>, c: char, from: nat) -> int
    decreases s.len() - from,
{
    if from >= s.len() {
        -1
    } else if s[from as int] == c {
        from as int
    } else {
        first_index_from(s, c, from + 1)
    }
}

/// `needle` stands in `hay` at position `at`.
pub open spec fn occurs_at(hay: Seq<char>, needle: Seq<char>, at: int) -> bool {
    0 <= at && at + needle.len() <= hay.len() && hay.subrange(at, at + needle.len()) == needle
}

/// `needle` stands somewhere in `hay`.
pub open spec fn contains_text(hay: Seq<char>, needle: Seq<char>) -> bool {
    exists|at: int| occurs_at(hay, needle, at)
}

/// The text between the first backquote of `s` and the next one, or the
/// end of `s` where no second one follows; nothing where `s` has none.
pub open spec fn quoted_name(s: Seq<char>) -> Option<Seq<char>> {
    let open = first_index_from(s, '`', 0);
    if open < 0 {
        None
    } else {
        let close = first_index_from(s, '`', (open + 1) as nat);
        Some(
            s.subrange(
                open + 1,
                if close < 0 {
                    s.len() as int
                } else {
                    close
                },
            ),
        )
    }
}

/// The occasion that a failure to load the configuration is reported as.
pub open spec fn config_error_kind(error_message: Seq<char>) -> NotificationType {
    if contains_text(error_message, "missing field"@) {
        NotificationType::ConfigError
    } else {
        NotificationType::GenericError
    }
}

/// The text that a failure to load the configuration is reported with: for
/// a missing field the name of the field and that it is absent, else the
/// failure's own message.
pub open spec fn config_error_text(error_message: Seq<char>) -> Seq<char> {
    if contains_text(error_message, "missing field"@) {
        " "@ + match quoted_name(error_message) {
            Some(name) => name,
            None => "unknown field"@,
        } + " non presente nel file di configurazione"@
    } else {
        error_message
    }
}

/// What the user is told when the configuration cannot be loaded.
#[derive(Debug)]
pub struct ConfigAlert {
    pub notification_type: NotificationType,
    pub message: String,
}

/// Looks for the first `c` of `s` at or after `from`.
fn find_first(s: &str, c: char, from: usize) -> (found: Option<usize>)
    requires
        from <= s@.len(),
    ensures
        match found {
            Some(i) => from <= i < s@.len() && i == first_index_from(s@, c, from as nat),
            None => first_index_from(s@, c, from as nat) == -1,
        },
{
    let len = s.unicode_len();
    let mut i: usize = from;
    while i < len
        invariant
            from <= i <= len,
            len == s@.len(),
            first_index_from(s@, c, i as nat) == first_index_from(s@, c, from as nat),
        decreases len - i,
    {
        if s.get_char(i) == c {
            return Some(i);
        }
        i = i + 1;
    }
    None
}

/// Whether `needle` stands in `hay` at `at`.
fn matches_at(hay: &str, needle: &str, at: usize) -> (found: bool)
    requires
        at + needle@.len() <= hay@.len(),
    ensures
        found == occurs_at(hay@, needle@, at as int),
{
    let n = needle.unicode_len();
    let len = hay.unicode_len();
    let mut k: usize = 0;
    while k < n
        invariant
            k <= n,
            n == needle@.len(),
            at + n <= hay@.len(),
            len == hay@.len(),
            forall|j: int| 0 <= j < k ==> hay@[at + j] == needle@[j],
        decreases n - k,
    {
        if hay.get_char(at + k) != needle.get_char(k) {
            assert(hay@.subrange(at as int, at + n)[k as int] != needle@[k as int]);
            return false;
        }
        k = k + 1;
    }
    assert(hay@.subrange(at as int, at + n) =~= needle@);
    true
}

/// Whether `needle` stands somewhere in `hay`.
pub fn contains(hay: &str, needle: &str) -> (found: bool)
    ensures
        found == contains_text(hay@, needle@),
{
    let len = hay.unicode_len();
    let n = needle.unicode_len();
    if n > len {
        return false;
    }
    let last = len - n;
    let mut at: usize = 0;
    while at < last
        invariant
            at <= last,
            last == len - n,
            n <= len,
            len == hay@.len(),
            n == needle@.len(),
            forall|j: int| 0 <= j < at ==> !occurs_at(hay@, needle@, j),
        decreases last - at,
    {
        if matches_at(hay, needle, at) {
            return true;
        }
        at = at + 1;
    }
    matches_at(hay, needle, last)
}

impl Config {
    /// Says how a failure to load the configuration is told to the user.
    /// A message that speaks of a missing field names the field, which it
    /// carries between backquotes; any other message is passed on as it is.
    pub fn handle_config_error(error_message: &str) -> (alert: ConfigAlert)
        ensures
            alert.notification_type == config_error_kind(error_message@),
            alert.message@ == config_error_text(error_message@),
    {
        let len = error_message.unicode_len();
        if contains(error_message, "missing field") {
            let mut message = String::from_str(" ");
            match find_first(error_message, '`', 0) {
                None => {
                    message.append("unknown field");
                },
                Some(open) => {
                    let close = match find_first(error_message, '`', open + 1) {
                        Some(close) => close,
                        None => len,
                    };
                    message.append(error_message.substring_char(open + 1, close));
                },
            }
            message.append(" non presente nel file di configurazione");
            ConfigAlert { notification_type: NotificationType::ConfigError, message }
        } else {
            ConfigAlert {
                notification_type: NotificationType::GenericError,
                message: String::from_str(error_message),
            }
        }
    }

    /// Where the configuration file is looked for: beside the program, or
    /// in the working directory where the program's own directory is not
    /// given.
    pub fn retrieve_path_config(program_dir: Option<&str>) -> (path: String)
        ensures
            path@ == match program_dir {
                Some(dir) => crate::planner::join(dir@, "config.yaml"@),
                None => "config.yaml"@,
            },
    {
        match program_dir {
            Some(dir) => crate::planner::join_path(dir, "config.yaml"),
            None => String::from_str("config.yaml"),
        }
    }
}

/// What a watcher of the file system reports of a path, as far as the
/// loading of the configuration tells the kinds apart.
#[derive(Clone, Copy, Debug, PartialEq, Eq, Structural)]
pub enum ChangeKind {
    Modify,
    Other,
}

/// Reports that follow one another within this time, in nanoseconds, count
/// as one: an editor that saves a file may report it twice.
pub const DEBOUNCE_NANOS: u128 = 500_000_000;

/// The time of the last report taken of `path` among `seen[from..]`.
pub open spec fn last_report_from(seen: Seq<(String, u128)>, path: Seq<char>, from: nat) -> Option<
    u128,
>
    decreases seen.len() - from,
{
    if from >= seen.len() {
        None
    } else if seen[from as int].0@ == path {
        Some(seen[from as int].1)
    } else {
        last_report_from(seen, path, from + 1)
    }
}

/// Whether a report at `now` is taken, given the time of the last report
/// taken of the same path: the first report of a path is, and so is one
/// that comes half a second or more after the last.
pub open spec fn takes_report(last: Option<u128>, now: u128) -> bool {
    match last {
        Some(time) => now >= time && now - time >= 500_000_000,
        None => true,
    }
}

/// The watch on the configuration file while it cannot be loaded: it
/// remembers when each path was last reported.
#[derive(Debug)]
pub struct ConfigWatch {
    seen: Vec<(String, u128)>,
}

impl ConfigWatch {
    /// The time of the last report taken of `path`, if any.
    pub closed spec fn last_report(&self, path: Seq<char>) -> Option<u128> {
        last_report_from(self.seen@, path, 0)
    }

    /// A watch that has seen nothing.
    pub fn new() -> (watch: ConfigWatch)
        ensures
            forall|path: Seq<char>| watch.last_report(path) is None,
    {
        ConfigWatch { seen: Vec::new() }
    }

    /// Takes a report of `path` at the time `now`, in nanoseconds, and says
    /// whether the configuration is to be loaded again: it is when the
    /// report is taken and tells of a modification. A report that is taken
    /// becomes the last of its path; one that is not changes nothing.
    pub fn on_event(&mut self, path: &str, now: u128, kind: ChangeKind) -> (reload: bool)
        ensures
            reload == (takes_report(old(self).last_report(path@), now) && kind
                == ChangeKind::Modify),
            forall|other: Seq<char>| #[trigger]
                final(self).last_report(other) == if other == path@ && takes_report(
                    old(self).last_report(path@),
                    now,
                ) {
                    Some(now)
                } else {
                    old(self).last_report(other)
                },
    {
        let key = String::from_str(path);
        let ghost before = self.seen@;
        let mut i: usize = 0;
        while i < self.seen.len()
            invariant
                i <= self.seen.len(),
                self.seen@ == before,
                before == old(self).seen@,
                key@ == path@,
                last_report_from(before, path@, i as nat) == last_report_from(before, path@, 0),
                forall|j: int| 0 <= j < i ==> (#[trigger] before[j]).0@ != path@,
            decreases self.seen.len() - i,
        {
            if self.seen[i].0 == key {
                let last = self.seen[i].1;
                assert(last_report_from(before, path@, i as nat) == Some(last));
                if now >= last && now - last >= DEBOUNCE_NANOS {
                    self.seen.set(i, (key, now));
                    proof {
                        let after = self.seen@;
                        assert forall|other: Seq<char>| #[trigger]
                            last_report_from(after, other, 0) == if other == path@ {
                                Some(now)
                            } else {
                                last_report_from(before, other, 0)
                            } by {
                            lemma_report_replaced(before, after, i as int, other, 0);
                        }
                    }
                    return kind == ChangeKind::Modify;
                }
                return false;
            }
            i = i + 1;
        }
        self.seen.push((key, now));
        proof {
            let after = self.seen@;
            assert forall|other: Seq<char>| #[trigger]
                last_report_from(after, other, 0) == if other == path@ {
                    Some(now)
                } else {
                    last_report_from(before, other, 0)
                } by {
                lemma_report_added(before, after, other, 0);
            }
        }
        kind == ChangeKind::Modify
    }
}

/// Replacing the first entry of a path changes what is known of that path
/// and of no other.
proof fn lemma_report_replaced(
    before: Seq<(String, u128)>,
    after: Seq<(String, u128)>,
    at: int,
    other: Seq<char>,
    from: nat,
)
    requires
        0 <= at < before.len(),
        after.len() == before.len(),
        forall|j: int| 0 <= j < before.len() && j != at ==> after[j] == before[j],
        after[at].0@ == before[at].0@,
        forall|j: int| 0 <= j < at ==> (#[trigger] before[j]).0@ != before[at].0@,
        from <= at,
    ensures
        last_report_from(after, other, from) == if other == before[at].0@ {
            Some(after[at].1)
        } else {
            last_report_from(before, other, from)
        },
    decreases before.len() - from,
{
    if from < at {
        lemma_report_replaced(before, after, at, other, from + 1);
    } else if other != before[at].0@ {
        lemma_report_same_tail(before, after, other, from + 1);
    }
}

/// Where two lists agree from `from` on, so does what they tell.
proof fn lemma_report_same_tail(
    before: Seq<(String, u128)>,
    after: Seq<(String, u128)>,
    other: Seq<char>,
    from: nat,
)
    requires
        after.len() == before.len(),
        forall|j: int| from <= j < before.len() ==> after[j] == before[j],
    ensures
        last_report_from(after, other, from) == last_report_from(before, other, from),
    decreases before.len() - from,
{
    if from < before.len() {
        lemma_report_same_tail(before, after, other, from + 1);
    }
}

/// Adding an entry for a path that has none changes what is known of that
/// path and of no other.
proof fn lemma_report_added(
    before: Seq<(String, u128)>,
    after: Seq<(String, u128)>,
    other: Seq<char>,
    from: nat,
)
    requires
        after.len() == before.len() + 1,
        forall|j: int| 0 <= j < before.len() ==> after[j] == before[j],
        forall|j: int| 0 <= j < before.len() ==> (#[trigger] before[j]).0@ != after.last().0@,
        from <= before.len(),
    ensures
        last_report_from(after, other, from) == if other == after.last().0@ {
            Some(after.last().1)
        } else {
            last_report_from(before, other, from)
        },
    decreases before.len() - from,
{
    if from < before.len() {
        lemma_report_added(before, after, other, from + 1);
    } else {
        assert(last_report_from(after, other, from + 1) is None);
    }
}

} // verus!
