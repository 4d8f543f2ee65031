use vstd::prelude::*;
use vstd::string::*;

verus! {

/// Position of the last occurrence of `c` in `s`, or -1 where `s` holds none.
pub open spec fn last_index_of(s: Seq<char>, c: char) -> int
    decreases s.len(),
{
    if s.len() == 0 {
        -1
    } else if s.last() == c {
        s.len() - 1
    } else {
        last_index_of(s.drop_last(), c)
    }
}

/// `last_index_of` is a position of `c` after which `c` does not occur again.
pub proof fn lemma_last_index_of(s: Seq<char>, c: char)
    ensures
        -1 <= last_index_of(s, c) < s.len(),
        last_index_of(s, c) >= 0 ==> s[last_index_of(s, c)] == c,
        forall|j: int| last_index_of(s, c) < j < s.len() ==> s[j] != c,
    decreases s.len(),
{
    if s.len() > 0 && s.last() != c {
        let head = s.drop_last();
        lemma_last_index_of(head, c);
        assert forall|j: int| last_index_of(s, c) < j < s.len() implies s[j] != c by {
            if j < head.len() {
                assert(head[j] == s[j]);
            }
        }
    }
}

/// Any position with the two properties above is `last_index_of`.
pub proof fn lemma_last_index_of_is(s: Seq<char>, c: char, r: int)
    requires
        -1 <= r < s.len(),
        r >= 0 ==> s[r] == c,
        forall|j: int| r < j < s.len() ==> s[j] != c,
    ensures
        last_index_of(s, c) == r,
    decreases s.len(),
{
    if s.len() > 0 && s.last() != c {
        let head = s.drop_last();
        assert forall|j: int| r < j < head.len() implies head[j] != c by {
            assert(head[j] == s[j]);
        }
        lemma_last_index_of_is(head, c, r);
    }
}

/// The length of `path[..end]` once the separators at its end are dropped.
pub open spec fn trimmed(path: Seq<char>, end: nat) -> nat
    recommends
        end <= path.len(),
    decreases end,
{
    if end == 0 || path[end - 1] != '/' {
        end
    } else {
        trimmed(path, (end - 1) as nat)
    }
}

/// Where the file name of `path[..end]` begins and ends, if it has one.
/// The components of a path are separated by `/`. Separators at the end
/// are passed over, and so is a last component `.` that does not begin the
/// path. The file name is the last component that is left, unless that is
/// `..` or a `.` that begins the path: such a path has no file name, nor
/// has one without any component.
pub open spec fn file_name_bounds(path: Seq<char>, end: nat) -> Option<(int, int)>
    recommends
        end <= path.len(),
    decreases end,
{
    let stop = trimmed(path, end);
    if stop == 0 {
        None
    } else {
        let start = last_index_of(path.subrange(0, stop as int), '/') + 1;
        let name = path.subrange(start, stop as int);
        if name == seq!['.'] {
            if 0 < start < end {
                file_name_bounds(path, start as nat)
            } else {
                None
            }
        } else if name == seq!['.', '.'] {
            None
        } else {
            Some((start, stop as int))
        }
    }
}

/// The file name of a path: its last component, as `file_name_bounds`
/// finds it.
pub open spec fn file_name_of(path: Seq<char>) -> Option<Seq<char>> {
    match file_name_bounds(path, path.len()) {
        Some(bounds) => Some(path.subrange(bounds.0, bounds.1)),
        None => None,
    }
}

/// The extension of a file name together with its leading dot: the part
/// from the last dot on. A name without a dot has none, nor has one whose
/// only dot is its first character.
pub open spec fn dotted_extension_of_name(name: Seq<char>) -> Option<Seq<char>> {
    let dot = last_index_of(name, '.');
    if dot <= 0 {
        None
    } else {
        Some(name.subrange(dot, name.len() as int))
    }
}

/// The dotted extension of the file name of `path`.
pub open spec fn dotted_extension(path: Seq<char>) -> Option<Seq<char>> {
    match file_name_of(path) {
        Some(name) => dotted_extension_of_name(name),
        None => None,
    }
}

/// `ext` is one of the entries of `type_files`, compared character by character.
pub open spec fn lists_extension(type_files: Seq<String>, ext: Seq<char>) -> bool {
    exists|i: int| 0 <= i < type_files.len() && (#[trigger] type_files[i])@ == ext
}

/// The path has an extension and the allow-list names it.
pub open spec fn type_accepted(path: Seq<char>, type_files: Seq<String>) -> bool {
    match dotted_extension(path) {
        Some(ext) => lists_extension(type_files, ext),
        None => false,
    }
}

/// The filter predicate of the engine: an empty allow-list accepts every
/// file, any other accepts the files whose extension it names.
pub open spec fn passes_filter(path: Seq<char>, type_files: Seq<String>) -> bool {
    type_files.len() == 0 || type_accepted(path, type_files)
}

/// Looks for the last `c` among the characters `from..to` of `s`.
fn find_last(s: &str, from: usize, to: usize, c: char) -> (found: Option<usize>)
    requires
        from <= to <= s@.len(),
    ensures
        match found {
            Some(i) => from <= i < to && i - from == last_index_of(
                s@.subrange(from as int, to as int),
                c,
            ),
            None => last_index_of(s@.subrange(from as int, to as int), c) == -1,
        },
{
    let ghost part = s@.subrange(from as int, to as int);
    let mut i: usize = to;
    while i > from
        invariant
            from <= i <= to <= s@.len(),
            part == s@.subrange(from as int, to as int),
            forall|j: int| i - from <= j < part.len() ==> part[j] != c,
        decreases i,
    {
        i = i - 1;
        if s.get_char(i) == c {
            proof {
                lemma_last_index_of_is(part, c, i - from);
            }
            return Some(i);
        }
    }
    proof {
        lemma_last_index_of_is(part, c, -1);
    }
    None
}

/// Whether `type_files` holds a string equal to `ext`.
fn contains_extension(type_files: &Vec<String>, ext: &String) -> (found: bool)
    ensures
        found == lists_extension(type_files@, ext@),
{
    let mut i: usize = 0;
    while i < type_files.len()
        invariant
            i <= type_files.len(),
            forall|j: int| 0 <= j < i ==> (#[trigger] type_files@[j])@ != ext@,
        decreases type_files.len() - i,
    {
        if type_files[i] == *ext {
            return true;
        }
        i = i + 1;
    }
    false
}

/// Finds the file name of `path`, whose length is `len`.
fn file_name_range(path: &str, len: usize) -> (bounds: Option<(usize, usize)>)
    requires
        len == path@.len(),
    ensures
        match bounds {
            Some(found) => found.0 < found.1 <= len && file_name_bounds(path@, len as nat) == Some(
                (found.0 as int, found.1 as int),
            ),
            None => file_name_bounds(path@, len as nat) is None,
        },
{
    let mut end: usize = len;
    loop
        invariant
            end <= len,
            len == path@.len(),
            file_name_bounds(path@, end as nat) == file_name_bounds(path@, len as nat),
        decreases end,
    {
        let mut stop: usize = end;
        while stop > 0 && path.get_char(stop - 1) == '/'
            invariant
                stop <= end <= len,
                len == path@.len(),
                trimmed(path@, stop as nat) == trimmed(path@, end as nat),
            decreases stop,
        {
            stop = stop - 1;
        }
        if stop == 0 {
            return None;
        }
        let start: usize = match find_last(path, 0, stop, '/') {
            Some(slash) => slash + 1,
            None => 0,
        };
        let ghost name = path@.subrange(start as int, stop as int);
        proof {
            lemma_last_index_of(path@.subrange(0, stop as int), '/');
            assert(start < stop) by {
                if start == stop {
                    assert(path@.subrange(0, stop as int)[stop - 1] == '/');
                }
            }
            assert(name[0] == path@[start as int]);
        }
        if stop - start == 1 && path.get_char(start) == '.' {
            assert(name =~= seq!['.']);
            if start == 0 {
                return None;
            }
            end = start;
        } else if stop - start == 2 && path.get_char(start) == '.' && path.get_char(start + 1)
            == '.' {
            assert(name[1] == path@[start + 1]);
            assert(name =~= seq!['.', '.']);
            return None;
        } else {
            assert(name != seq!['.']) by {
                if name.len() == 1 {
                    assert(name[0] != '.');
                }
            }
            assert(name != seq!['.', '.']) by {
                if name.len() == 2 {
                    assert(name[1] == path@[start + 1]);
                    assert(name[0] != '.' || name[1] != '.');
                }
            }
            return Some((start, stop));
        }
    }
}

/// Tells whether the extension of the file at `path`, written with its
/// leading dot (as in `.txt`), is a member of `type_files`. The comparison is
/// case-sensitive. A path without an extension is never accepted.
pub fn is_file_type_accepted(path: &str, type_files: &Vec<String>) -> (accepted: bool)
    ensures
        accepted == type_accepted(path@, type_files@),
{
    let len = path.unicode_len();
    match file_name_range(path, len) {
        None => false,
        Some((start, stop)) => {
            let ghost name = path@.subrange(start as int, stop as int);
            match find_last(path, start, stop, '.') {
                None => false,
                Some(dot) => {
                    if dot == start {
                        return false;
                    }
                    let ext = String::from_str(path.substring_char(dot, stop));
                    assert(ext@ =~= name.subrange(dot - start, name.len() as int));
                    contains_extension(type_files, &ext)
                },
            }
        },
    }
}

/// The filter as the engine applies it to one file: everything passes an
/// empty allow-list.
pub fn is_file_accepted(path: &str, type_files: &Vec<String>) -> (accepted: bool)
    ensures
        accepted == passes_filter(path@, type_files@),
{
    type_files.len() == 0 || is_file_type_accepted(path, type_files)
}

} // verus!
