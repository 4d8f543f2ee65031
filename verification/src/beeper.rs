use crate::planner::{join, join_path};
use vstd::prelude::*;
use vstd::string::*;

verus! {

/// Where the sounds are kept: in `resources/` beside the program, or in the
/// working directory where the program's own directory is not given.
pub fn retrieve_path_wav(program_dir: Option<&str>) -> (path: String)
    ensures
        path@ == match program_dir {
            Some(dir) => join(dir@, "resources/"@),
            None => "resources/"@,
        },
{
    match program_dir {
        Some(dir) => join_path(dir, "resources/"),
        None => String::from_str("resources/"),
    }
}

/// The name of the file of a sound.
pub open spec fn sound_name(is_positive: bool) -> Seq<char> {
    if is_positive {
        "positive-beep.wav"@
    } else {
        "negative-beep.wav"@
    }
}

/// The file whose sound tells the user of a success or of a failure.
pub fn beep(is_positive: bool, resources: &str) -> (file: String)
    ensures
        file@ == join(resources@, sound_name(is_positive)),
{
    if is_positive {
        join_path(resources, "positive-beep.wav")
    } else {
        join_path(resources, "negative-beep.wav")
    }
}

} // verus!
