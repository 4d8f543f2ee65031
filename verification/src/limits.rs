use vstd::prelude::*;

verus! {

/// The operating-system family the engine runs on, as far as the sizing of
/// the permit pool is concerned.
#[derive(Clone, Copy, Debug, PartialEq, Eq, Structural)]
pub enum Platform {
    Windows,
    Unix,
}

/// Ceiling used on Windows.
pub const WINDOWS_MAX_OPEN_FILES: usize = 8192;

/// Ceiling used everywhere else: well under the usual per-process
/// descriptor limit, since each running copy holds two handles.
pub const UNIX_MAX_OPEN_FILES: usize = 550;

/// The ceiling of `platform`, as a mathematical value.
pub open spec fn max_open_files_of(platform: Platform) -> nat {
    match platform {
        Platform::Windows => 8192,
        Platform::Unix => 550,
    }
}

/// A conservative static ceiling on the number of copies that may run at
/// once. It is a fixed value per platform and never asks the system.
pub fn get_max_open_files(platform: Platform) -> (ceiling: usize)
    ensures
        ceiling == max_open_files_of(platform),
        ceiling > 0,
{
    match platform {
        Platform::Windows => WINDOWS_MAX_OPEN_FILES,
        Platform::Unix => UNIX_MAX_OPEN_FILES,
    }
}

} // verus!
