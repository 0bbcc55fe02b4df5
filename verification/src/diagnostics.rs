//! Where the debug log and the crash reports are written, and whether
//! debug capture was asked for.

use vstd::prelude::*;
use crate::paths::{join, path_join};
use crate::text::str_eq;

verus! {

/// Whether the command line asks for debug output.
pub fn is_debug_requested(args: &Vec<String>) -> (r: bool)
    ensures
        r == args.deep_view().contains("--debug"@),
{
    let mut i: usize = 0;
    while i < args.len()
        invariant
            i <= args.len(),
            forall|k: int| 0 <= k < i ==> args.deep_view()[k] != "--debug"@,
        decreases args.len() - i,
    {
        if str_eq(args[i].as_str(), "--debug") {
            assert(args.deep_view()[i as int] == "--debug"@);
            return true;
        }
        i += 1;
    }
    false
}

/// The directory of the application's files below the local data
/// directory.
pub open spec fn app_data_dir(local_data_dir: Seq<char>, sep: char) -> Seq<char> {
    join(local_data_dir, "aura"@, sep)
}

/// The debug log below the local data directory: `aura/aura-debug.log`.
pub fn build_debug_log_path(local_data_dir: &str, sep: char) -> (r: String)
    ensures
        r@ == join(app_data_dir(local_data_dir@, sep), "aura-debug.log"@, sep),
{
    let dir = path_join(local_data_dir, "aura", sep);
    path_join(dir.as_str(), "aura-debug.log", sep)
}

/// The crash files below the local data directory: the minidump and the
/// text report, both in `aura`.
pub fn build_crash_paths(local_data_dir: &str, sep: char) -> (r: (String, String))
    ensures
        r.0@ == join(app_data_dir(local_data_dir@, sep), "aura-crash.dmp"@, sep),
        r.1@ == join(app_data_dir(local_data_dir@, sep), "aura-crash.txt"@, sep),
{
    let dir = path_join(local_data_dir, "aura", sep);
    (path_join(dir.as_str(), "aura-crash.dmp", sep), path_join(dir.as_str(), "aura-crash.txt", sep))
}

/// The user's local data directory (`dirs::data_local_dir`), as text (any
/// part that is not valid Unicode replaced, `to_string_lossy`); none when
/// it is unknown. It depends on the environment.
#[verifier::external_body]
fn data_local_dir() -> Option<String> {
    dirs::data_local_dir().map(|p| p.to_string_lossy().into_owned())
}

/// The debug log of this user, or the reason it has no place.
pub fn debug_log_path() -> (r: Result<String, String>)
    ensures
        r matches Err(e) ==> e@ == "failed to resolve local data directory"@,
        r matches Ok(p) ==> exists|d: Seq<char>, sep: char|
            (sep == '/' || sep == '\\') && p@ == #[trigger] join(app_data_dir(d, sep), "aura-debug.log"@, sep),
{
    match data_local_dir() {
        Some(d) => {
            let sep = crate::paths::main_separator();
            let p = build_debug_log_path(d.as_str(), sep);
            assert(p@ == join(app_data_dir(d@, sep), "aura-debug.log"@, sep));
            Ok(p)
        },
        None => {
            proof {
                reveal_strlit("failed to resolve local data directory");
            }
            Err(crate::text::owned("failed to resolve local data directory"))
        },
    }
}

} // verus!
