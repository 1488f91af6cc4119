//! Names of the temporary directories that a run works in, and when one of them may
//! be removed.

use vstd::prelude::*;
use vstd::string::StringExecFns;

use crate::text::{decimal, decimal_wide, spec_decimal, spec_starts_with, starts_with};

verus! {

/// How many names are tried for one run.
pub const MAX_RUN_DIRECTORIES: u8 = 32;

/// What all run directories begin with.
pub open spec fn run_prefix() -> Seq<char> {
    "wotoha-automix-corpus-"@
}

/// The name of a run directory: the moment, the process and the attempt.
pub open spec fn spec_run_directory(millis: u128, process: u32, attempt: u8) -> Seq<char> {
    run_prefix() + spec_decimal(millis as nat) + "-"@ + spec_decimal(process as nat) + "-"@
        + spec_decimal(attempt as nat)
}

/// The name of a run directory: the moment, the process and the attempt.
pub fn run_directory_name(millis: u128, process: u32, attempt: u8) -> (r: String)
    ensures
        r@ == spec_run_directory(millis, process, attempt),
{
    let mut name = "wotoha-automix-corpus-".to_owned();
    name.append(decimal_wide(millis).as_str());
    name.append("-");
    name.append(decimal(process as u64).as_str());
    name.append("-");
    name.append(decimal(attempt as u64).as_str());
    name
}

/// What is found at a path.
#[derive(Clone, Copy, Debug, PartialEq, Eq, Structural)]
pub enum Found {
    File,
    Directory,
    /// A symbolic link, whatever it leads to.
    Link,
    Other,
}

/// Whether a path may be the directory of a run: a direct child of the temporary
/// directory with a name that a run directory has.
pub open spec fn is_run_child(in_temp: bool, name: Option<Seq<char>>) -> bool {
    in_temp && name is Some && spec_starts_with(name->0, run_prefix())
}

/// Whether a path may be the directory of a run: a direct child of the temporary
/// directory, whose name is text and begins as those of run directories do.
pub fn may_be_run_directory(in_temp: bool, name: Option<&str>) -> (r: bool)
    ensures
        r == is_run_child(
            in_temp,
            match name {
                Some(text) => Some(text@),
                None => None,
            },
        ),
{
    match name {
        Some(text) => in_temp && starts_with(text, "wotoha-automix-corpus-"),
        None => false,
    }
}

/// Whether a run directory may be removed: it is a direct child of the temporary
/// directory, a directory itself and not a link, and holds the marker file of a
/// run. Each refusal says why.
pub fn removal_verdict(run_child: bool, directory: Found, marker: Found) -> (r: Result<
    (),
    &'static str,
>)
    ensures
        r is Ok <==> run_child && directory == Found::Directory && marker == Found::File,
        !run_child ==> r is Err && r->Err_0@
            == "refusing to clean a path that is not an exact AutoMix temp child"@,
        run_child && directory != Found::Directory ==> r is Err && r->Err_0@
            == "refusing to clean a non-directory AutoMix temp child"@,
        run_child && directory == Found::Directory && marker != Found::File ==> r is Err
            && r->Err_0@ == "refusing to clean an unowned AutoMix temp child"@,
{
    if !run_child {
        return Err("refusing to clean a path that is not an exact AutoMix temp child");
    }
    if directory != Found::Directory {
        return Err("refusing to clean a non-directory AutoMix temp child");
    }
    if marker != Found::File {
        return Err("refusing to clean an unowned AutoMix temp child");
    }
    Ok(())
}

/// Every directory that a run makes for itself in the temporary directory is one
/// that it may remove.
pub proof fn own_directories_are_recognized(millis: u128, process: u32, attempt: u8)
    ensures
        is_run_child(true, Some(spec_run_directory(millis, process, attempt))),
{
    let name = spec_run_directory(millis, process, attempt);
    assert(name.take(run_prefix().len() as int) =~= run_prefix());
}

/// Only what lies in the temporary directory under a name with the prefix of a run is taken
/// for one.
pub proof fn only_prefixed_names_in_temp_are_runs(name: Seq<char>)
    ensures
        !is_run_child(false, Some(name)),
        !is_run_child(true, None),
        is_run_child(true, Some(name)) <==> spec_starts_with(name, "wotoha-automix-corpus-"@),
{
}

/// At most 32 names are tried for a run.
pub proof fn runs_are_limited()
    ensures
        MAX_RUN_DIRECTORIES == 32,
{
}

} // verus!
