//! Exit codes. The numbers of the POSIX errors come from the crate `posix_errors`;
//! those of this tracker's own failures are built on them.

use vstd::prelude::*;

verus! {

/// `posix_errors::ENOENT`, no such file or directory: 2.
#[verifier::external_body]
pub(crate) fn enoent() -> (code: i32)
    ensures
        code == 2,
{
    posix_errors::ENOENT
}

/// `posix_errors::EINTR`, interrupted system call: 4.
#[verifier::external_body]
pub(crate) fn eintr() -> (code: i32)
    ensures
        code == 4,
{
    posix_errors::EINTR
}

/// `posix_errors::EIO`, input/output error: 5.
#[verifier::external_body]
pub(crate) fn eio() -> (code: i32)
    ensures
        code == 5,
{
    posix_errors::EIO
}

/// `posix_errors::EEXIST`, file exists: 17.
#[verifier::external_body]
pub(crate) fn eexist() -> (code: i32)
    ensures
        code == 17,
{
    posix_errors::EEXIST
}

/// `posix_errors::EINVAL`, invalid argument: 22.
#[verifier::external_body]
pub(crate) fn einval() -> (code: i32)
    ensures
        code == 22,
{
    posix_errors::EINVAL
}

/// `posix_errors::EPROTOTYPE`, protocol wrong type for socket: 41.
#[verifier::external_body]
pub(crate) fn eprototype() -> (code: i32)
    ensures
        code == 41,
{
    posix_errors::EPROTOTYPE
}

/// `posix_errors::EDOOFUS`, programming error: 88.
#[verifier::external_body]
pub(crate) fn edoofus() -> (code: i32)
    ensures
        code == 88,
{
    posix_errors::EDOOFUS
}

/// `posix_errors::ENOTEXEC`, command invoked cannot execute: 126.
#[verifier::external_body]
pub(crate) fn enotexec() -> (code: i32)
    ensures
        code == 126,
{
    posix_errors::ENOTEXEC
}

/// The editor was killed by a signal.
pub fn e_editor_killed() -> (code: i32)
    ensures
        code == 4,
{
    eintr()
}

/// A repository exists already.
pub fn e_repo_exist() -> (code: i32)
    ensures
        code == 145,
{
    128 + eexist()
}

/// The repository is bare.
pub fn e_repo_bare() -> (code: i32)
    ensures
        code == 169,
{
    128 + eprototype()
}

/// The directory `.issues` is missing.
pub fn e_issues_dir_exist() -> (code: i32)
    ensures
        code == 161,
{
    128 + 16 + eexist()
}

/// Stashing failed.
pub fn e_stash_error() -> (code: i32)
    ensures
        code == 165,
{
    128 + 16 + 16 + eio()
}

} // verus!
