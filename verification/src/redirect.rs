//! Redirecting a standard stream into a file with `dup2`.
use vstd::prelude::*;

verus! {

/// `dup2` put the file's descriptor `raw_fd` at `new_fd` where the stream
/// is at `target_fd`.
#[derive(Debug, Clone, Copy, PartialEq, Eq)]
pub struct RedirectError {
    pub raw_fd: i32,
    pub new_fd: i32,
    pub target_fd: i32,
}

/// The redirection succeeded exactly when `dup2` returned the stream's own
/// descriptor.
pub fn check_dup2(raw_fd: i32, new_fd: i32, target_fd: i32) -> (r: Result<(), RedirectError>)
    ensures
        r is Ok <==> new_fd == target_fd,
        r matches Err(e) ==> e == (RedirectError { raw_fd, new_fd, target_fd }),
{
    if new_fd != target_fd {
        Err(RedirectError { raw_fd, new_fd, target_fd })
    } else {
        Ok(())
    }
}

} // verus!
