use vstd::prelude::*;
use crate::error::Error;

verus! {

/// POSIX error number for an interrupted call, on Linux.
pub const EINTR_CODE: u32 = 4;

/// What the generation loop does next after one attempt of the blocking
/// OS randomness primitive.
#[derive(Debug, Clone, Copy, PartialEq, Eq, Structural)]
pub enum FillStep {
    /// The attempt produced this many bytes; keep them and continue.
    Advance(usize),
    /// The attempt was interrupted; try again.
    Retry,
    /// The attempt failed for good; abort with this error.
    Fail(Error),
}

/// Map a raw errno value to the library's error type: a positive errno is
/// an OS error, anything else means the OS misreported the failure.
pub fn error_from_errno(errno: i64) -> (e: Error)
    ensures
        errno > 0 && errno <= u32::MAX ==> e == Error::OsError(errno as u32),
        !(errno > 0 && errno <= u32::MAX) ==> e == Error::ErrnoNotPositive,
{
    if errno > 0 && errno <= u32::MAX as i64 {
        Error::OsError(errno as u32)
    } else {
        Error::ErrnoNotPositive
    }
}

/// Decide how the fill loop proceeds after one attempt that returned `res`
/// with `remaining` bytes still owed; `errno` is the error number observed
/// when `res` is -1.
///
/// A positive return of at most `remaining` advances the loop; -1 retries
/// on an interrupt and otherwise fails with the OS error; any other return
/// (zero, other negatives, or more bytes than asked for) is impossible for
/// a correct randomness primitive and fails as unexpected.
pub fn classify_fill_result(res: i64, errno: i64, remaining: usize) -> (step: FillStep)
    ensures
        0 < res && res <= remaining ==> step == FillStep::Advance(res as usize),
        res == -1 && errno == EINTR_CODE ==> step == FillStep::Retry,
        res == -1 && errno != EINTR_CODE && errno > 0 && errno <= u32::MAX ==> step
            == FillStep::Fail(Error::OsError(errno as u32)),
        res == -1 && errno != EINTR_CODE && !(errno > 0 && errno <= u32::MAX) ==> step
            == FillStep::Fail(Error::ErrnoNotPositive),
        !(0 < res && res <= remaining) && res != -1 ==> step == FillStep::Fail(Error::Unexpected),
{
    if 0 < res && res as u64 <= remaining as u64 {
        FillStep::Advance(res as usize)
    } else if res == -1 {
        let err = error_from_errno(errno);
        if err == Error::OsError(EINTR_CODE) {
            FillStep::Retry
        } else {
            FillStep::Fail(err)
        }
    } else {
        FillStep::Fail(Error::Unexpected)
    }
}

} // verus!
