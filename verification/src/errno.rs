use vstd::prelude::*;

verus! {

/// Success.
pub const SPEAR_OK: i32 = 0;
/// I/O error.
pub const SPEAR_EIO: i32 = 5;
/// Bad descriptor.
pub const SPEAR_EBADF: i32 = 9;
/// Try again (would block).
pub const SPEAR_EAGAIN: i32 = 11;
/// Permission denied.
pub const SPEAR_EACCES: i32 = 13;
/// Bad address.
pub const SPEAR_EFAULT: i32 = 14;
/// Invalid argument.
pub const SPEAR_EINVAL: i32 = 22;
/// No space left.
pub const SPEAR_ENOSPC: i32 = 28;
/// Broken pipe.
pub const SPEAR_EPIPE: i32 = 32;
/// Not connected.
pub const SPEAR_ENOTCONN: i32 = 107;

/// Short alias of [`SPEAR_EIO`].
pub const EIO: i32 = 5;
/// Short alias of [`SPEAR_EBADF`].
pub const EBADF: i32 = 9;
/// Short alias of [`SPEAR_EACCES`].
pub const EACCES: i32 = 13;
/// Short alias of [`SPEAR_EINVAL`].
pub const EINVAL: i32 = 22;

} // verus!
