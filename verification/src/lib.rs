//! A filesystem-adjacent resource library built around generational handle
//! arenas: archives, string lists and filesystem watchers are owned by a
//! `Context` and reached through opaque 64-bit handles that survive removal
//! and reuse without ever aliasing a new resource.
use vstd::prelude::*;

pub mod archive;
pub mod arena;
pub mod bytefmt;
pub mod context;
pub mod strlist;
pub mod watcher;

verus! {

/// Reserved all-ones handle; never produced by a successful allocation.
pub const INVALID_HANDLE: u64 = 0xFFFF_FFFF_FFFF_FFFF;

/// Interface revision, reported as a plain monotonically increasing number.
pub const VERSION_NUMBER: u64 = 200;

/// Versioning probe for the boundary: a bare integer, no string formatting.
pub fn trussfs_version() -> (r: u64)
    ensures
        r == VERSION_NUMBER,
{
    VERSION_NUMBER
}

/// A handle is possibly valid only if it is not the reserved sentinel.
pub fn trussfs_is_handle_valid(handle: u64) -> (r: bool)
    ensures
        r == (handle != INVALID_HANDLE),
{
    handle != INVALID_HANDLE
}

/// Bounded copy into a caller-provided buffer: when `data` fits into
/// `dest`, it is copied to the front of `dest` and its length returned;
/// otherwise the copy is refused outright (-1) and `dest` is untouched.
/// There is never a partial copy.
pub fn copy_data(data: &Vec<u8>, dest: &mut Vec<u8>) -> (r: i64)
    requires
        old(dest)@.len() <= 0x7FFF_FFFF_FFFF_FFFF,
    ensures
        data@.len() > old(dest)@.len() ==> r == -1 && final(dest)@ == old(dest)@,
        data@.len() <= old(dest)@.len() ==> r == data@.len() && final(dest)@ == data@ + old(
            dest,
        )@.skip(data@.len() as int),
{
    if data.len() > dest.len() {
        return -1;
    }
    let n = data.len();
    let mut j: usize = 0;
    proof {
        assert(dest@ =~= data@.take(0) + dest@.skip(0));
    }
    while j < n
        invariant
            n == data@.len(),
            n <= dest@.len(),
            dest@.len() == old(dest)@.len(),
            j <= n,
            dest@ == data@.take(j as int) + old(dest)@.skip(j as int),
        decreases n - j,
    {
        dest[j] = data[j];
        proof {
            assert(dest@ =~= data@.take(j + 1) + old(dest)@.skip(j + 1));
        }
        j = j + 1;
    }
    proof {
        assert(data@.take(n as int) =~= data@);
    }
    n as i64
}

} // verus!
