//! Writing and reading whole files, and why the state file write is atomic.

use vstd::prelude::*;

use crate::sys::{sys_read, sys_write};

verus! {

/// The most a state file may hold.
pub const MAX_STATE_FILE: usize = 1048576;

/// A directory, seen as a map from names to file contents.  Writing a file
/// replaces one name's contents.
pub open spec fn fs_after_write(
    fs: Map<Seq<char>, Seq<u8>>,
    name: Seq<char>,
    data: Seq<u8>,
) -> Map<Seq<char>, Seq<u8>> {
    fs.insert(name, data)
}

/// A rename moves one name's contents onto another in a single step.
pub open spec fn fs_after_rename(
    fs: Map<Seq<char>, Seq<u8>>,
    from: Seq<char>,
    to: Seq<char>,
) -> Map<Seq<char>, Seq<u8>> {
    if fs.contains_key(from) {
        fs.remove(from).insert(to, fs[from])
    } else {
        fs
    }
}

/// Saving a record is atomic for a concurrent reader of the live file: the
/// new text goes to a temporary name first, so while it is being written —
/// whatever partial bytes the temporary file holds — the live name still
/// maps to the old contents in full; the closing rename then makes the live
/// name map to the new contents in full, in one step.  A reader never sees
/// a mixture or a truncated file.
pub proof fn lemma_save_atomic(
    fs: Map<Seq<char>, Seq<u8>>,
    live: Seq<char>,
    tmp: Seq<char>,
    partial: Seq<u8>,
    full: Seq<u8>,
)
    requires
        live != tmp,
    ensures
        fs_after_write(fs, tmp, partial).contains_key(live) == fs.contains_key(live),
        fs.contains_key(live) ==> fs_after_write(fs, tmp, partial)[live] == fs[live],
        fs_after_rename(fs_after_write(fs, tmp, full), tmp, live).contains_key(live),
        fs_after_rename(fs_after_write(fs, tmp, full), tmp, live)[live] == full,
{
}

/// Writes every byte of `buf` to the descriptor, retrying partial writes.
pub fn write_all(fd: i32, buf: &Vec<u8>) -> (r: Result<(), i32>) {
    let n = buf.len();
    let mut done: usize = 0;
    while done < n
        invariant
            done <= n,
            n == buf@.len(),
        decreases n - done,
    {
        let part = vstd::slice::slice_subrange(buf.as_slice(), done, n);
        match sys_write(fd, part) {
            Ok(w) => {
                if w == 0 {
                    return Err(5);
                }
                done = done + w;
            },
            Err(e) => {
                return Err(e);
            },
        }
    }
    Ok(())
}

/// Reads the descriptor to its end, up to the size cap.
pub fn read_all(fd: i32) -> (r: Result<Vec<u8>, i32>) {
    let mut out: Vec<u8> = Vec::new();
    loop
        invariant
            out@.len() <= MAX_STATE_FILE,
        decreases MAX_STATE_FILE - out@.len(),
    {
        let mut chunk: Vec<u8> = Vec::new();
        let mut k: usize = 0;
        while k < 4096
            invariant
                chunk@.len() == k,
            decreases 4096 - k,
        {
            chunk.push(0u8);
            k = k + 1;
        }
        match sys_read(fd, &mut chunk) {
            Ok(0) => {
                return Ok(out);
            },
            Ok(got) => {
                if got == 0 {
                    return Err(5);
                }
                if got > MAX_STATE_FILE - out.len() {
                    return Err(27);
                }
                let ghost len0 = out@.len();
                let mut j: usize = 0;
                while j < got
                    invariant
                        j <= got,
                        got <= chunk@.len(),
                        out@.len() == len0 + j,
                        len0 + got <= MAX_STATE_FILE,
                    decreases got - j,
                {
                    out.push(chunk[j]);
                    j = j + 1;
                }
            },
            Err(e) => {
                return Err(e);
            },
        }
    }
}

} // verus!
