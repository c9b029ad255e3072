use vstd::prelude::*;
use crate::text::{last_segment, lower_of, utf16_lossy, decode_utf16_lossy_prefix, file_name_lowercase};

verus! {

/// The executable name reported for a module path read into `path`, of which the
/// read filled the first `len` code units: the lower-cased last path segment, or
/// nothing when the read failed (`len == 0`) or reported more than the buffer holds.
pub open spec fn process_name_of(path: Seq<u16>, len: nat) -> Option<Seq<char>> {
    if len == 0 || len > path.len() {
        None
    } else {
        Some(lower_of(last_segment(utf16_lossy(path.take(len as int)))))
    }
}

/// Resolves the executable file name of a process from the module path that was
/// read for it: `len` is the number of code units the read reported.
pub fn get_process_name(path: &[u16], len: u32) -> (r: Option<String>)
    ensures
        r matches Some(name) ==> process_name_of(path@, len as nat) == Some(name@),
        r is None ==> process_name_of(path@, len as nat) is None,
{
    if len == 0 || len as usize > path.len() {
        return None;
    }
    let chars = decode_utf16_lossy_prefix(path, len as usize);
    Some(file_name_lowercase(&chars))
}

} // verus!
