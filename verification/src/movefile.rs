use vstd::prelude::*;
use vstd::string::StringExecFns;

verus! {

/// The suffix appended to a destination path to name the in-flight
/// temporary file. Its presence on disk marks a crashed or aborted attempt.
pub open spec fn tmp_suffix() -> Seq<char> {
    ".__swap_tmp"@
}

/// The temporary sibling path the executor streams into before the final
/// same-filesystem rename: the destination path plus a fixed suffix.
pub fn tmp_path(dst: &String) -> (r: String)
    ensures
        r@ == dst@ + tmp_suffix(),
{
    dst.clone().concat(".__swap_tmp")
}

/// The streaming buffer size actually used: the configured size, floored at
/// 64 KiB to avoid pathological tiny reads.
pub fn effective_buffer(buffer_bytes: usize) -> (r: usize)
    ensures
        r == (if buffer_bytes >= 65536 {
            buffer_bytes
        } else {
            65536usize
        }),
{
    if buffer_bytes >= 65536 {
        buffer_bytes
    } else {
        65536
    }
}

/// The executor's integrity gate: the streamed copy may be committed (renamed
/// onto the final path) exactly when its size equals the expected size.
pub fn size_verified(tmp_size: u64, expected_size: u64) -> (r: bool)
    ensures
        r == (tmp_size == expected_size),
{
    tmp_size == expected_size
}

} // verus!
