//! Device selection and the file-system values crossing the boundary.
//!
//! Opening a session starts from the host's view of the bus: a list of
//! vendor/product descriptor pairs, one per attached device, in bus order.
//! The bridge decides which position to open; performing the open is the
//! transport collaborator's work.

use vstd::prelude::*;

verus! {

use crate::error::NormalizedError;
use crate::error::surfaced_text;

/// One directory entry as reported by a listing: an immutable snapshot, not
/// a live handle.
#[derive(Clone, Debug, PartialEq, Eq)]
pub struct FileInfo {
    pub path: String,
    pub is_dir: bool,
    pub date: u64,
    pub size: u64,
}

/// Whether the descriptor pair `d` carries the requested vendor and product
/// ids.
pub open spec fn matches_pair(d: (u16, u16), vid: u16, pid: u16) -> bool {
    d.0 == vid && d.1 == pid
}

/// Number of descriptor pairs among the first `n` that match the requested
/// vendor and product ids.
pub open spec fn match_count(descs: Seq<(u16, u16)>, vid: u16, pid: u16, n: int) -> int
    decreases n,
{
    if n <= 0 {
        0
    } else {
        match_count(descs, vid, pid, n - 1) + if matches_pair(descs[n - 1], vid, pid) {
            1int
        } else {
            0int
        }
    }
}

/// Chooses the device to open: the position of the `id`-th descriptor pair
/// (counting matches only, from zero) that carries the requested vendor and
/// product ids, or `None` when fewer than `id + 1` devices match — in
/// particular for a vendor/product pair no attached device carries.
pub fn select_device(descs: &Vec<(u16, u16)>, id: u32, vid: u16, pid: u16) -> (r: Option<usize>)
    ensures
        r matches Some(i) ==> i < descs@.len() && matches_pair(descs@[i as int], vid, pid)
            && match_count(descs@, vid, pid, i as int) == id,
        r is None ==> match_count(descs@, vid, pid, descs@.len() as int) <= id,
{
    let mut i: usize = 0;
    let mut seen: usize = 0;
    while i < descs.len()
        invariant
            i <= descs@.len(),
            seen == match_count(descs@, vid, pid, i as int),
            seen <= id,
        decreases descs@.len() - i,
    {
        let (v, p) = descs[i];
        if v == vid && p == pid {
            if seen == id as usize {
                return Some(i);
            }
            seen = seen + 1;
        }
        i = i + 1;
    }
    None
}

/// The open decision for a session request: the bus position of the device
/// to open, or the failure to surface — with its descriptive text, never
/// empty — when fewer than `id + 1` attached devices carry the requested
/// vendor and product ids. No session exists until the transport opens the
/// returned position.
pub fn open_plan(descs: &Vec<(u16, u16)>, id: u32, vid: u16, pid: u16) -> (r: Result<
    usize,
    NormalizedError,
>)
    ensures
        r matches Ok(i) ==> i < descs@.len() && matches_pair(descs@[i as int], vid, pid)
            && match_count(descs@, vid, pid, i as int) == id,
        r matches Err(e) ==> e.wf() && match_count(descs@, vid, pid, descs@.len() as int) <= id,
{
    match select_device(descs, id, vid, pid) {
        Some(i) => Ok(i),
        None => Err(
            NormalizedError::from_description("no matching device attached".to_owned()),
        ),
    }
}

/// A zero-filled buffer awaiting a read of `size` bytes.
pub fn make_buffer(size: u32) -> (buf: Vec<u8>)
    ensures
        buf@ == Seq::<u8>::new(size as nat, |k: int| 0u8),
{
    let mut buf: Vec<u8> = Vec::new();
    let mut i: u32 = 0;
    while i < size
        invariant
            i <= size,
            buf@ == Seq::<u8>::new(i as nat, |k: int| 0u8),
        decreases size - i,
    {
        buf.push(0u8);
        i = i + 1;
        proof {
            assert(buf@ =~= Seq::<u8>::new(i as nat, |k: int| 0u8));
        }
    }
    buf
}

/// The bytes actually received by a read: the first `n` bytes of the buffer
/// when the protocol layer reports `n` within bounds, the whole buffer
/// otherwise.
pub fn received_prefix(buf: Vec<u8>, n: usize) -> (r: Vec<u8>)
    ensures
        n <= buf@.len() ==> r@ == buf@.take(n as int),
        n > buf@.len() ==> r@ == buf@,
{
    let mut b = buf;
    if n <= b.len() {
        b.truncate(n);
    }
    b
}

/// The boundary response of a read: on success the buffer truncated to the
/// byte count the protocol layer reported, on failure the normalized form of
/// the reported error.
pub fn read_response(buf: Vec<u8>, res: Result<usize, String>) -> (r: Result<
    Vec<u8>,
    NormalizedError,
>)
    ensures
        res matches Ok(n) ==> r matches Ok(b) && b@ == (if n <= buf@.len() {
            buf@.take(n as int)
        } else {
            buf@
        }),
        res matches Err(t) ==> r matches Err(e) && e.wf() && e@ == surfaced_text(t@),
{
    match res {
        Ok(n) => Ok(received_prefix(buf, n)),
        Err(t) => Err(NormalizedError::from_description(t)),
    }
}

} // verus!
