//! A copy of the shared region's bytes, as the caller read it.

use vstd::prelude::*;
use crate::header::{le_i32, status_connected, Header, VarBuf, HEADER_LEN};
use crate::text::copy_range;

verus! {

/// The `len` bytes of `b` at `off`, when that range lies within `b`.
pub open spec fn range_of(b: Seq<u8>, off: i32, len: i32) -> Option<Seq<u8>> {
    if off >= 0 && len >= 0 && off + len <= b.len() {
        Some(b.subrange(off as int, off + len))
    } else {
        None
    }
}

/// Bytes copied out of the shared region, starting at its first byte.
pub struct SharedMemory {
    pub bytes: Vec<u8>,
}

impl SharedMemory {
    pub fn new(bytes: Vec<u8>) -> (r: SharedMemory)
        ensures
            r.bytes@ == bytes@,
    {
        SharedMemory { bytes }
    }

    /// The header at the start of the copy.
    pub fn header(&self) -> (r: Option<Header>)
        ensures
            r is None <==> self.bytes@.len() < HEADER_LEN,
            r matches Some(h) ==> crate::header::header_encoded(h, self.bytes@) && h.wf(),
    {
        Header::from_bytes(&self.bytes)
    }

    /// Whether the copy holds a header whose connected bit is set.
    pub fn is_header_connected(&self) -> (r: bool)
        ensures
            r == (self.bytes@.len() >= HEADER_LEN && status_connected(le_i32(self.bytes@, 4))),
    {
        match self.header() {
            Some(h) => h.is_header_connected(),
            None => false,
        }
    }

    /// Copies the `len` bytes at `off`; `None` when they do not lie within
    /// the copy.
    pub fn bytes_at(&self, off: i32, len: i32) -> (r: Option<Vec<u8>>)
        ensures
            r matches Some(d) ==> range_of(self.bytes@, off, len) == Some(d@),
            r is None ==> range_of(self.bytes@, off, len) is None,
    {
        let blen: usize = self.bytes.len();
        if off < 0 || len < 0 || off as u64 + len as u64 > blen as u64 {
            return None;
        }
        Some(copy_range(&self.bytes, off as usize, len as usize))
    }

    /// The data of `buffer`: `h.buf_len` bytes at the buffer's offset.
    pub fn data(&self, h: &Header, buffer: &VarBuf) -> (r: Option<Vec<u8>>)
        ensures
            r matches Some(d) ==> range_of(self.bytes@, buffer.buf_offset, h.buf_len) == Some(d@),
            r is None ==> range_of(self.bytes@, buffer.buf_offset, h.buf_len) is None,
    {
        self.bytes_at(buffer.buf_offset, h.buf_len)
    }

    /// The session-metadata blob that `h` locates.
    pub fn raw_session_info(&self, h: &Header) -> (r: Option<Vec<u8>>)
        ensures
            r matches Some(d) ==> range_of(self.bytes@, h.session_info_offset, h.session_info_len)
                == Some(d@),
            r is None ==> range_of(self.bytes@, h.session_info_offset, h.session_info_len) is None,
    {
        self.bytes_at(h.session_info_offset, h.session_info_len)
    }
}

} // verus!
