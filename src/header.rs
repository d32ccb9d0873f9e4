//! The fixed-offset header at the start of the shared region.

use vstd::prelude::*;
use crate::var_header::VAR_HEADER_LEN;

verus! {

/// The one protocol version this library understands.
pub const IRSDK_VER: i32 = 2;

/// Bit of the status field that the producer sets while it is running.
pub const STATUS_CONNECTED_FLAG: i32 = 1;

/// Number of rotating buffer descriptors in the header.
pub const MAX_BUFS: usize = 4;

/// Length in bytes of the header.
pub const HEADER_LEN: usize = 112;

/// Offset of the first buffer descriptor within the header.
pub const VAR_BUF_BASE: usize = 48;

/// Length in bytes of one buffer descriptor.
pub const VAR_BUF_STRIDE: usize = 16;

/// The unsigned value of the four little-endian bytes at `off`.
pub open spec fn le_u32(b: Seq<u8>, off: int) -> int {
    b[off] as int + b[off + 1] as int * 256 + b[off + 2] as int * 65536 + b[off + 3] as int
        * 16777216
}

/// The two's-complement value of the four little-endian bytes at `off`.
pub open spec fn le_i32(b: Seq<u8>, off: int) -> i32 {
    le_u32(b, off) as u32 as i32
}

/// Reads the little-endian `i32` at `off`.
pub fn read_i32_le(b: &[u8], off: usize) -> (r: i32)
    requires
        off + 4 <= b@.len(),
    ensures
        r == le_i32(b@, off as int),
{
    let v: u32 = b[off] as u32 + b[off + 1] as u32 * 256 + b[off + 2] as u32 * 65536
        + b[off + 3] as u32 * 16777216;
    v as i32
}

/// One rotating data buffer: its tick counter and where its bytes live.
#[derive(Clone, Copy, Debug, PartialEq, Eq, Structural)]
pub struct VarBuf {
    pub tick_count: i32,
    pub buf_offset: i32,
}

/// A copy of the region header.
#[derive(Clone, Debug)]
pub struct Header {
    pub ver: i32,
    pub status: i32,
    pub tick_rate: i32,
    pub session_info_update: i32,
    pub session_info_len: i32,
    pub session_info_offset: i32,
    pub num_vars: i32,
    pub var_header_offset: i32,
    pub num_buf: i32,
    pub buf_len: i32,
    pub var_buf: Vec<VarBuf>,
}

/// Whether a status field has the connected bit set.
pub open spec fn status_connected(status: i32) -> bool {
    status & STATUS_CONNECTED_FLAG != 0
}

/// The `k`-th buffer descriptor as laid out in the header bytes.
pub open spec fn var_buf_at(b: Seq<u8>, k: int) -> VarBuf {
    VarBuf {
        tick_count: le_i32(b, VAR_BUF_BASE + VAR_BUF_STRIDE * k),
        buf_offset: le_i32(b, VAR_BUF_BASE + VAR_BUF_STRIDE * k + 4),
    }
}

/// `h` is the header that the bytes `b` encode.
pub open spec fn header_encoded(h: Header, b: Seq<u8>) -> bool {
    &&& b.len() >= HEADER_LEN
    &&& h.ver == le_i32(b, 0)
    &&& h.status == le_i32(b, 4)
    &&& h.tick_rate == le_i32(b, 8)
    &&& h.session_info_update == le_i32(b, 12)
    &&& h.session_info_len == le_i32(b, 16)
    &&& h.session_info_offset == le_i32(b, 20)
    &&& h.num_vars == le_i32(b, 24)
    &&& h.var_header_offset == le_i32(b, 28)
    &&& h.num_buf == le_i32(b, 32)
    &&& h.buf_len == le_i32(b, 36)
    &&& h.var_buf@.len() == MAX_BUFS
    &&& forall|k: int| 0 <= k < MAX_BUFS ==> #[trigger] h.var_buf@[k] == var_buf_at(b, k)
}

/// Why a connection was refused.
#[derive(Clone, Copy, Debug, PartialEq, Eq, Structural)]
pub struct VersionMismatch {
    pub expected: i32,
    pub received: i32,
}

/// Where a range of `len` bytes at `off` ends; 0 for a range that cannot
/// lie in the region.
pub open spec fn end_of(off: i32, len: int) -> int {
    if off >= 0 && len >= 0 {
        off + len
    } else {
        0
    }
}

impl Header {
    /// The ends of the parts of the region that a poll reads: the header, the
    /// session metadata, the variable-header table and each live buffer.
    pub open spec fn part_ends_within(&self, e: int) -> bool {
        &&& HEADER_LEN <= e
        &&& end_of(self.session_info_offset, self.session_info_len as int) <= e
        &&& end_of(self.var_header_offset, VAR_HEADER_LEN * self.num_vars) <= e
        &&& forall|k: int| 0 <= k < self.live_bufs() ==> #[trigger] end_of(
            self.var_buf@[k].buf_offset,
            self.buf_len as int,
        ) <= e
    }

    /// A header holds one descriptor for each rotating buffer slot.
    pub open spec fn wf(&self) -> bool {
        self.var_buf@.len() == MAX_BUFS
    }

    /// How many descriptors the arbiter looks at: `num_buf` brought into
    /// `1..=MAX_BUFS`.
    pub open spec fn live_bufs(&self) -> int {
        if self.num_buf < 1 {
            1
        } else if self.num_buf > MAX_BUFS {
            MAX_BUFS as int
        } else {
            self.num_buf as int
        }
    }

    /// Decodes the header from the first bytes of the region; `None` when
    /// fewer than `HEADER_LEN` bytes are given.
    pub fn from_bytes(b: &[u8]) -> (r: Option<Header>)
        ensures
            r is None <==> b@.len() < HEADER_LEN,
            r matches Some(h) ==> header_encoded(h, b@) && h.wf(),
    {
        if b.len() < HEADER_LEN {
            return None;
        }
        let mut var_buf: Vec<VarBuf> = Vec::new();
        let mut k: usize = 0;
        while k < MAX_BUFS
            invariant
                k <= MAX_BUFS,
                b@.len() >= HEADER_LEN,
                var_buf@.len() == k,
                forall|j: int| 0 <= j < k ==> #[trigger] var_buf@[j] == var_buf_at(b@, j),
            decreases MAX_BUFS - k,
        {
            let base = VAR_BUF_BASE + VAR_BUF_STRIDE * k;
            let tick_count = read_i32_le(b, base);
            let buf_offset = read_i32_le(b, base + 4);
            var_buf.push(VarBuf { tick_count, buf_offset });
            k += 1;
        }
        Some(Header {
            ver: read_i32_le(b, 0),
            status: read_i32_le(b, 4),
            tick_rate: read_i32_le(b, 8),
            session_info_update: read_i32_le(b, 12),
            session_info_len: read_i32_le(b, 16),
            session_info_offset: read_i32_le(b, 20),
            num_vars: read_i32_le(b, 24),
            var_header_offset: read_i32_le(b, 28),
            num_buf: read_i32_le(b, 32),
            buf_len: read_i32_le(b, 36),
            var_buf,
        })
    }

    /// Whether the producer reports itself as connected.
    pub fn is_header_connected(&self) -> (r: bool)
        ensures
            r == status_connected(self.status),
    {
        self.status & STATUS_CONNECTED_FLAG != 0
    }

    /// The version gate: the header's version must equal `IRSDK_VER`.
    pub fn check_version(&self) -> (r: Result<(), VersionMismatch>)
        ensures
            r is Ok <==> self.ver == IRSDK_VER,
            r matches Err(e) ==> e.expected == IRSDK_VER && e.received == self.ver,
    {
        if self.ver == IRSDK_VER {
            Ok(())
        } else {
            Err(VersionMismatch { expected: IRSDK_VER, received: self.ver })
        }
    }

    /// How many leading bytes of the region a poll may read: the largest end
    /// among the parts the header locates.
    pub fn region_extent(&self) -> (r: i64)
        requires
            self.wf(),
        ensures
            self.part_ends_within(r as int),
            r == HEADER_LEN || r == end_of(self.session_info_offset, self.session_info_len as int) || r
                == end_of(self.var_header_offset, VAR_HEADER_LEN * self.num_vars) || exists|k: int|
                0 <= k < self.live_bufs() && r == #[trigger] end_of(
                    self.var_buf@[k].buf_offset,
                    self.buf_len as int,
                ),
    {
        let mut e: i64 = HEADER_LEN as i64;
        if self.session_info_offset >= 0 && self.session_info_len >= 0 {
            let end = self.session_info_offset as i64 + self.session_info_len as i64;
            if end > e {
                e = end;
            }
        }
        if self.var_header_offset >= 0 && self.num_vars >= 0 {
            let end = self.var_header_offset as i64 + VAR_HEADER_LEN as i64 * self.num_vars as i64;
            if end > e {
                e = end;
            }
        }
        let n: usize = if self.num_buf < 1 {
            1
        } else if self.num_buf > MAX_BUFS as i32 {
            MAX_BUFS
        } else {
            self.num_buf as usize
        };
        let ghost e0 = e;
        let mut k: usize = 0;
        while k < n
            invariant
                n == self.live_bufs(),
                self.wf(),
                k <= n,
                e0 <= e,
                HEADER_LEN <= e0,
                end_of(self.session_info_offset, self.session_info_len as int) <= e0,
                end_of(self.var_header_offset, VAR_HEADER_LEN * self.num_vars) <= e0,
                e0 == HEADER_LEN || e0 == end_of(self.session_info_offset, self.session_info_len as int)
                    || e0 == end_of(self.var_header_offset, VAR_HEADER_LEN * self.num_vars),
                e == e0 || exists|j: int| 0 <= j < k && e == #[trigger] end_of(
                    self.var_buf@[j].buf_offset,
                    self.buf_len as int,
                ),
                forall|j: int| 0 <= j < k ==> #[trigger] end_of(
                    self.var_buf@[j].buf_offset,
                    self.buf_len as int,
                ) <= e,
            decreases n - k,
        {
            let b = self.var_buf[k];
            if b.buf_offset >= 0 && self.buf_len >= 0 {
                let end = b.buf_offset as i64 + self.buf_len as i64;
                if end > e {
                    e = end;
                    assert(e == end_of(self.var_buf@[k as int].buf_offset, self.buf_len as int));
                }
            }
            k += 1;
        }
        e
    }

    /// The index of the freshest buffer: the largest tick counter among the
    /// live descriptors, the lowest index among equal ones.
    pub fn latest_buffer_index(&self) -> (r: usize)
        requires
            self.wf(),
        ensures
            r < self.live_bufs(),
            forall|j: int| 0 <= j < self.live_bufs() ==> #[trigger] self.var_buf@[j].tick_count
                <= self.var_buf@[r as int].tick_count,
            forall|j: int| 0 <= j < r ==> #[trigger] self.var_buf@[j].tick_count
                < self.var_buf@[r as int].tick_count,
    {
        let n: usize = if self.num_buf < 1 {
            1
        } else if self.num_buf > MAX_BUFS as i32 {
            MAX_BUFS
        } else {
            self.num_buf as usize
        };
        let mut best: usize = 0;
        let mut idx: usize = 1;
        while idx < n
            invariant
                n == self.live_bufs(),
                self.wf(),
                1 <= idx <= n,
                best < idx,
                forall|j: int| 0 <= j < idx ==> #[trigger] self.var_buf@[j].tick_count
                    <= self.var_buf@[best as int].tick_count,
                forall|j: int| 0 <= j < best ==> #[trigger] self.var_buf@[j].tick_count
                    < self.var_buf@[best as int].tick_count,
            decreases n - idx,
        {
            if self.var_buf[best].tick_count < self.var_buf[idx].tick_count {
                best = idx;
            }
            idx += 1;
        }
        best
    }
}

} // verus!
