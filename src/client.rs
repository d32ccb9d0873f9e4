//! The acquisition client: liveness, freshness, torn-read rejection and the
//! caches, one poll cycle at a time.
//!
//! The caller owns the live region. For each cycle it copies the region into
//! a `SharedMemory` (header first), re-reads the tick counter of the buffer
//! that `latest_buffer_index` picks on that copy, and hands both to
//! `get_new_sim_state`.

use std::sync::Arc;
use vstd::prelude::*;
use yaml_rust::Yaml;
use crate::header::{
    header_encoded, le_i32, status_connected, var_buf_at, Header, VersionMismatch, HEADER_LEN, MAX_BUFS,
    VAR_BUF_BASE, VAR_BUF_STRIDE,
};
use crate::region::{range_of, SharedMemory};
use crate::session_info::{cached_update, session_parse_error, share, SessionInfoCache, SessionLookup};
use crate::var_header::{raw_entries, table_of, views, VarHeader};

verus! {

/// A client that has seen no successful read for this long is disconnected.
pub const CLIENT_TIMEOUT_MS: u64 = 30000;

/// The staleness part of the liveness rule: no read has succeeded yet, or
/// the last one is less than the timeout ago.
pub open spec fn timer_live(last_valid_time: Option<u64>, now_ms: u64) -> bool {
    match last_valid_time {
        None => true,
        Some(t) => t <= now_ms && now_ms - t < CLIENT_TIMEOUT_MS,
    }
}

/// The liveness rule: the producer's connected bit is set and the last
/// successful read is recent enough.
pub open spec fn still_live(connected_bit: bool, last_valid_time: Option<u64>, now_ms: u64) -> bool {
    connected_bit && timer_live(last_valid_time, now_ms)
}

/// `i` is the freshest of the header's live buffers: its tick counter is the
/// largest, and no earlier buffer has an equal one.
pub open spec fn freshest(h: Header, i: int) -> bool {
    &&& 0 <= i < h.live_bufs()
    &&& forall|j: int| 0 <= j < h.live_bufs() ==> #[trigger] h.var_buf@[j].tick_count
        <= h.var_buf@[i].tick_count
    &&& forall|j: int| 0 <= j < i ==> #[trigger] h.var_buf@[j].tick_count < h.var_buf@[i].tick_count
}

/// The tick counter of buffer descriptor `i` in the header of region `b`.
pub open spec fn tick_at(b: Seq<u8>, i: int) -> i32 {
    le_i32(b, VAR_BUF_BASE + VAR_BUF_STRIDE * i)
}

/// `i` is the freshest live buffer that the header of region `b` describes.
pub open spec fn freshest_in(b: Seq<u8>, i: int) -> bool {
    let n = le_i32(b, 32);
    let live: int = if n < 1 {
        1
    } else if n > MAX_BUFS {
        MAX_BUFS as int
    } else {
        n as int
    };
    &&& 0 <= i < live
    &&& forall|j: int| 0 <= j < live ==> #[trigger] tick_at(b, j) <= tick_at(b, i)
    &&& forall|j: int| 0 <= j < i ==> #[trigger] tick_at(b, j) < tick_at(b, i)
}

/// The copy `b` yields a snapshot from buffer `i`: it is the freshest one,
/// newer than the last tick delivered, unchanged when re-read after the copy,
/// and its data lies within the copy.
pub open spec fn read_succeeds(last_tick: Option<i32>, b: Seq<u8>, tick_after_copy: i32, i: int) -> bool {
    &&& freshest_in(b, i)
    &&& (last_tick matches Some(l) ==> l < tick_at(b, i))
    &&& tick_after_copy == tick_at(b, i)
    &&& range_of(b, le_i32(b, VAR_BUF_BASE + VAR_BUF_STRIDE * i + 4), le_i32(b, 36)) is Some
}

/// The copy `b` is torn at buffer `i`: the freshest buffer is newer than the
/// last tick delivered but its counter moved while the copy was taken.
pub open spec fn read_torn(last_tick: Option<i32>, b: Seq<u8>, tick_after_copy: i32, i: int) -> bool {
    &&& freshest_in(b, i)
    &&& (last_tick matches Some(l) ==> l < tick_at(b, i))
    &&& tick_after_copy != tick_at(b, i)
}

proof fn lemma_freshest_unique(b: Seq<u8>, i: int, j: int)
    requires
        freshest_in(b, i),
        freshest_in(b, j),
    ensures
        i == j,
{
    if i < j {
        assert(tick_at(b, i) < tick_at(b, j));
        assert(tick_at(b, j) <= tick_at(b, i));
    } else if j < i {
        assert(tick_at(b, j) < tick_at(b, i));
        assert(tick_at(b, i) <= tick_at(b, j));
    }
}

proof fn lemma_freshest_of_header(h: Header, b: Seq<u8>, i: int)
    requires
        header_encoded(h, b),
        freshest(h, i),
    ensures
        freshest_in(b, i),
{
    assert forall|j: int| 0 <= j < MAX_BUFS implies #[trigger] tick_at(b, j) == h.var_buf@[j].tick_count by {
        assert(h.var_buf@[j] == var_buf_at(b, j));
    }
}

/// One consistent snapshot of the producer's state.
pub struct SimState {
    pub header: Header,
    pub buffer_index: usize,
    pub tick_count: i32,
    pub vars: Arc<Vec<VarHeader>>,
    pub data: Vec<u8>,
    pub session_info: Arc<Yaml>,
}

/// What one poll cycle came to.
pub enum Poll {
    /// A fresh, consistent snapshot.
    Ready(SimState),
    /// The copy was torn: copy the region again now.
    Retry,
    /// Nothing new this cycle: wait for the producer's next signal.
    Pending,
    /// The link is dead; no snapshot will follow.
    Disconnected,
}

/// The tick of the snapshot a poll emitted, if it emitted one.
pub open spec fn emitted(r: &Poll) -> Option<i32> {
    match r {
        Poll::Ready(s) => Some(s.tick_count),
        _ => None,
    }
}

/// Where connecting to an open region stands.
pub enum ConnectStep {
    /// The producer is not connected yet: wait for its signal and look again.
    WaitForSignal,
    /// The version gate passed.
    Connected(Client),
    /// The region speaks another protocol version.
    Refused(VersionMismatch),
}

/// What the freshness and liveness rules depend on.
pub struct ClientModel {
    pub last_tick: Option<i32>,
    pub disconnected: bool,
}

/// How one poll may move a client from `pre` to `post` while emitting
/// `out`: a disconnected client stays so and emits nothing; an emitted tick
/// is newer than every tick emitted before and becomes the last one; a poll
/// that emits nothing leaves the last tick, unless it disconnects.
pub open spec fn advances(pre: ClientModel, post: ClientModel, out: Option<i32>) -> bool {
    &&& pre.disconnected ==> post.disconnected && out is None
    &&& match out {
        Some(t) => {
            &&& !post.disconnected
            &&& (pre.last_tick matches Some(l) ==> l < t)
            &&& post.last_tick == Some(t)
        },
        None => post.disconnected || post.last_tick == pre.last_tick,
    }
}

/// Every step of `states` is a poll that emitted `outs` at that step.
pub open spec fn is_run(states: Seq<ClientModel>, outs: Seq<Option<i32>>) -> bool {
    &&& states.len() == outs.len() + 1
    &&& forall|k: int| 0 <= k < outs.len() ==> #[trigger] advances(states[k], states[k + 1], outs[k])
}

proof fn lemma_last_tick_holds(states: Seq<ClientModel>, outs: Seq<Option<i32>>, i: int, k: int)
    requires
        is_run(states, outs),
        0 <= i < k <= outs.len(),
        outs[i] is Some,
    ensures
        states[k].disconnected || (states[k].last_tick matches Some(l) && outs[i]->0 <= l),
    decreases k - i,
{
    if k > i + 1 {
        lemma_last_tick_holds(states, outs, i, k - 1);
        let m = k - 1;
        assert(advances(states[m], states[m + 1], outs[m]));
    } else {
        assert(advances(states[i], states[i + 1], outs[i]));
    }
}

/// Freshness: along any run of polls, the ticks of the emitted snapshots
/// strictly increase, so no snapshot is emitted twice.
pub proof fn lemma_emitted_ticks_increase(states: Seq<ClientModel>, outs: Seq<Option<i32>>, i: int, j: int)
    requires
        is_run(states, outs),
        0 <= i < j < outs.len(),
        outs[i] is Some,
        outs[j] is Some,
    ensures
        outs[i]->0 < outs[j]->0,
{
    lemma_last_tick_holds(states, outs, i, j);
    assert(advances(states[j], states[j + 1], outs[j]));
}

/// Disconnection is terminal: once a run reaches a disconnected state, no
/// later poll emits a snapshot.
pub proof fn lemma_disconnected_emits_nothing(states: Seq<ClientModel>, outs: Seq<Option<i32>>, i: int, j: int)
    requires
        is_run(states, outs),
        0 <= i <= j < outs.len(),
        states[i].disconnected,
    ensures
        outs[j] is None,
        states[j + 1].disconnected,
    decreases j - i,
{
    if j > i {
        lemma_disconnected_emits_nothing(states, outs, i, j - 1);
    }
    assert(advances(states[j], states[j + 1], outs[j]));
}

/// The consumer's side of the protocol.
pub struct Client {
    pub vars_at_buf_len: Option<i32>,
    pub vars: Arc<Vec<VarHeader>>,
    pub session_info_cache: SessionInfoCache,
    pub last_tick_count: Option<i32>,
    pub last_valid_time: Option<u64>,
    pub torn_reads: u8,
    pub disconnected: bool,
}

/// A poll of client `c` on the copy `b` at `now_ms` gets past the liveness
/// rule: the client is not disconnected, the copy holds a header, and the
/// link is live.
pub open spec fn proceeds(c: Client, b: Seq<u8>, now_ms: u64) -> bool {
    &&& !c.disconnected
    &&& b.len() >= HEADER_LEN
    &&& still_live(status_connected(le_i32(b, 4)), c.last_valid_time, now_ms)
}

impl Client {
    /// The retry counter of a cycle never passes one.
    pub open spec fn wf(&self) -> bool {
        self.torn_reads <= 1
    }

    pub open spec fn model(&self) -> ClientModel {
        ClientModel { last_tick: self.last_tick_count, disconnected: self.disconnected }
    }

    /// Starts a client on a region whose header is `h`: refused unless the
    /// header's version is the supported one. Nothing but the header is read.
    pub fn new(h: &Header) -> (r: Result<Client, VersionMismatch>)
        ensures
            r is Ok <==> h.ver == crate::header::IRSDK_VER,
            r matches Err(e) ==> e.expected == crate::header::IRSDK_VER && e.received == h.ver,
            r matches Ok(c) ==> c.wf() && !c.disconnected && c.last_tick_count is None && (*c.vars)@.len() == 0
                && c.last_valid_time is None && c.vars_at_buf_len is None
                && cached_update(c.session_info_cache.content) is None,
    {
        match h.check_version() {
            Ok(()) => Ok(Client {
                vars_at_buf_len: None,
                vars: Arc::new(Vec::new()),
                session_info_cache: SessionInfoCache::new(),
                last_tick_count: None,
                last_valid_time: None,
                torn_reads: 0,
                disconnected: false,
            }),
            Err(e) => Err(e),
        }
    }

    /// The liveness rule applied to header `h` at time `now_ms`.
    pub fn is_connected(&self, h: &Header, now_ms: u64) -> (r: bool)
        ensures
            r == still_live(status_connected(h.status), self.last_valid_time, now_ms),
    {
        h.is_header_connected() && self.timer_is_live(now_ms)
    }

    /// The staleness part of the liveness rule at time `now_ms`.
    pub fn timer_is_live(&self, now_ms: u64) -> (r: bool)
        ensures
            r == timer_live(self.last_valid_time, now_ms),
    {
        match self.last_valid_time {
            None => true,
            Some(t) => t <= now_ms && now_ms - t < CLIENT_TIMEOUT_MS,
        }
    }

    /// The connection step once the region and the event are open: wait for
    /// the producer's signal while the copy shows no connected header, then
    /// apply the version gate to the header.
    pub fn connect_step(image: &SharedMemory) -> (r: ConnectStep)
        ensures
            !(image.bytes@.len() >= HEADER_LEN && status_connected(le_i32(image.bytes@, 4)))
                <==> r is WaitForSignal,
            r matches ConnectStep::Refused(e) ==> e.expected == crate::header::IRSDK_VER && e.received
                == le_i32(image.bytes@, 0) && e.received != crate::header::IRSDK_VER,
            image.bytes@.len() >= HEADER_LEN && status_connected(le_i32(image.bytes@, 4)) ==> (r is Connected
                <==> le_i32(image.bytes@, 0) == crate::header::IRSDK_VER),
            r matches ConnectStep::Connected(c) ==> c.wf() && !c.disconnected && c.last_tick_count is None
                && c.last_valid_time is None && c.vars_at_buf_len is None && (*c.vars)@.len() == 0
                && cached_update(c.session_info_cache.content) is None,
    {
        if !image.is_header_connected() {
            return ConnectStep::WaitForSignal;
        }
        match image.header() {
            Some(h) => match Client::new(&h) {
                Ok(c) => ConnectStep::Connected(c),
                Err(e) => ConnectStep::Refused(e),
            },
            None => ConnectStep::WaitForSignal,
        }
    }

    /// One poll cycle on `image`, a copy of the region, where
    /// `tick_after_copy` is the tick counter of the buffer that
    /// `latest_buffer_index` selects on the copy, read again from the live
    /// region once the copy was done.
    pub fn get_new_sim_state(&mut self, image: &SharedMemory, tick_after_copy: i32, now_ms: u64) -> (r: Poll)
        requires
            old(self).wf(),
        ensures
            final(self).wf(),
            advances(old(self).model(), final(self).model(), emitted(&r)),
            r is Disconnected <==> final(self).disconnected,
            old(self).disconnected ==> r is Disconnected && final(self).last_tick_count == old(self).last_tick_count,
            !old(self).disconnected && image.bytes@.len() >= HEADER_LEN ==> (r is Disconnected <==> !still_live(
                status_connected(le_i32(image.bytes@, 4)),
                old(self).last_valid_time,
                now_ms,
            )),
            r is Retry ==> old(self).torn_reads == 0 && final(self).torn_reads == 1,
            !old(self).disconnected && image.bytes@.len() < HEADER_LEN ==> if timer_live(
                old(self).last_valid_time,
                now_ms,
            ) {
                r is Pending
            } else {
                r is Disconnected
            },
            forall|i: int| #![trigger freshest_in(image.bytes@, i)]
                !old(self).disconnected && image.bytes@.len() >= HEADER_LEN && still_live(
                    status_connected(le_i32(image.bytes@, 4)),
                    old(self).last_valid_time,
                    now_ms,
                ) && freshest_in(image.bytes@, i) ==> {
                    &&& (read_torn(old(self).last_tick_count, image.bytes@, tick_after_copy, i)
                        ==> (r is Retry <==> old(self).torn_reads == 0) && (r is Pending <==> old(self).torn_reads == 1))
                    &&& (!read_succeeds(old(self).last_tick_count, image.bytes@, tick_after_copy, i)
                        && !read_torn(old(self).last_tick_count, image.bytes@, tick_after_copy, i) ==> r is Pending)
                    &&& (read_succeeds(old(self).last_tick_count, image.bytes@, tick_after_copy, i)
                        && cached_update(old(self).session_info_cache.content) == Some(le_i32(image.bytes@, 12))
                        ==> r is Ready)
                    &&& (read_succeeds(old(self).last_tick_count, image.bytes@, tick_after_copy, i)
                        && cached_update(old(self).session_info_cache.content) != Some(le_i32(image.bytes@, 12))
                        ==> match range_of(image.bytes@, le_i32(image.bytes@, 20), le_i32(image.bytes@, 16)) {
                            Some(raw) => if session_parse_error(raw) is None {
                                r is Ready
                            } else {
                                r is Pending
                            },
                            None => r is Pending,
                        })
                    &&& (read_succeeds(old(self).last_tick_count, image.bytes@, tick_after_copy, i)
                        ==> final(self).last_valid_time == Some(now_ms))
                    &&& (!read_succeeds(old(self).last_tick_count, image.bytes@, tick_after_copy, i)
                        ==> final(self).last_valid_time == old(self).last_valid_time)
                },
            proceeds(*old(self), image.bytes@, now_ms) ==> exists|i: int| freshest_in(image.bytes@, i),
            !proceeds(*old(self), image.bytes@, now_ms) ==> final(self).last_valid_time == old(self).last_valid_time,
            !old(self).disconnected && r is Disconnected ==> final(self).last_tick_count is None,
            r is Retry || r is Pending ==> final(self).last_tick_count == old(self).last_tick_count,
            !(r is Ready) ==> final(self).session_info_cache.content == old(self).session_info_cache.content,
            proceeds(*old(self), image.bytes@, now_ms) && old(self).vars_at_buf_len != Some(le_i32(image.bytes@, 36))
                ==> views((*final(self).vars)@) == table_of(raw_entries(image.bytes@))
                && final(self).vars_at_buf_len == Some(le_i32(image.bytes@, 36)),
            !proceeds(*old(self), image.bytes@, now_ms) || old(self).vars_at_buf_len == Some(le_i32(image.bytes@, 36))
                ==> final(self).vars == old(self).vars && final(self).vars_at_buf_len == old(self).vars_at_buf_len,
            r matches Poll::Ready(s) ==> s.vars == final(self).vars && (final(self).session_info_cache.content
                matches Some((_, d)) && s.session_info == d),
            r matches Poll::Ready(s) ==> read_succeeds(old(self).last_tick_count, image.bytes@, tick_after_copy, s.buffer_index as int),
            r matches Poll::Ready(s) ==> {
                &&& header_encoded(s.header, image.bytes@)
                &&& s.header.wf()
                &&& freshest(s.header, s.buffer_index as int)
                &&& s.tick_count == s.header.var_buf@[s.buffer_index as int].tick_count
                &&& s.tick_count == tick_after_copy
                &&& range_of(image.bytes@, s.header.var_buf@[s.buffer_index as int].buf_offset, s.header.buf_len)
                    == Some(s.data@)
                &&& final(self).last_valid_time == Some(now_ms)
                &&& final(self).vars_at_buf_len == Some(s.header.buf_len)
                &&& cached_update(final(self).session_info_cache.content) == Some(s.header.session_info_update)
            },
    {
        if self.disconnected {
            return Poll::Disconnected;
        }
        let h = match image.header() {
            Some(h) => h,
            None => {
                if self.timer_is_live(now_ms) {
                    return Poll::Pending;
                }
                self.disconnected = true;
                self.last_tick_count = None;
                self.torn_reads = 0;
                return Poll::Disconnected;
            },
        };
        if !self.is_connected(&h, now_ms) {
            self.disconnected = true;
            self.last_tick_count = None;
            self.torn_reads = 0;
            return Poll::Disconnected;
        }
        if self.vars_at_buf_len != Some(h.buf_len) {
            self.vars = Arc::new(image.get_var_headers());
            self.vars_at_buf_len = Some(h.buf_len);
        }
        let idx = h.latest_buffer_index();
        let buffer = h.var_buf[idx];
        proof {
            lemma_freshest_of_header(h, image.bytes@, idx as int);
            assert forall|i: int| freshest_in(image.bytes@, i) implies i == idx by {
                lemma_freshest_unique(image.bytes@, i, idx as int);
            }
            assert(h.var_buf@[idx as int] == var_buf_at(image.bytes@, idx as int));
        }
        match self.last_tick_count {
            Some(l) => {
                if l >= buffer.tick_count {
                    self.torn_reads = 0;
                    return Poll::Pending;
                }
            },
            None => {},
        }
        if tick_after_copy != buffer.tick_count {
            if self.torn_reads == 0 {
                self.torn_reads = 1;
                return Poll::Retry;
            }
            self.torn_reads = 0;
            return Poll::Pending;
        }
        self.torn_reads = 0;
        let data = match image.data(&h, &buffer) {
            Some(d) => d,
            None => return Poll::Pending,
        };
        self.last_valid_time = Some(now_ms);
        let session_info = match self.session_info_cache.get(image, &h) {
            Ok(SessionLookup::Cached(s)) => s,
            Ok(SessionLookup::Parsed(s)) => s,
            Err(_) => return Poll::Pending,
        };
        self.last_tick_count = Some(buffer.tick_count);
        Poll::Ready(
            SimState {
                header: h,
                buffer_index: idx,
                tick_count: buffer.tick_count,
                vars: share(&self.vars),
                data,
                session_info,
            },
        )
    }
}

} // verus!
