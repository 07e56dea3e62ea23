//! UDP stream receiver: reassembles chunked, timestamped frames from parsed
//! datagrams, enforces ordering and freshness, tracks per-counter statistics,
//! and remembers the active remote for feedback routing.
//!
//! The socket loop lives outside the library; it hands every received
//! datagram's bytes, sender and a millisecond clock to [`Receiver::handle_datagram`]
//! and runs the two eviction passes after each receive attempt.

use crate::b64::{base64_decode_of, base64_encode, base64_of};
use crate::codec::{parse_udp_datagram, spec_parse, Datagram, DatagramView};
use crate::stream_id::{parse_stream_id_hex, spec_parse_stream_id, spec_stream_id_hex,
    stream_id_to_hex};
use crate::text::{bytes_eq, trim_spec, trim_str};
use vstd::prelude::*;

verus! {

/// Default listen port.
pub const DEFAULT_LISTEN_PORT: u16 = 5004;

/// Default maximum age of a partial frame, milliseconds.
pub const DEFAULT_MAX_FRAME_AGE_MS: u64 = 40;

/// Default cap on the number of partial frames held.
pub const DEFAULT_MAX_PENDING_FRAMES: usize = 96;

/// Default statistics cadence, milliseconds.
pub const DEFAULT_STATS_INTERVAL_MS: u64 = 1000;

/// `handle_datagram` asks for fewer than this many received packets, so that
/// no counter it maintains can overflow a `u64`.
pub const RECV_LIMIT: u64 = 0x1000000000000;

/// Start options for the receiver, as they arrive over the control surface.
#[allow(non_snake_case)]
pub struct StartUdpLanReceiverOptions {
    pub listenHost: Option<String>,
    pub listenPort: Option<u16>,
    pub streamId: Option<String>,
    pub maxFrameAgeMs: Option<u64>,
    pub maxPendingFrames: Option<usize>,
    pub statsIntervalMs: Option<u64>,
}

/// Receiver options after defaults and clamps have been applied.
pub struct NormalizedOptions {
    pub listen_host: String,
    pub listen_port: u16,
    pub expected_stream_id: Option<Vec<u8>>,
    pub max_frame_age_ms: u64,
    pub max_pending_frames: usize,
    pub stats_interval_ms: u64,
}

/// `x` forced into `[lo, hi]`.
pub open spec fn clamp64(x: u64, lo: u64, hi: u64) -> u64 {
    if x < lo {
        lo
    } else if x > hi {
        hi
    } else {
        x
    }
}

/// `x` forced into `[lo, hi]`.
pub open spec fn clamp_usize_spec(x: usize, lo: usize, hi: usize) -> usize {
    if x < lo {
        lo
    } else if x > hi {
        hi
    } else {
        x
    }
}

/// `a + b`, stopping at the largest `u64`.
pub open spec fn sat_add(a: u64, b: u64) -> u64 {
    if a + b > u64::MAX {
        u64::MAX
    } else {
        (a + b) as u64
    }
}

fn clamp_u64(x: u64, lo: u64, hi: u64) -> (r: u64)
    requires
        lo <= hi,
    ensures
        r == clamp64(x, lo, hi),
{
    if x < lo {
        lo
    } else if x > hi {
        hi
    } else {
        x
    }
}

fn clamp_usize(x: usize, lo: usize, hi: usize) -> (r: usize)
    requires
        lo <= hi,
    ensures
        r == clamp_usize_spec(x, lo, hi),
{
    if x < lo {
        lo
    } else if x > hi {
        hi
    } else {
        x
    }
}

impl NormalizedOptions {
    /// Every normalized option sits in its documented range.
    pub open spec fn wf(&self) -> bool {
        &&& self.listen_port > 0
        &&& 5 <= self.max_frame_age_ms <= 5000
        &&& 2 <= self.max_pending_frames <= 4096
        &&& 250 <= self.stats_interval_ms <= 60000
        &&& match self.expected_stream_id {
            Some(id) => id@.len() == 16,
            None => true,
        }
    }
}

/// Apply defaults and clamps to start options. Fails only on a stream id that
/// is present, non-blank and not 32 hex digits after dash stripping.
pub fn normalize_options(options: StartUdpLanReceiverOptions) -> (r: Result<
    NormalizedOptions,
    String,
>)
    ensures
        r is Ok <==> !(options.streamId matches Some(sid) && trim_spec(sid@).len() > 0
            && spec_parse_stream_id(sid@) is None),
        r matches Ok(o) ==> {
            &&& o.wf()
            &&& o.listen_host@ == (match options.listenHost {
                Some(h) => if trim_spec(h@).len() > 0 {
                    trim_spec(h@)
                } else {
                    "0.0.0.0"@
                },
                None => "0.0.0.0"@,
            })
            &&& o.listen_port == (match options.listenPort {
                Some(p) => if p > 0 {
                    p
                } else {
                    DEFAULT_LISTEN_PORT
                },
                None => DEFAULT_LISTEN_PORT,
            })
            &&& (match options.streamId {
                Some(sid) => if trim_spec(sid@).len() > 0 {
                    o.expected_stream_id matches Some(id) && Some(id@) == spec_parse_stream_id(
                        sid@,
                    )
                } else {
                    o.expected_stream_id is None
                },
                None => o.expected_stream_id is None,
            })
            &&& o.max_frame_age_ms == clamp64(
                match options.maxFrameAgeMs {
                    Some(v) => v,
                    None => DEFAULT_MAX_FRAME_AGE_MS,
                },
                5,
                5000,
            )
            &&& o.max_pending_frames == clamp_usize_spec(
                match options.maxPendingFrames {
                    Some(v) => v,
                    None => DEFAULT_MAX_PENDING_FRAMES,
                },
                2,
                4096,
            )
            &&& o.stats_interval_ms == clamp64(
                match options.statsIntervalMs {
                    Some(v) => v,
                    None => DEFAULT_STATS_INTERVAL_MS,
                },
                250,
                60000,
            )
        },
{
    let listen_host = match options.listenHost {
        Some(h) => {
            let t = trim_str(h.as_str());
            if t.as_str().is_empty() {
                String::from_str("0.0.0.0")
            } else {
                t
            }
        },
        None => String::from_str("0.0.0.0"),
    };

    let listen_port = match options.listenPort {
        Some(p) => if p > 0 {
            p
        } else {
            DEFAULT_LISTEN_PORT
        },
        None => DEFAULT_LISTEN_PORT,
    };

    let expected_stream_id = match options.streamId {
        Some(sid) => {
            let t = trim_str(sid.as_str());
            if t.as_str().is_empty() {
                None
            } else {
                match parse_stream_id_hex(sid.as_str()) {
                    Ok(id) => Some(id),
                    Err(e) => {
                        return Err(e);
                    },
                }
            }
        },
        None => None,
    };

    let max_frame_age_ms = clamp_u64(
        match options.maxFrameAgeMs {
            Some(v) => v,
            None => DEFAULT_MAX_FRAME_AGE_MS,
        },
        5,
        5000,
    );
    let max_pending_frames = clamp_usize(
        match options.maxPendingFrames {
            Some(v) => v,
            None => DEFAULT_MAX_PENDING_FRAMES,
        },
        2,
        4096,
    );
    let stats_interval_ms = clamp_u64(
        match options.statsIntervalMs {
            Some(v) => v,
            None => DEFAULT_STATS_INTERVAL_MS,
        },
        250,
        60000,
    );

    Ok(
        NormalizedOptions {
            listen_host,
            listen_port,
            expected_stream_id,
            max_frame_age_ms,
            max_pending_frames,
            stats_interval_ms,
        },
    )
}

/// Per-receiver statistics counters, plus the first observed remote.
pub struct ReceiverStats {
    pub packets_received: u64,
    pub packets_accepted: u64,
    pub packets_invalid: u64,
    pub packets_duplicate: u64,
    pub packets_stream_mismatch: u64,
    pub frames_completed: u64,
    pub frames_dropped_timeout: u64,
    pub frames_dropped_queue: u64,
    pub frames_dropped_late: u64,
    pub frames_dropped_gap: u64,
    pub missing_chunks: u64,
    pub keyframes_completed: u64,
    pub bytes_reassembled: u64,
    pub seq_gap_frames: u64,
    pub remote_address: Option<String>,
    pub remote_port: Option<u16>,
}

impl ReceiverStats {
    /// Every received datagram is accounted for in exactly one counter
    /// family: parse failures, stream mismatches, late drops, duplicate
    /// chunks, or accepted chunks.
    pub open spec fn accounted(&self) -> bool {
        self.packets_received == self.packets_invalid + self.packets_stream_mismatch
            + self.frames_dropped_late + self.packets_duplicate + self.packets_accepted
    }

    /// All counters are zero and no remote has been seen.
    pub open spec fn is_zeroed(&self) -> bool {
        &&& self.packets_received == 0
        &&& self.packets_accepted == 0
        &&& self.packets_invalid == 0
        &&& self.packets_duplicate == 0
        &&& self.packets_stream_mismatch == 0
        &&& self.frames_completed == 0
        &&& self.frames_dropped_timeout == 0
        &&& self.frames_dropped_queue == 0
        &&& self.frames_dropped_late == 0
        &&& self.frames_dropped_gap == 0
        &&& self.missing_chunks == 0
        &&& self.keyframes_completed == 0
        &&& self.bytes_reassembled == 0
        &&& self.seq_gap_frames == 0
        &&& self.remote_address is None
        &&& self.remote_port is None
    }

    /// All counters start at zero; no remote has been seen.
    pub fn new() -> (r: ReceiverStats)
        ensures
            r.is_zeroed(),
    {
        ReceiverStats {
            packets_received: 0,
            packets_accepted: 0,
            packets_invalid: 0,
            packets_duplicate: 0,
            packets_stream_mismatch: 0,
            frames_completed: 0,
            frames_dropped_timeout: 0,
            frames_dropped_queue: 0,
            frames_dropped_late: 0,
            frames_dropped_gap: 0,
            missing_chunks: 0,
            keyframes_completed: 0,
            bytes_reassembled: 0,
            seq_gap_frames: 0,
            remote_address: None,
            remote_port: None,
        }
    }
}

/// Number of filled slots.
pub open spec fn count_some(s: Seq<Option<Vec<u8>>>) -> int
    decreases s.len(),
{
    if s.len() == 0 {
        0
    } else {
        count_some(s.drop_last()) + if s.last() is Some {
            1int
        } else {
            0int
        }
    }
}

/// The slot contents as mathematical byte strings.
pub open spec fn chunks_model(s: Seq<Option<Vec<u8>>>) -> Seq<Option<Seq<u8>>> {
    s.map_values(
        |c: Option<Vec<u8>>|
            match c {
                Some(v) => Some(v@),
                None => None,
            },
    )
}

/// The filled slots concatenated in index order; empty slots contribute
/// nothing.
pub open spec fn concat_chunks(m: Seq<Option<Seq<u8>>>) -> Seq<u8>
    decreases m.len(),
{
    if m.len() == 0 {
        Seq::empty()
    } else {
        concat_chunks(m.drop_last()) + match m.last() {
            Some(b) => b,
            None => Seq::empty(),
        }
    }
}

/// Reassembly buffer for one frame sequence number.
pub struct PendingFrame {
    pub seq: u32,
    pub timestamp_us: u64,
    pub flags: u8,
    pub total_chunks: u16,
    pub chunks: Vec<Option<Vec<u8>>>,
    pub received_chunks: u16,
    pub first_arrival_ms: u64,
}

impl PendingFrame {
    /// One slot per chunk; the received count equals the filled slots.
    pub open spec fn wf(&self) -> bool {
        &&& self.total_chunks > 0
        &&& self.chunks@.len() == self.total_chunks
        &&& self.received_chunks == count_some(self.chunks@)
    }
}

/// The last seen remote endpoint, the destination for feedback reports.
pub struct RemoteEndpoint {
    pub address: String,
    pub port: u16,
}

/// Receiver state: options, counters, the ordered reassembly buffer, the
/// latched stream id, the last delivered sequence and the feedback route.
pub struct Receiver {
    pub options: NormalizedOptions,
    pub stats: ReceiverStats,
    pub pending: Vec<PendingFrame>,
    pub active_stream_id: Option<Vec<u8>>,
    pub last_delivered_seq: Option<u32>,
    pub route_remote: Option<RemoteEndpoint>,
}

impl Receiver {
    /// Frame counters never outrun the packets that fed them: every
    /// completed, dropped or still-pending frame consumed at least one
    /// accepted packet.
    pub open spec fn frames_accounted(&self) -> bool {
        self.stats.frames_completed + self.stats.frames_dropped_gap
            + self.stats.frames_dropped_timeout + self.stats.frames_dropped_queue
            + self.pending@.len() <= self.stats.packets_accepted
    }

    /// Pending entries are strictly ordered by sequence number.
    pub open spec fn pending_sorted(&self) -> bool {
        forall|i: int, j: int|
            0 <= i < j < self.pending@.len() ==> self.pending@[i].seq < self.pending@[j].seq
    }

    /// Every pending entry is well formed, partially filled, and incomplete.
    pub open spec fn pending_wf(&self) -> bool {
        forall|i: int|
            0 <= i < self.pending@.len() ==> {
                &&& (#[trigger] self.pending@[i]).wf()
                &&& 0 < self.pending@[i].received_chunks < self.pending@[i].total_chunks
            }
    }

    /// Receiver invariant, established by `new` and preserved by every
    /// operation.
    pub open spec fn wf(&self) -> bool {
        &&& self.options.wf()
        &&& self.stats.accounted()
        &&& self.frames_accounted()
        &&& self.keyframes_bounded()
        &&& self.pending_sorted()
        &&& self.pending_wf()
        &&& match self.active_stream_id {
            Some(id) => id@.len() == 16,
            None => true,
        }
        &&& match (self.options.expected_stream_id, self.active_stream_id) {
            (Some(e), Some(a)) => e@ == a@,
            _ => true,
        }
    }

    /// Keyframes are a subset of completed frames.
    pub open spec fn keyframes_bounded(&self) -> bool {
        self.stats.keyframes_completed <= self.stats.frames_completed
    }

    /// A datagram passes the stream gate when it matches the configured
    /// stream id, if any, and the latched one, if any.
    pub open spec fn gate_ok(&self, d: DatagramView) -> bool {
        &&& match self.options.expected_stream_id {
            Some(e) => e@ == d.stream_id,
            None => true,
        }
        &&& match self.active_stream_id {
            Some(a) => a@ == d.stream_id,
            None => true,
        }
    }

    /// A datagram is late when a frame with the same or a higher sequence
    /// number was already delivered.
    pub open spec fn is_late(&self, d: DatagramView) -> bool {
        match self.last_delivered_seq {
            Some(l) => d.seq <= l,
            None => false,
        }
    }

    /// A fresh receiver with zeroed counters and an empty buffer.
    pub fn new(options: NormalizedOptions) -> (r: Receiver)
        requires
            options.wf(),
        ensures
            r.wf(),
            r.options == options,
            r.stats.is_zeroed(),
            r.pending@.len() == 0,
            r.active_stream_id is None,
            r.last_delivered_seq is None,
            r.route_remote is None,
    {
        Receiver {
            options,
            stats: ReceiverStats::new(),
            pending: Vec::new(),
            active_stream_id: None,
            last_delivered_seq: None,
            route_remote: None,
        }
    }
}

/// One reassembled frame, ready to publish as a `udp-lan-frame` event.
pub struct FrameEvent {
    /// Hex rendering of the latched stream id.
    pub stream_id_hex: String,
    pub seq: u32,
    pub timestamp_us: u64,
    pub flags: u8,
    pub total_chunks: u16,
    pub received_chunks: u16,
    /// Length of the reassembled payload in bytes.
    pub payload_bytes: usize,
    /// Standard base64 rendering of the payload.
    pub payload_base64: String,
    /// The reassembled payload itself.
    pub payload: Vec<u8>,
}

/// What became of one received datagram.
pub enum DatagramOutcome {
    /// Malformed; counted in `packets_invalid`.
    Invalid,
    /// Wrong stream id; counted in `packets_stream_mismatch`.
    StreamMismatch,
    /// At or before the last delivered sequence; counted in
    /// `frames_dropped_late`.
    Late,
    /// Contradicts the chunk count of its pending frame, which is discarded;
    /// counted in `packets_invalid`.
    BadTotalChunks,
    /// Fills an already-filled slot; counted in `packets_duplicate`.
    Duplicate,
    /// Accepted into the reassembly buffer.
    Stored,
    /// Accepted and completed its frame.
    Completed(FrameEvent),
}

/// Unfilled slots of one buffered frame.
pub open spec fn missing_in(e: PendingFrame) -> u64 {
    if e.received_chunks <= e.total_chunks {
        (e.total_chunks - e.received_chunks) as u64
    } else {
        0u64
    }
}

/// The missing-chunks counter after dropping every frame of `s`, in order,
/// each tallying its unfilled slots, saturating at the largest `u64`.
pub open spec fn missing_after(acc: u64, s: Seq<PendingFrame>) -> u64
    decreases s.len(),
{
    if s.len() == 0 {
        acc
    } else {
        sat_add(missing_after(acc, s.drop_last()), missing_in(s.last()))
    }
}

/// The missing-chunks counter after dropping only the expired frames of `s`.
pub open spec fn missing_after_expired(acc: u64, s: Seq<PendingFrame>, now_ms: u64, age_ms: u64) -> u64
    decreases s.len(),
{
    if s.len() == 0 {
        acc
    } else {
        let m = missing_after_expired(acc, s.drop_last(), now_ms, age_ms);
        if frame_expired(s.last(), now_ms, age_ms) {
            sat_add(m, missing_in(s.last()))
        } else {
            m
        }
    }
}

/// Some entry holds this sequence number.
pub open spec fn has_seq(s: Seq<PendingFrame>, q: u32) -> bool {
    exists|i: int| 0 <= i < s.len() && (#[trigger] s[i]).seq == q
}

/// The stream id was latched and the feedback route points at the sender; the
/// first accepted datagram also records the remote in the statistics.
pub open spec fn route_updated(o: Receiver, f: Receiver, sid: Seq<u8>, addr: Seq<char>, port: u16) -> bool {
    &&& f.active_stream_id matches Some(a) && a@ == sid
    &&& f.route_remote matches Some(e) && e.address@ == addr && e.port == port
    &&& if o.stats.remote_address is None {
        &&& f.stats.remote_address matches Some(ra) && ra@ == addr
        &&& f.stats.remote_port == Some(port)
    } else {
        &&& f.stats.remote_address == o.stats.remote_address
        &&& f.stats.remote_port == o.stats.remote_port
    }
}

/// Neither the latched stream, the feedback route, nor the recorded remote
/// moved.
pub open spec fn route_unchanged(o: Receiver, f: Receiver) -> bool {
    &&& f.active_stream_id == o.active_stream_id
    &&& f.route_remote == o.route_remote
    &&& f.stats.remote_address == o.stats.remote_address
    &&& f.stats.remote_port == o.stats.remote_port
}

/// Exactly one packet counter family advanced.
pub open spec fn stats_step(
    o: ReceiverStats,
    f: ReceiverStats,
    invalid: int,
    mismatch: int,
    late: int,
    dup: int,
    accepted: int,
) -> bool {
    &&& f.packets_received == o.packets_received + 1
    &&& f.packets_invalid == o.packets_invalid + invalid
    &&& f.packets_stream_mismatch == o.packets_stream_mismatch + mismatch
    &&& f.frames_dropped_late == o.frames_dropped_late + late
    &&& f.packets_duplicate == o.packets_duplicate + dup
    &&& f.packets_accepted == o.packets_accepted + accepted
}

/// No frame-level counter moved.
pub open spec fn frame_counters_unchanged(o: ReceiverStats, f: ReceiverStats) -> bool {
    &&& f.frames_completed == o.frames_completed
    &&& f.frames_dropped_timeout == o.frames_dropped_timeout
    &&& f.frames_dropped_queue == o.frames_dropped_queue
    &&& f.frames_dropped_gap == o.frames_dropped_gap
    &&& f.keyframes_completed == o.keyframes_completed
    &&& f.bytes_reassembled == o.bytes_reassembled
    &&& f.missing_chunks == o.missing_chunks
    &&& f.seq_gap_frames == o.seq_gap_frames
}

/// The new entry differs from the old only in the one freshly filled slot.
pub open spec fn updated_entry(e: PendingFrame, e2: PendingFrame, d: DatagramView) -> bool {
    &&& e2.seq == e.seq
    &&& e2.timestamp_us == e.timestamp_us
    &&& e2.flags == e.flags
    &&& e2.total_chunks == e.total_chunks
    &&& e2.first_arrival_ms == e.first_arrival_ms
    &&& e2.received_chunks == e.received_chunks + 1
    &&& chunks_model(e2.chunks@) == chunks_model(e.chunks@).update(
        d.chunk_index as int,
        Some(d.payload),
    )
}

/// A buffer entry freshly created from this datagram's first chunk.
pub open spec fn fresh_entry(e2: PendingFrame, d: DatagramView, now_ms: u64) -> bool {
    &&& e2.seq == d.seq
    &&& e2.timestamp_us == d.timestamp_us
    &&& e2.flags == d.flags
    &&& e2.total_chunks == d.total_chunks
    &&& e2.first_arrival_ms == now_ms
    &&& e2.received_chunks == 1
    &&& chunks_model(e2.chunks@) == Seq::new(
        d.total_chunks as nat,
        |j: int|
            if j == d.chunk_index {
                Some(d.payload)
            } else {
                None
            },
    )
}

/// Storing a chunk either fills one slot of its frame's entry or inserts a
/// fresh entry, keeping the buffer ordered.
pub open spec fn stored_pending(o: Receiver, f: Receiver, d: DatagramView, now_ms: u64) -> bool {
    if has_seq(o.pending@, d.seq) {
        exists|i: int|
            #![auto]
            {
                &&& 0 <= i < o.pending@.len()
                &&& o.pending@[i].seq == d.seq
                &&& f.pending@ == o.pending@.update(i, f.pending@[i])
                &&& updated_entry(o.pending@[i], f.pending@[i], d)
            }
    } else {
        exists|i: int|
            #![auto]
            {
                &&& 0 <= i <= o.pending@.len()
                &&& f.pending@ == o.pending@.insert(i, f.pending@[i])
                &&& fresh_entry(f.pending@[i], d, now_ms)
            }
    }
}

/// With a sequence gap, every buffered frame below the completed sequence was
/// evicted (they form a prefix of the ordered buffer); without one, nothing
/// was.
pub open spec fn prefix_evicted(
    base: Seq<PendingFrame>,
    after: Seq<PendingFrame>,
    s: u32,
    k: int,
    gap_cond: bool,
) -> bool {
    if gap_cond {
        &&& 0 <= k <= base.len()
        &&& after == base.skip(k)
        &&& forall|j: int| 0 <= j < k ==> (#[trigger] base[j]).seq < s
        &&& (k == base.len() || base[k].seq >= s)
    } else {
        k == 0 && after == base
    }
}

/// A frame completing at `s` leaves a gap when an earlier delivery exists and
/// `s` does not directly follow it.
pub open spec fn gap_cond_of(last: Option<u32>, s: u32) -> bool {
    match last {
        Some(l) => s > l + 1,
        None => false,
    }
}

/// On a sequence gap the gap size is tallied and every buffered frame below
/// the delivered sequence is evicted and counted; without a gap the buffer
/// keeps everything but the delivered entry.
pub open spec fn gap_evictions(o: Receiver, f: Receiver, s: u32) -> bool {
    &&& f.stats.seq_gap_frames == (match o.last_delivered_seq {
        Some(l) => if s > l + 1 {
            sat_add(o.stats.seq_gap_frames, (s - l - 1) as u64)
        } else {
            o.stats.seq_gap_frames
        },
        None => o.stats.seq_gap_frames,
    })
    &&& if has_seq(o.pending@, s) {
        exists|i: int, k: int|
            #![auto]
            {
                &&& 0 <= i < o.pending@.len()
                &&& o.pending@[i].seq == s
                &&& prefix_evicted(
                    o.pending@.remove(i),
                    f.pending@,
                    s,
                    k,
                    gap_cond_of(o.last_delivered_seq, s),
                )
                &&& f.stats.frames_dropped_gap == o.stats.frames_dropped_gap + k
                &&& f.stats.missing_chunks == missing_after(
                    o.stats.missing_chunks,
                    o.pending@.remove(i).take(k),
                )
            }
    } else {
        exists|k: int|
            #![auto]
            {
                &&& prefix_evicted(
                    o.pending@,
                    f.pending@,
                    s,
                    k,
                    gap_cond_of(o.last_delivered_seq, s),
                )
                &&& f.stats.frames_dropped_gap == o.stats.frames_dropped_gap + k
                &&& f.stats.missing_chunks == missing_after(
                    o.stats.missing_chunks,
                    o.pending@.take(k),
                )
            }
    }
}

/// A frame was delivered at a sequence above every earlier delivery.
pub open spec fn completed_event(o: Receiver, d: DatagramView, ev: FrameEvent) -> bool {
    &&& ev.seq == d.seq
    &&& ev.payload_bytes == ev.payload@.len()
    &&& ev.payload_base64@ == base64_of(ev.payload@)
    &&& base64_decode_of(ev.payload_base64@) == Some(ev.payload@)
    &&& ev.stream_id_hex@ == spec_stream_id_hex(d.stream_id)
    &&& ev.total_chunks == d.total_chunks
    &&& ev.received_chunks == d.total_chunks
    &&& if has_seq(o.pending@, d.seq) {
        exists|i: int|
            #![auto]
            {
                &&& 0 <= i < o.pending@.len()
                &&& o.pending@[i].seq == d.seq
                &&& ev.timestamp_us == o.pending@[i].timestamp_us
                &&& ev.flags == o.pending@[i].flags
                &&& ev.payload@ == concat_chunks(
                    chunks_model(o.pending@[i].chunks@).update(
                        d.chunk_index as int,
                        Some(d.payload),
                    ),
                )
            }
    } else {
        &&& d.total_chunks == 1
        &&& ev.timestamp_us == d.timestamp_us
        &&& ev.flags == d.flags
        &&& ev.payload@ == d.payload
    }
}

proof fn lemma_gap_evictions_intro(o: Receiver, f: Receiver, s: u32, i: int, k: int, found: bool)
    requires
        found == has_seq(o.pending@, s),
        found ==> 0 <= i < o.pending@.len() && o.pending@[i].seq == s && prefix_evicted(
            o.pending@.remove(i),
            f.pending@,
            s,
            k,
            gap_cond_of(o.last_delivered_seq, s),
        ),
        !found ==> prefix_evicted(
            o.pending@,
            f.pending@,
            s,
            k,
            gap_cond_of(o.last_delivered_seq, s),
        ),
        f.stats.frames_dropped_gap == o.stats.frames_dropped_gap + k,
        found ==> f.stats.missing_chunks == missing_after(
            o.stats.missing_chunks,
            o.pending@.remove(i).take(k),
        ),
        !found ==> f.stats.missing_chunks == missing_after(
            o.stats.missing_chunks,
            o.pending@.take(k),
        ),
        f.stats.seq_gap_frames == (match o.last_delivered_seq {
            Some(l) => if s > l + 1 {
                sat_add(o.stats.seq_gap_frames, (s - l - 1) as u64)
            } else {
                o.stats.seq_gap_frames
            },
            None => o.stats.seq_gap_frames,
        }),
    ensures
        gap_evictions(o, f, s),
{
}

proof fn lemma_count_some_bounds(s: Seq<Option<Vec<u8>>>)
    ensures
        0 <= count_some(s) <= s.len(),
    decreases s.len(),
{
    if s.len() > 0 {
        lemma_count_some_bounds(s.drop_last());
    }
}

proof fn lemma_count_some_update(s: Seq<Option<Vec<u8>>>, i: int, v: Vec<u8>)
    requires
        0 <= i < s.len(),
        s[i] is None,
    ensures
        count_some(s.update(i, Some(v))) == count_some(s) + 1,
    decreases s.len(),
{
    let s2 = s.update(i, Some(v));
    if i == s.len() - 1 {
        assert(s2.drop_last() =~= s.drop_last());
    } else {
        assert(s2.drop_last() =~= s.drop_last().update(i, Some(v)));
        lemma_count_some_update(s.drop_last(), i, v);
    }
}

proof fn lemma_count_some_full(s: Seq<Option<Vec<u8>>>)
    requires
        count_some(s) == s.len(),
    ensures
        forall|j: int| 0 <= j < s.len() ==> s[j] is Some,
    decreases s.len(),
{
    if s.len() > 0 {
        lemma_count_some_bounds(s.drop_last());
        lemma_count_some_full(s.drop_last());
        assert forall|j: int| 0 <= j < s.len() implies s[j] is Some by {
            if j < s.len() - 1 {
                assert(s.drop_last()[j] is Some);
            }
        }
    }
}

proof fn lemma_count_some_all_none(s: Seq<Option<Vec<u8>>>)
    requires
        forall|j: int| 0 <= j < s.len() ==> s[j] is None,
    ensures
        count_some(s) == 0,
    decreases s.len(),
{
    if s.len() > 0 {
        lemma_count_some_all_none(s.drop_last());
    }
}

proof fn lemma_concat_take_step(m: Seq<Option<Seq<u8>>>, i: int)
    requires
        0 <= i < m.len(),
    ensures
        concat_chunks(m.take(i + 1)) == concat_chunks(m.take(i)) + match m[i] {
            Some(b) => b,
            None => Seq::empty(),
        },
{
    assert(m.take(i + 1).drop_last() =~= m.take(i));
    assert(m.take(i + 1).last() == m[i]);
}

impl Receiver {
    /// Process one received datagram: parse it, apply the stream gate, refresh
    /// the feedback route, drop late or duplicate chunks, store the chunk, and
    /// deliver the frame when its last chunk arrives. A delivered frame
    /// carries a sequence strictly above every earlier delivery, and its
    /// payload is the chunks concatenated in index order; on a sequence gap
    /// every older buffered frame is evicted first.
    #[verifier::spinoff_prover]
    #[verifier::rlimit(100)]
    pub fn handle_datagram(
        &mut self,
        buf: &[u8],
        remote_address: String,
        remote_port: u16,
        now_ms: u64,
    ) -> (r: DatagramOutcome)
        requires
            old(self).wf(),
            old(self).stats.packets_received < RECV_LIMIT,
        ensures
            final(self).wf(),
            final(self).options == old(self).options,
            final(self).stats.packets_received == old(self).stats.packets_received + 1,
            final(self).pending@.len() <= old(self).pending@.len() + 1,
            final(self).stats.frames_completed >= old(self).stats.frames_completed,
            // which datagrams meet which outcome
            (r is Invalid <==> spec_parse(buf@) is None),
            spec_parse(buf@) is Some ==> ({
                let d = spec_parse(buf@).unwrap();
                &&& (r is StreamMismatch <==> !old(self).gate_ok(d))
                &&& (old(self).gate_ok(d) ==> (r is Late <==> old(self).is_late(d)))
                &&& (old(self).gate_ok(d) && !old(self).is_late(d)) ==> {
                    &&& (r is BadTotalChunks <==> exists|i: int|
                        #![auto]
                        0 <= i < old(self).pending@.len() && old(self).pending@[i].seq == d.seq
                            && old(self).pending@[i].total_chunks != d.total_chunks)
                    &&& (r is Duplicate <==> exists|i: int|
                        #![auto]
                        0 <= i < old(self).pending@.len() && old(self).pending@[i].seq == d.seq
                            && old(self).pending@[i].total_chunks == d.total_chunks && old(
                            self,
                        ).pending@[i].chunks@[d.chunk_index as int] is Some)
                    &&& ((r is Stored || r is Completed) <==> (!has_seq(old(self).pending@, d.seq)
                        || exists|i: int|
                        #![auto]
                        0 <= i < old(self).pending@.len() && old(self).pending@[i].seq == d.seq
                            && old(self).pending@[i].total_chunks == d.total_chunks && old(
                            self,
                        ).pending@[i].chunks@[d.chunk_index as int] is None))
                    &&& (r is Completed <==> ((!has_seq(old(self).pending@, d.seq)
                        && d.total_chunks == 1) || exists|i: int|
                        #![auto]
                        0 <= i < old(self).pending@.len() && old(self).pending@[i].seq == d.seq
                            && old(self).pending@[i].total_chunks == d.total_chunks && old(
                            self,
                        ).pending@[i].chunks@[d.chunk_index as int] is None && old(
                            self,
                        ).pending@[i].received_chunks + 1 == d.total_chunks))
                }
            }),
            // what each outcome did to the state
            r is Invalid || r is StreamMismatch ==> {
                &&& stats_step(
                    old(self).stats,
                    final(self).stats,
                    if r is Invalid {
                        1int
                    } else {
                        0int
                    },
                    if r is StreamMismatch {
                        1int
                    } else {
                        0int
                    },
                    0,
                    0,
                    0,
                )
                &&& frame_counters_unchanged(old(self).stats, final(self).stats)
                &&& route_unchanged(*old(self), *final(self))
                &&& final(self).pending@ == old(self).pending@
                &&& final(self).last_delivered_seq == old(self).last_delivered_seq
            },
            spec_parse(buf@) is Some && !(r is Invalid || r is StreamMismatch) ==> route_updated(
                *old(self),
                *final(self),
                spec_parse(buf@).unwrap().stream_id,
                remote_address@,
                remote_port,
            ),
            r is Late ==> {
                &&& stats_step(old(self).stats, final(self).stats, 0, 0, 1, 0, 0)
                &&& frame_counters_unchanged(old(self).stats, final(self).stats)
                &&& final(self).pending@ == old(self).pending@
                &&& final(self).last_delivered_seq == old(self).last_delivered_seq
            },
            r is BadTotalChunks ==> {
                &&& stats_step(old(self).stats, final(self).stats, 1, 0, 0, 0, 0)
                &&& frame_counters_unchanged(old(self).stats, final(self).stats)
                &&& final(self).last_delivered_seq == old(self).last_delivered_seq
                &&& exists|i: int|
                    #![auto]
                    0 <= i < old(self).pending@.len() && old(self).pending@[i].seq == spec_parse(
                        buf@,
                    ).unwrap().seq && final(self).pending@ == old(self).pending@.remove(i)
            },
            r is Duplicate ==> {
                &&& stats_step(old(self).stats, final(self).stats, 0, 0, 0, 1, 0)
                &&& frame_counters_unchanged(old(self).stats, final(self).stats)
                &&& final(self).pending@ == old(self).pending@
                &&& final(self).last_delivered_seq == old(self).last_delivered_seq
            },
            r is Stored ==> {
                &&& stats_step(old(self).stats, final(self).stats, 0, 0, 0, 0, 1)
                &&& frame_counters_unchanged(old(self).stats, final(self).stats)
                &&& final(self).last_delivered_seq == old(self).last_delivered_seq
                &&& stored_pending(*old(self), *final(self), spec_parse(buf@).unwrap(), now_ms)
            },
            r matches DatagramOutcome::Completed(ev) ==> {
                &&& stats_step(old(self).stats, final(self).stats, 0, 0, 0, 0, 1)
                &&& completed_event(*old(self), spec_parse(buf@).unwrap(), ev)
                &&& final(self).last_delivered_seq == Some(ev.seq)
                &&& (old(self).last_delivered_seq matches Some(l) ==> l < ev.seq)
                &&& final(self).stats.frames_completed == old(self).stats.frames_completed + 1
                &&& final(self).stats.keyframes_completed == old(self).stats.keyframes_completed
                    + if ev.flags & 1 != 0 {
                    1int
                } else {
                    0int
                }
                &&& final(self).stats.frames_dropped_timeout == old(
                    self,
                ).stats.frames_dropped_timeout
                &&& final(self).stats.frames_dropped_queue == old(self).stats.frames_dropped_queue
                &&& final(self).stats.bytes_reassembled == sat_add(
                    old(self).stats.bytes_reassembled,
                    ev.payload@.len() as u64,
                )
                &&& final(self).stats.missing_chunks >= old(self).stats.missing_chunks
            },
            r matches DatagramOutcome::Completed(ev) ==> gap_evictions(
                *old(self),
                *final(self),
                ev.seq,
            ),
    {
        self.stats.packets_received = self.stats.packets_received + 1;

        let parsed = parse_udp_datagram(buf);
        let d = match parsed {
            Some(d) => d,
            None => {
                self.stats.packets_invalid = self.stats.packets_invalid + 1;
                return DatagramOutcome::Invalid;
            },
        };
        let ghost dv = d@;

        // stream gate: the configured id, then the latched id
        let expected_ok = match &self.options.expected_stream_id {
            Some(e) => bytes_eq(e, &d.stream_id),
            None => true,
        };
        let active_ok = match &self.active_stream_id {
            Some(a) => bytes_eq(a, &d.stream_id),
            None => true,
        };
        if !expected_ok || !active_ok {
            self.stats.packets_stream_mismatch = self.stats.packets_stream_mismatch + 1;
            return DatagramOutcome::StreamMismatch;
        }

        // latch the stream and refresh the feedback route
        self.active_stream_id = Some(d.stream_id.clone());
        if self.stats.remote_address.is_none() {
            self.stats.remote_address = Some(remote_address.clone());
            self.stats.remote_port = Some(remote_port);
        }
        self.route_remote = Some(RemoteEndpoint { address: remote_address, port: remote_port });

        // late drop
        match self.last_delivered_seq {
            Some(l) => {
                if d.seq <= l {
                    self.stats.frames_dropped_late = self.stats.frames_dropped_late + 1;
                    return DatagramOutcome::Late;
                }
            },
            None => {},
        }

        let r = self.store_chunk(d, now_ms);
        proof {
            let o = *old(self);
            let f = *self;
            let d2 = spec_parse(buf@).unwrap();
            assert(route_updated(o, f, d2.stream_id, remote_address@, remote_port));
            match r {
                DatagramOutcome::Stored => {
                    assert(stats_step(o.stats, f.stats, 0, 0, 0, 0, 1));
                    assert(frame_counters_unchanged(o.stats, f.stats));
                    assert(stored_pending(o, f, d2, now_ms));
                },
                DatagramOutcome::Completed(ref ev) => {
                    assert(stats_step(o.stats, f.stats, 0, 0, 0, 0, 1));
                    assert(completed_event(o, d2, *ev));
                    assert(f.last_delivered_seq == Some(d2.seq));
                    assert(f.stats.frames_completed == o.stats.frames_completed + 1);
                    assert(f.stats.bytes_reassembled == sat_add(
                        o.stats.bytes_reassembled,
                        ev.payload@.len() as u64,
                    ));
                },
                _ => {},
            }
            assert(f.stats.accounted());
            assert(f.wf());
        }
        r
    }

    /// Insert one gate-passing, not-late chunk into the reassembly buffer and
    /// deliver its frame when it is the last one missing.
    #[verifier::spinoff_prover]
    #[verifier::rlimit(100)]
    fn store_chunk(&mut self, d: Datagram, now_ms: u64) -> (r: DatagramOutcome)
        requires
            d.wf(),
            old(self).options.wf(),
            old(self).pending_sorted(),
            old(self).pending_wf(),
            old(self).keyframes_bounded(),
            old(self).stats.frames_completed + old(self).stats.frames_dropped_gap + old(
                self,
            ).stats.frames_dropped_timeout + old(self).stats.frames_dropped_queue + old(
                self,
            ).pending@.len() <= old(self).stats.packets_accepted,
            old(self).stats.packets_accepted < RECV_LIMIT,
            old(self).stats.packets_invalid <= RECV_LIMIT,
            old(self).stats.packets_duplicate <= RECV_LIMIT,
            match old(self).last_delivered_seq {
                Some(l) => d.seq > l,
                None => true,
            },
        ensures
            r is BadTotalChunks || r is Duplicate || r is Stored || r is Completed,
            // which chunks meet which outcome
            (r is BadTotalChunks <==> exists|i: int|
                #![auto]
                0 <= i < old(self).pending@.len() && old(self).pending@[i].seq == d.seq && old(
                    self,
                ).pending@[i].total_chunks != d.total_chunks),
            (r is Duplicate <==> exists|i: int|
                #![auto]
                0 <= i < old(self).pending@.len() && old(self).pending@[i].seq == d.seq && old(
                    self,
                ).pending@[i].total_chunks == d.total_chunks && old(
                    self,
                ).pending@[i].chunks@[d.chunk_index as int] is Some),
            (r is Completed <==> ((!has_seq(old(self).pending@, d.seq) && d.total_chunks == 1)
                || exists|i: int|
                #![auto]
                0 <= i < old(self).pending@.len() && old(self).pending@[i].seq == d.seq && old(
                    self,
                ).pending@[i].total_chunks == d.total_chunks && old(
                    self,
                ).pending@[i].chunks@[d.chunk_index as int] is None && old(
                    self,
                ).pending@[i].received_chunks + 1 == d.total_chunks)),
            ((r is Stored || r is Completed) <==> (!has_seq(old(self).pending@, d.seq) || exists|
                i: int,
            |
                #![auto]
                0 <= i < old(self).pending@.len() && old(self).pending@[i].seq == d.seq && old(
                    self,
                ).pending@[i].total_chunks == d.total_chunks && old(
                    self,
                ).pending@[i].chunks@[d.chunk_index as int] is None)),
            // what stayed put
            final(self).options == old(self).options,
            final(self).active_stream_id == old(self).active_stream_id,
            final(self).route_remote == old(self).route_remote,
            final(self).stats.packets_received == old(self).stats.packets_received,
            final(self).stats.packets_stream_mismatch == old(self).stats.packets_stream_mismatch,
            final(self).stats.frames_dropped_late == old(self).stats.frames_dropped_late,
            final(self).stats.remote_address == old(self).stats.remote_address,
            final(self).stats.remote_port == old(self).stats.remote_port,
            final(self).stats.frames_dropped_timeout == old(self).stats.frames_dropped_timeout,
            final(self).stats.frames_dropped_queue == old(self).stats.frames_dropped_queue,
            // counter deltas
            final(self).stats.packets_invalid == old(self).stats.packets_invalid + if r
                is BadTotalChunks {
                1int
            } else {
                0int
            },
            final(self).stats.packets_duplicate == old(self).stats.packets_duplicate + if r
                is Duplicate {
                1int
            } else {
                0int
            },
            final(self).stats.packets_accepted == old(self).stats.packets_accepted + if r is Stored
                || r is Completed {
                1int
            } else {
                0int
            },
            final(self).stats.frames_completed == old(self).stats.frames_completed + if r
                is Completed {
                1int
            } else {
                0int
            },
            // per-outcome state change
            r is BadTotalChunks ==> {
                &&& frame_counters_unchanged(old(self).stats, final(self).stats)
                &&& final(self).last_delivered_seq == old(self).last_delivered_seq
                &&& exists|i: int|
                    #![auto]
                    0 <= i < old(self).pending@.len() && old(self).pending@[i].seq == d.seq
                        && final(self).pending@ == old(self).pending@.remove(i)
            },
            r is Duplicate ==> {
                &&& frame_counters_unchanged(old(self).stats, final(self).stats)
                &&& final(self).last_delivered_seq == old(self).last_delivered_seq
                &&& final(self).pending@ == old(self).pending@
            },
            r is Stored ==> {
                &&& frame_counters_unchanged(old(self).stats, final(self).stats)
                &&& final(self).last_delivered_seq == old(self).last_delivered_seq
                &&& stored_pending(*old(self), *final(self), d@, now_ms)
            },
            r matches DatagramOutcome::Completed(ev) ==> completed_event(*old(self), d@, ev),
            r is Completed ==> {
                &&& final(self).last_delivered_seq == Some(d.seq)
                &&& final(self).stats.missing_chunks >= old(self).stats.missing_chunks
                &&& gap_evictions(*old(self), *final(self), d.seq)
            },
            r matches DatagramOutcome::Completed(ev) ==> {
                &&& final(self).stats.keyframes_completed == old(self).stats.keyframes_completed
                    + if ev.flags & 1 != 0 {
                    1int
                } else {
                    0int
                }
                &&& final(self).stats.bytes_reassembled == sat_add(
                    old(self).stats.bytes_reassembled,
                    ev.payload@.len() as u64,
                )
            },
            !(r is Completed) ==> {
                &&& final(self).stats.keyframes_completed == old(self).stats.keyframes_completed
                &&& final(self).stats.bytes_reassembled == old(self).stats.bytes_reassembled
                &&& final(self).stats.missing_chunks == old(self).stats.missing_chunks
                &&& final(self).stats.seq_gap_frames == old(self).stats.seq_gap_frames
                &&& final(self).stats.frames_dropped_gap == old(self).stats.frames_dropped_gap
            },
            // invariant pieces carried through
            final(self).pending_sorted(),
            final(self).pending_wf(),
            final(self).keyframes_bounded(),
            final(self).stats.frames_completed + final(self).stats.frames_dropped_gap
                + final(self).stats.frames_dropped_timeout
                + final(self).stats.frames_dropped_queue + final(self).pending@.len()
                <= final(self).stats.packets_accepted,
            final(self).pending@.len() <= old(self).pending@.len() + 1,
    {
        let ghost dv = d@;
        let Datagram {
            stream_id: d_sid,
            seq: d_seq,
            timestamp_us: d_ts,
            flags: d_flags,
            chunk_index: d_ci,
            total_chunks: d_tc,
            payload: d_payload,
        } = d;

        // locate the insertion point in the ordered buffer
        let mut idx: usize = 0;
        while idx < self.pending.len() && self.pending[idx].seq < d_seq
            invariant
                idx <= self.pending@.len(),
                forall|j: int| 0 <= j < idx ==> (#[trigger] self.pending@[j]).seq < d_seq,
            decreases self.pending@.len() - idx,
        {
            idx += 1;
        }
        proof {
            assert forall|j: int|
                idx <= j < self.pending@.len() implies (#[trigger] self.pending@[j]).seq
                >= d_seq by {
                assert(self.pending@[idx as int].seq <= self.pending@[j].seq);
            }
        }
        let found = idx < self.pending.len() && self.pending[idx].seq == d_seq;
        let ghost pend0 = self.pending@;
        proof {
            if found {
                assert(has_seq(pend0, d_seq));
            } else {
                assert forall|i: int|
                    0 <= i < pend0.len() implies (#[trigger] pend0[i]).seq != d_seq by {}
                assert(!has_seq(pend0, d_seq));
            }
        }

        let ci = d_ci as usize;
        let mut entry: PendingFrame;
        if found {
            let e = self.pending.remove(idx);
            if e.total_chunks != d_tc {
                self.stats.packets_invalid = self.stats.packets_invalid + 1;
                return DatagramOutcome::BadTotalChunks;
            }
            if e.chunks[ci].is_some() {
                self.pending.insert(idx, e);
                proof {
                    assert(self.pending@ =~= pend0);
                }
                self.stats.packets_duplicate = self.stats.packets_duplicate + 1;
                return DatagramOutcome::Duplicate;
            }
            entry = e;
            proof {
                lemma_count_some_update(entry.chunks@, ci as int, d_payload);
                lemma_count_some_bounds(entry.chunks@);
            }
            entry.chunks[ci] = Some(d_payload);
            entry.received_chunks = entry.received_chunks + 1;
            proof {
                assert(chunks_model(entry.chunks@) =~= chunks_model(pend0[idx as int].chunks@)
                    .update(ci as int, Some(dv.payload)));
                assert(updated_entry(pend0[idx as int], entry, dv));
            }
        } else {
            let mut slots: Vec<Option<Vec<u8>>> = Vec::new();
            let mut j: usize = 0;
            while j < d_tc as usize
                invariant
                    j <= d_tc as usize,
                    slots@.len() == j,
                    forall|t: int| 0 <= t < j ==> slots@[t] is None,
                decreases d_tc as usize - j,
            {
                slots.push(None);
                j += 1;
            }
            proof {
                lemma_count_some_all_none(slots@);
                lemma_count_some_update(slots@, ci as int, d_payload);
            }
            entry = PendingFrame {
                seq: d_seq,
                timestamp_us: d_ts,
                flags: d_flags,
                total_chunks: d_tc,
                chunks: slots,
                received_chunks: 1,
                first_arrival_ms: now_ms,
            };
            entry.chunks[ci] = Some(d_payload);
            proof {
                assert(chunks_model(entry.chunks@) =~= Seq::new(
                    dv.total_chunks as nat,
                    |t: int|
                        if t == dv.chunk_index {
                            Some(dv.payload)
                        } else {
                            None
                        },
                ));
                assert(fresh_entry(entry, dv, now_ms));
            }
        }
        self.stats.packets_accepted = self.stats.packets_accepted + 1;

        if entry.received_chunks < entry.total_chunks {
            // still incomplete: store it back in order
            self.pending.insert(idx, entry);
            proof {
                if found {
                    assert(self.pending@ =~= pend0.update(idx as int, self.pending@[idx as int]));
                } else {
                    assert(self.pending@ =~= pend0.insert(idx as int, self.pending@[idx as int]));
                }
                assert(stored_pending(*old(self), *self, dv, now_ms));
            }
            return DatagramOutcome::Stored;
        }

        // the frame is complete
        let ghost base = self.pending@;
        proof {
            assert forall|j: int| 0 <= j < idx implies (#[trigger] base[j]).seq < d_seq by {}
            assert forall|j: int|
                idx <= j < base.len() implies (#[trigger] base[j]).seq > d_seq by {
                if found {
                    assert(base[j] == pend0[j + 1]);
                } else {
                }
            }
        }

        // a sequence gap evicts everything below the completed frame
        let ghost gap_cond = match old(self).last_delivered_seq {
            Some(l) => d_seq > l + 1,
            None => false,
        };
        let mut evicted: usize = 0;
        match self.last_delivered_seq {
            Some(l) => {
                if d_seq - l > 1 {
                    self.stats.seq_gap_frames = self.stats.seq_gap_frames.saturating_add(
                        (d_seq - l - 1) as u64,
                    );
                    evicted = self.evict_below(d_seq);
                }
            },
            None => {},
        }
        proof {
            if !gap_cond {
                assert(self.pending@ == base);
            }
            assert(prefix_evicted(base, self.pending@, d_seq, evicted as int, gap_cond));
        }

        // concatenate the chunks in index order
        proof {
            lemma_count_some_full(entry.chunks@);
        }
        let payload = assemble_payload(&entry.chunks);

        let stream_id_hex = stream_id_to_hex(&d_sid);
        let payload_bytes = payload.len();
        let payload_base64 = base64_encode(payload.as_slice());

        self.stats.frames_completed = self.stats.frames_completed + 1;
        if entry.flags & 1 != 0 {
            self.stats.keyframes_completed = self.stats.keyframes_completed + 1;
        }
        self.stats.bytes_reassembled = self.stats.bytes_reassembled.saturating_add(
            payload_bytes as u64,
        );
        self.last_delivered_seq = Some(d_seq);

        let ev = FrameEvent {
            stream_id_hex,
            seq: d_seq,
            timestamp_us: entry.timestamp_us,
            flags: entry.flags,
            total_chunks: entry.total_chunks,
            received_chunks: entry.received_chunks,
            payload_bytes,
            payload_base64,
            payload,
        };
        proof {
            if found {
                assert(has_seq(pend0, d_seq));
                assert(pend0[idx as int].seq == dv.seq);
                assert(ev.payload@ == concat_chunks(
                    chunks_model(pend0[idx as int].chunks@).update(
                        dv.chunk_index as int,
                        Some(dv.payload),
                    ),
                ));
            } else {
                assert(!has_seq(pend0, d_seq));
                assert(dv.total_chunks == 1);
                let m = chunks_model(entry.chunks@);
                assert(m.len() == 1);
                assert(m.drop_last() =~= Seq::<Option<Seq<u8>>>::empty());
                assert(m.last() == Some(dv.payload));
                assert(concat_chunks(Seq::<Option<Seq<u8>>>::empty()) =~= Seq::<u8>::empty());
                assert(concat_chunks(m) == concat_chunks(m.drop_last()) + dv.payload);
                assert(concat_chunks(m) =~= dv.payload);
            }
            assert(completed_event(*old(self), dv, ev));
            let o = *old(self);
            let f = *self;
            assert(gap_cond == gap_cond_of(o.last_delivered_seq, d_seq));
            assert(f.stats.seq_gap_frames == (match o.last_delivered_seq {
                Some(l) => if d_seq > l + 1 {
                    sat_add(o.stats.seq_gap_frames, (d_seq - l - 1) as u64)
                } else {
                    o.stats.seq_gap_frames
                },
                None => o.stats.seq_gap_frames,
            }));
            assert(has_seq(o.pending@, d_seq) == found);
            if evicted == 0 {
                assert(base.take(0) =~= Seq::<PendingFrame>::empty());
                assert(missing_after(o.stats.missing_chunks, base.take(0))
                    == o.stats.missing_chunks);
            }
            if found {
                assert(base == o.pending@.remove(idx as int));
                assert(prefix_evicted(
                    o.pending@.remove(idx as int),
                    f.pending@,
                    d_seq,
                    evicted as int,
                    gap_cond,
                ));
                assert(f.stats.missing_chunks == missing_after(
                    o.stats.missing_chunks,
                    o.pending@.remove(idx as int).take(evicted as int),
                ));
            } else {
                assert(base == o.pending@);
                assert(prefix_evicted(o.pending@, f.pending@, d_seq, evicted as int, gap_cond));
                assert(f.stats.missing_chunks == missing_after(
                    o.stats.missing_chunks,
                    o.pending@.take(evicted as int),
                ));
            }
            lemma_gap_evictions_intro(o, f, d_seq, idx as int, evicted as int, found);
        }
        DatagramOutcome::Completed(ev)
    }

    /// Remove every buffered frame whose sequence lies below `seq` — with the
    /// buffer ordered they form a prefix — counting each into
    /// `frames_dropped_gap` and its unfilled slots into `missing_chunks`.
    fn evict_below(&mut self, seq: u32) -> (k: usize)
        requires
            old(self).pending_sorted(),
            old(self).pending_wf(),
            old(self).stats.frames_completed + old(self).stats.frames_dropped_gap + old(
                self,
            ).stats.frames_dropped_timeout + old(self).stats.frames_dropped_queue + old(
                self,
            ).pending@.len() <= old(self).stats.packets_accepted,
            old(self).stats.packets_accepted <= RECV_LIMIT,
        ensures
            k <= old(self).pending@.len(),
            final(self).pending@ == old(self).pending@.skip(k as int),
            forall|j: int| 0 <= j < k ==> (#[trigger] old(self).pending@[j]).seq < seq,
            k == old(self).pending@.len() || old(self).pending@[k as int].seq >= seq,
            final(self).stats.frames_dropped_gap == old(self).stats.frames_dropped_gap + k,
            final(self).stats.missing_chunks >= old(self).stats.missing_chunks,
            final(self).stats.missing_chunks == missing_after(
                old(self).stats.missing_chunks,
                old(self).pending@.take(k as int),
            ),
            final(self).options == old(self).options,
            final(self).active_stream_id == old(self).active_stream_id,
            final(self).route_remote == old(self).route_remote,
            final(self).last_delivered_seq == old(self).last_delivered_seq,
            final(self).stats.packets_received == old(self).stats.packets_received,
            final(self).stats.packets_accepted == old(self).stats.packets_accepted,
            final(self).stats.packets_invalid == old(self).stats.packets_invalid,
            final(self).stats.packets_duplicate == old(self).stats.packets_duplicate,
            final(self).stats.packets_stream_mismatch == old(self).stats.packets_stream_mismatch,
            final(self).stats.frames_completed == old(self).stats.frames_completed,
            final(self).stats.frames_dropped_timeout == old(self).stats.frames_dropped_timeout,
            final(self).stats.frames_dropped_queue == old(self).stats.frames_dropped_queue,
            final(self).stats.frames_dropped_late == old(self).stats.frames_dropped_late,
            final(self).stats.keyframes_completed == old(self).stats.keyframes_completed,
            final(self).stats.bytes_reassembled == old(self).stats.bytes_reassembled,
            final(self).stats.seq_gap_frames == old(self).stats.seq_gap_frames,
            final(self).stats.remote_address == old(self).stats.remote_address,
            final(self).stats.remote_port == old(self).stats.remote_port,
            final(self).pending_sorted(),
            final(self).pending_wf(),
            final(self).stats.frames_completed + final(self).stats.frames_dropped_gap
                + final(self).stats.frames_dropped_timeout
                + final(self).stats.frames_dropped_queue + final(self).pending@.len()
                <= final(self).stats.packets_accepted,
    {
        let ghost base = self.pending@;
        let ghost pre = *self;
        let plen0: usize = self.pending.len();
        let mut k: usize = 0;
        while self.pending.len() > 0 && self.pending[0].seq < seq
            invariant
                k <= plen0,
                base.len() == plen0,
                base == pre.pending@,
                self.pending@ == base.skip(k as int),
                forall|j: int| 0 <= j < k ==> (#[trigger] base[j]).seq < seq,
                self.options == pre.options,
                self.active_stream_id == pre.active_stream_id,
                self.route_remote == pre.route_remote,
                self.last_delivered_seq == pre.last_delivered_seq,
                self.stats.packets_received == pre.stats.packets_received,
                self.stats.packets_accepted == pre.stats.packets_accepted,
                self.stats.packets_invalid == pre.stats.packets_invalid,
                self.stats.packets_duplicate == pre.stats.packets_duplicate,
                self.stats.packets_stream_mismatch == pre.stats.packets_stream_mismatch,
                self.stats.frames_completed == pre.stats.frames_completed,
                self.stats.frames_dropped_timeout == pre.stats.frames_dropped_timeout,
                self.stats.frames_dropped_queue == pre.stats.frames_dropped_queue,
                self.stats.frames_dropped_late == pre.stats.frames_dropped_late,
                self.stats.keyframes_completed == pre.stats.keyframes_completed,
                self.stats.bytes_reassembled == pre.stats.bytes_reassembled,
                self.stats.seq_gap_frames == pre.stats.seq_gap_frames,
                self.stats.remote_address == pre.stats.remote_address,
                self.stats.remote_port == pre.stats.remote_port,
                self.stats.frames_dropped_gap == pre.stats.frames_dropped_gap + k,
                self.stats.missing_chunks >= pre.stats.missing_chunks,
                self.stats.missing_chunks == missing_after(
                    pre.stats.missing_chunks,
                    base.take(k as int),
                ),
                self.stats.frames_completed + self.stats.frames_dropped_gap
                    + self.stats.frames_dropped_timeout + self.stats.frames_dropped_queue
                    + self.pending@.len() <= self.stats.packets_accepted,
                self.stats.packets_accepted <= RECV_LIMIT,
                pre.pending_sorted(),
                pre.pending_wf(),
            decreases self.pending@.len(),
        {
            proof {
                assert(self.pending@[0] == base[k as int]);
                assert(base[k as int].wf());
            }
            let stale = self.pending.remove(0);
            let miss = (stale.total_chunks - stale.received_chunks) as u64;
            self.stats.missing_chunks = self.stats.missing_chunks.saturating_add(miss);
            self.stats.frames_dropped_gap = self.stats.frames_dropped_gap + 1;
            proof {
                assert(base.skip(k as int).drop_first() =~= base.skip(k as int + 1));
                assert(base.take(k as int + 1).drop_last() =~= base.take(k as int));
                assert(base.take(k as int + 1).last() == base[k as int]);
                assert(miss == missing_in(base[k as int]));
            }
            k += 1;
        }
        proof {
            assert forall|i: int, j: int|
                0 <= i < j < self.pending@.len() implies (#[trigger] self.pending@[i]).seq < (
            #[trigger] self.pending@[j]).seq by {
                assert(self.pending@[i] == base[k + i]);
                assert(self.pending@[j] == base[k + j]);
            }
            assert forall|i: int|
                0 <= i < self.pending@.len() implies (#[trigger] self.pending@[i]).wf() && 0
                < self.pending@[i].received_chunks < self.pending@[i].total_chunks by {
                assert(self.pending@[i] == base[k + i]);
            }
        }
        k
    }
}

/// A buffered frame is expired when its first chunk arrived more than the
/// configured age before `now`.
pub open spec fn frame_expired(e: PendingFrame, now_ms: u64, age_ms: u64) -> bool {
    now_ms >= e.first_arrival_ms && now_ms - e.first_arrival_ms > age_ms
}

/// The buffered frames that survive a timed eviction pass, in order.
pub open spec fn fresh_only(s: Seq<PendingFrame>, now_ms: u64, age_ms: u64) -> Seq<PendingFrame>
    decreases s.len(),
{
    if s.len() == 0 {
        Seq::empty()
    } else if frame_expired(s.last(), now_ms, age_ms) {
        fresh_only(s.drop_last(), now_ms, age_ms)
    } else {
        fresh_only(s.drop_last(), now_ms, age_ms).push(s.last())
    }
}

proof fn lemma_fresh_only_props(s: Seq<PendingFrame>, now_ms: u64, age_ms: u64)
    requires
        forall|i: int, j: int| 0 <= i < j < s.len() ==> s[i].seq < s[j].seq,
    ensures
        fresh_only(s, now_ms, age_ms).len() <= s.len(),
        forall|a: int|
            0 <= a < fresh_only(s, now_ms, age_ms).len() ==> exists|i: int|
                #![auto]
                0 <= i < s.len() && (#[trigger] fresh_only(s, now_ms, age_ms)[a]) == s[i],
        forall|a: int, b: int|
            0 <= a < b < fresh_only(s, now_ms, age_ms).len() ==> fresh_only(s, now_ms, age_ms)[a].seq
                < fresh_only(s, now_ms, age_ms)[b].seq,
    decreases s.len(),
{
    if s.len() > 0 {
        let s2 = s.drop_last();
        lemma_fresh_only_props(s2, now_ms, age_ms);
        let f2 = fresh_only(s2, now_ms, age_ms);
        let f = fresh_only(s, now_ms, age_ms);
        assert forall|a: int| 0 <= a < f.len() implies exists|i: int|
            #![auto]
            0 <= i < s.len() && (#[trigger] f[a]) == s[i] by {
            if a < f2.len() {
                let i = choose|i: int| 0 <= i < s2.len() && f2[a] == s2[i];
                assert(f[a] == s[i]);
            } else {
                assert(f[a] == s[s.len() - 1]);
            }
        }
        if !frame_expired(s.last(), now_ms, age_ms) {
            assert forall|a: int, b: int| 0 <= a < b < f.len() implies f[a].seq < f[b].seq by {
                if b < f2.len() {
                } else {
                    let i = choose|i: int| 0 <= i < s2.len() && f2[a] == s2[i];
                    assert(f[a] == s[i]);
                    assert(f[b] == s[s.len() - 1]);
                    assert(s[i].seq < s[s.len() - 1].seq);
                }
            }
        }
    }
}

impl Receiver {
    /// Timed eviction: drop every buffered frame older than the configured
    /// maximum age, tallying its unfilled slots as missing.
    pub fn evict_timed_out(&mut self, now_ms: u64)
        requires
            old(self).wf(),
            old(self).stats.packets_received <= RECV_LIMIT,
        ensures
            final(self).wf(),
            final(self).pending@ == fresh_only(
                old(self).pending@,
                now_ms,
                old(self).options.max_frame_age_ms,
            ),
            final(self).stats.frames_dropped_timeout == old(self).stats.frames_dropped_timeout + (
            old(self).pending@.len() - final(self).pending@.len()),
            final(self).stats.missing_chunks >= old(self).stats.missing_chunks,
            final(self).stats.missing_chunks == missing_after_expired(
                old(self).stats.missing_chunks,
                old(self).pending@,
                now_ms,
                old(self).options.max_frame_age_ms,
            ),
            final(self).options == old(self).options,
            final(self).active_stream_id == old(self).active_stream_id,
            final(self).route_remote == old(self).route_remote,
            final(self).last_delivered_seq == old(self).last_delivered_seq,
            final(self).stats.packets_received == old(self).stats.packets_received,
            final(self).stats.packets_accepted == old(self).stats.packets_accepted,
            final(self).stats.packets_invalid == old(self).stats.packets_invalid,
            final(self).stats.packets_duplicate == old(self).stats.packets_duplicate,
            final(self).stats.packets_stream_mismatch == old(self).stats.packets_stream_mismatch,
            final(self).stats.frames_completed == old(self).stats.frames_completed,
            final(self).stats.frames_dropped_queue == old(self).stats.frames_dropped_queue,
            final(self).stats.frames_dropped_late == old(self).stats.frames_dropped_late,
            final(self).stats.frames_dropped_gap == old(self).stats.frames_dropped_gap,
            final(self).stats.keyframes_completed == old(self).stats.keyframes_completed,
            final(self).stats.bytes_reassembled == old(self).stats.bytes_reassembled,
            final(self).stats.seq_gap_frames == old(self).stats.seq_gap_frames,
            final(self).stats.remote_address == old(self).stats.remote_address,
            final(self).stats.remote_port == old(self).stats.remote_port,
    {
        let ghost orig = self.pending@;
        let ghost pre = *self;
        let age = self.options.max_frame_age_ms;
        let n = self.pending.len();
        let mut kept: Vec<PendingFrame> = Vec::new();
        let mut i: usize = 0;
        proof {
            assert(orig.subrange(0, 0) =~= Seq::<PendingFrame>::empty());
        }
        while i < n
            invariant
                i <= n,
                n == orig.len(),
                orig == pre.pending@,
                age == pre.options.max_frame_age_ms,
                self.pending@ == orig.skip(i as int),
                kept@ == fresh_only(orig.subrange(0, i as int), now_ms, age),
                kept@.len() <= i,
                self.options == pre.options,
                self.active_stream_id == pre.active_stream_id,
                self.route_remote == pre.route_remote,
                self.last_delivered_seq == pre.last_delivered_seq,
                self.stats.packets_received == pre.stats.packets_received,
                self.stats.packets_accepted == pre.stats.packets_accepted,
                self.stats.packets_invalid == pre.stats.packets_invalid,
                self.stats.packets_duplicate == pre.stats.packets_duplicate,
                self.stats.packets_stream_mismatch == pre.stats.packets_stream_mismatch,
                self.stats.frames_completed == pre.stats.frames_completed,
                self.stats.frames_dropped_queue == pre.stats.frames_dropped_queue,
                self.stats.frames_dropped_late == pre.stats.frames_dropped_late,
                self.stats.frames_dropped_gap == pre.stats.frames_dropped_gap,
                self.stats.keyframes_completed == pre.stats.keyframes_completed,
                self.stats.bytes_reassembled == pre.stats.bytes_reassembled,
                self.stats.seq_gap_frames == pre.stats.seq_gap_frames,
                self.stats.remote_address == pre.stats.remote_address,
                self.stats.remote_port == pre.stats.remote_port,
                self.stats.missing_chunks >= pre.stats.missing_chunks,
                self.stats.missing_chunks == missing_after_expired(
                    pre.stats.missing_chunks,
                    orig.subrange(0, i as int),
                    now_ms,
                    age,
                ),
                self.stats.frames_dropped_timeout == pre.stats.frames_dropped_timeout + (i
                    - kept@.len()),
                pre.wf(),
                pre.stats.packets_received <= RECV_LIMIT,
            decreases n - i,
        {
            proof {
                assert(orig.skip(i as int)[0] == orig[i as int]);
                assert(orig.subrange(0, i as int + 1).drop_last() =~= orig.subrange(0, i as int));
                assert(orig.subrange(0, i as int + 1).last() == orig[i as int]);
                assert(pre.pending@[i as int].wf());
                assert(0 < pre.pending@[i as int].received_chunks < pre.pending@[
                    i as int
                ].total_chunks);
                assert(orig[i as int].wf());
                assert(pre.stats.accounted());
                assert(orig.skip(i as int).drop_first() =~= orig.skip(i as int + 1));
            }
            let e = self.pending.remove(0);
            if now_ms.saturating_sub(e.first_arrival_ms) > age {
                let miss = (e.total_chunks - e.received_chunks) as u64;
                proof {
                    assert(miss == missing_in(orig[i as int]));
                }
                self.stats.missing_chunks = self.stats.missing_chunks.saturating_add(miss);
                self.stats.frames_dropped_timeout = self.stats.frames_dropped_timeout + 1;
            } else {
                kept.push(e);
            }
            i += 1;
        }
        proof {
            assert(orig.subrange(0, n as int) =~= orig);
        }
        self.pending = kept;
        proof {
            lemma_fresh_only_props(orig, now_ms, age);
            assert forall|a: int|
                0 <= a < self.pending@.len() implies (#[trigger] self.pending@[a]).wf() && 0
                < self.pending@[a].received_chunks < self.pending@[a].total_chunks by {
                let i2 = choose|i2: int|
                    0 <= i2 < orig.len() && fresh_only(orig, now_ms, age)[a] == orig[i2];
                assert(orig[i2].wf());
            }
        }
    }

    /// Queue-cap eviction: while the buffer exceeds `maxPendingFrames`, drop
    /// the lowest sequence. Afterwards the buffer never exceeds the cap.
    pub fn evict_overflow(&mut self)
        requires
            old(self).wf(),
            old(self).stats.packets_received <= RECV_LIMIT,
        ensures
            final(self).wf(),
            final(self).pending@.len() <= final(self).options.max_pending_frames,
            final(self).pending@ == old(self).pending@.skip(
                if old(self).pending@.len() > old(self).options.max_pending_frames {
                    old(self).pending@.len() - old(self).options.max_pending_frames
                } else {
                    0int
                },
            ),
            final(self).stats.frames_dropped_queue == old(self).stats.frames_dropped_queue + (old(
                self,
            ).pending@.len() - final(self).pending@.len()),
            final(self).stats.missing_chunks >= old(self).stats.missing_chunks,
            final(self).stats.missing_chunks == missing_after(
                old(self).stats.missing_chunks,
                old(self).pending@.take(
                    if old(self).pending@.len() > old(self).options.max_pending_frames {
                        old(self).pending@.len() - old(self).options.max_pending_frames
                    } else {
                        0int
                    },
                ),
            ),
            final(self).options == old(self).options,
            final(self).active_stream_id == old(self).active_stream_id,
            final(self).route_remote == old(self).route_remote,
            final(self).last_delivered_seq == old(self).last_delivered_seq,
            final(self).stats.packets_received == old(self).stats.packets_received,
            final(self).stats.packets_accepted == old(self).stats.packets_accepted,
            final(self).stats.packets_invalid == old(self).stats.packets_invalid,
            final(self).stats.packets_duplicate == old(self).stats.packets_duplicate,
            final(self).stats.packets_stream_mismatch == old(self).stats.packets_stream_mismatch,
            final(self).stats.frames_completed == old(self).stats.frames_completed,
            final(self).stats.frames_dropped_timeout == old(self).stats.frames_dropped_timeout,
            final(self).stats.frames_dropped_late == old(self).stats.frames_dropped_late,
            final(self).stats.frames_dropped_gap == old(self).stats.frames_dropped_gap,
            final(self).stats.keyframes_completed == old(self).stats.keyframes_completed,
            final(self).stats.bytes_reassembled == old(self).stats.bytes_reassembled,
            final(self).stats.seq_gap_frames == old(self).stats.seq_gap_frames,
            final(self).stats.remote_address == old(self).stats.remote_address,
            final(self).stats.remote_port == old(self).stats.remote_port,
    {
        let ghost orig = self.pending@;
        let ghost pre = *self;
        let mut k: usize = 0;
        let plen0: usize = self.pending.len();
        while self.pending.len() > self.options.max_pending_frames
            invariant
                k <= plen0,
                plen0 == orig.len(),
                orig == pre.pending@,
                self.pending@ == orig.skip(k as int),
                self.options == pre.options,
                self.active_stream_id == pre.active_stream_id,
                self.route_remote == pre.route_remote,
                self.last_delivered_seq == pre.last_delivered_seq,
                self.stats.packets_received == pre.stats.packets_received,
                self.stats.packets_accepted == pre.stats.packets_accepted,
                self.stats.packets_invalid == pre.stats.packets_invalid,
                self.stats.packets_duplicate == pre.stats.packets_duplicate,
                self.stats.packets_stream_mismatch == pre.stats.packets_stream_mismatch,
                self.stats.frames_completed == pre.stats.frames_completed,
                self.stats.frames_dropped_timeout == pre.stats.frames_dropped_timeout,
                self.stats.frames_dropped_late == pre.stats.frames_dropped_late,
                self.stats.frames_dropped_gap == pre.stats.frames_dropped_gap,
                self.stats.keyframes_completed == pre.stats.keyframes_completed,
                self.stats.bytes_reassembled == pre.stats.bytes_reassembled,
                self.stats.seq_gap_frames == pre.stats.seq_gap_frames,
                self.stats.remote_address == pre.stats.remote_address,
                self.stats.remote_port == pre.stats.remote_port,
                self.stats.missing_chunks >= pre.stats.missing_chunks,
                self.stats.missing_chunks == missing_after(
                    pre.stats.missing_chunks,
                    orig.take(k as int),
                ),
                self.stats.frames_dropped_queue == pre.stats.frames_dropped_queue + k,
                pre.wf(),
                pre.stats.packets_received <= RECV_LIMIT,
                orig.len() > pre.options.max_pending_frames ==> k <= orig.len()
                    - pre.options.max_pending_frames,
                orig.len() <= pre.options.max_pending_frames ==> k == 0,
                self.stats.frames_completed + self.stats.frames_dropped_gap
                    + self.stats.frames_dropped_timeout + self.stats.frames_dropped_queue
                    + self.pending@.len() <= self.stats.packets_accepted,
            decreases self.pending@.len(),
        {
            proof {
                assert(self.pending@[0] == orig[k as int]);
                assert(pre.pending@[k as int].wf());
                assert(0 < pre.pending@[k as int].received_chunks < pre.pending@[
                    k as int
                ].total_chunks);
                assert(orig[k as int].wf());
                assert(pre.stats.accounted());
                assert(orig.skip(k as int).drop_first() =~= orig.skip(k as int + 1));
            }
            let stale = self.pending.remove(0);
            let miss = (stale.total_chunks - stale.received_chunks) as u64;
            self.stats.missing_chunks = self.stats.missing_chunks.saturating_add(miss);
            self.stats.frames_dropped_queue = self.stats.frames_dropped_queue + 1;
            proof {
                assert(orig.take(k as int + 1).drop_last() =~= orig.take(k as int));
                assert(orig.take(k as int + 1).last() == orig[k as int]);
                assert(miss == missing_in(orig[k as int]));
            }
            k += 1;
        }
        proof {
            assert forall|i: int, j: int|
                0 <= i < j < self.pending@.len() implies (#[trigger] self.pending@[i]).seq < (
            #[trigger] self.pending@[j]).seq by {
                assert(self.pending@[i] == orig[k + i]);
                assert(self.pending@[j] == orig[k + j]);
            }
            assert forall|i: int|
                0 <= i < self.pending@.len() implies (#[trigger] self.pending@[i]).wf() && 0
                < self.pending@[i].received_chunks < self.pending@[i].total_chunks by {
                assert(self.pending@[i] == orig[k + i]);
            }
        }
    }
}

/// Every received datagram lands in exactly one counter family: in any
/// well-formed receiver state, `packets_received` equals the sum of
/// `packets_invalid`, `packets_stream_mismatch`, `frames_dropped_late`,
/// `packets_duplicate` and `packets_accepted`.
pub proof fn lemma_every_datagram_counted(r: Receiver)
    requires
        r.wf(),
    ensures
        r.stats.packets_received == r.stats.packets_invalid + r.stats.packets_stream_mismatch
            + r.stats.frames_dropped_late + r.stats.packets_duplicate + r.stats.packets_accepted,
{
}

/// Deliveries come in strictly increasing sequence order. `handle_datagram`
/// guarantees that a delivery from a state whose last delivered sequence is
/// `l` has a higher sequence and raises the mark to it, and that every other
/// outcome and both eviction passes leave the mark unchanged; so once a frame
/// with sequence `s1` is delivered, any later state's mark is at least `s1`,
/// and a delivery made from such a state carries a sequence above `s1`.
pub proof fn lemma_deliveries_strictly_increase(mid: Receiver, ev2: FrameEvent, s1: u32)
    requires
        match mid.last_delivered_seq {
            Some(l) => l >= s1,
            None => false,
        },
        match mid.last_delivered_seq {
            Some(l) => ev2.seq > l,
            None => true,
        },
    ensures
        ev2.seq > s1,
{
}

/// Concatenate all chunk slots, every one filled, in index order.
fn assemble_payload(chunks: &Vec<Option<Vec<u8>>>) -> (r: Vec<u8>)
    requires
        forall|j: int| 0 <= j < chunks@.len() ==> chunks@[j] is Some,
    ensures
        r@ == concat_chunks(chunks_model(chunks@)),
{
    let mut payload: Vec<u8> = Vec::new();
    let mut t: usize = 0;
    proof {
        assert(chunks_model(chunks@).take(0) =~= Seq::empty());
    }
    while t < chunks.len()
        invariant
            t <= chunks@.len(),
            forall|j: int| 0 <= j < chunks@.len() ==> chunks@[j] is Some,
            payload@ == concat_chunks(chunks_model(chunks@).take(t as int)),
        decreases chunks@.len() - t,
    {
        let bytes = chunks[t].as_ref().unwrap();
        payload.extend_from_slice(bytes.as_slice());
        proof {
            lemma_concat_take_step(chunks_model(chunks@), t as int);
        }
        t += 1;
    }
    proof {
        assert(chunks_model(chunks@).take(chunks@.len() as int) =~= chunks_model(chunks@));
    }
    payload
}

} // verus!
