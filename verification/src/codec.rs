//! Binary framing codec for the UDP video stream: a fixed 38-byte big-endian
//! header followed by the chunk payload.

use vstd::prelude::*;
use vstd::slice::slice_to_vec;

verus! {

/// Magic number at the start of every datagram.
pub const UDP_MAGIC_HI: u8 = 0x4f;
/// Low byte of the magic number.
pub const UDP_MAGIC_LO: u8 = 0x44;
/// Wire protocol version.
pub const UDP_VERSION: u8 = 1;
/// Number of bytes in the fixed datagram header.
pub const UDP_HEADER_SIZE: usize = 38;

/// One parsed datagram: a single chunk of a frame.
pub struct Datagram {
    /// 16-byte stream identifier.
    pub stream_id: Vec<u8>,
    /// Frame sequence number.
    pub seq: u32,
    /// Capture timestamp, microseconds since the Unix epoch.
    pub timestamp_us: u64,
    /// Bit 0 marks a keyframe; other bits are reserved.
    pub flags: u8,
    /// Index of this chunk within the frame.
    pub chunk_index: u16,
    /// Total number of chunks in the frame.
    pub total_chunks: u16,
    /// Chunk payload.
    pub payload: Vec<u8>,
}

/// Mathematical model of a datagram.
#[verifier::ext_equal]
pub struct DatagramView {
    pub stream_id: Seq<u8>,
    pub seq: u32,
    pub timestamp_us: u64,
    pub flags: u8,
    pub chunk_index: u16,
    pub total_chunks: u16,
    pub payload: Seq<u8>,
}

impl View for Datagram {
    type V = DatagramView;

    open spec fn view(&self) -> DatagramView {
        DatagramView {
            stream_id: self.stream_id@,
            seq: self.seq,
            timestamp_us: self.timestamp_us,
            flags: self.flags,
            chunk_index: self.chunk_index,
            total_chunks: self.total_chunks,
            payload: self.payload@,
        }
    }
}

impl DatagramView {
    /// A datagram that the codec accepts and can encode.
    pub open spec fn wf(self) -> bool {
        &&& self.stream_id.len() == 16
        &&& self.total_chunks > 0
        &&& self.chunk_index < self.total_chunks
        &&& self.payload.len() <= 0xffff
    }
}

impl Datagram {
    /// A datagram that the codec accepts and can encode.
    pub open spec fn wf(&self) -> bool {
        self@.wf()
    }
}

/// Big-endian 16-bit value of the two bytes at `off`.
pub open spec fn be16(b: Seq<u8>, off: int) -> int {
    b[off] * 0x100 + b[off + 1]
}

/// Big-endian 32-bit value of the four bytes at `off`.
pub open spec fn be32(b: Seq<u8>, off: int) -> int {
    b[off] * 0x1000000 + b[off + 1] * 0x10000 + b[off + 2] * 0x100 + b[off + 3]
}

/// Big-endian 64-bit value of the eight bytes at `off`.
pub open spec fn be64(b: Seq<u8>, off: int) -> int {
    b[off] * 0x100000000000000 + b[off + 1] * 0x1000000000000 + b[off + 2] * 0x10000000000
        + b[off + 3] * 0x100000000 + b[off + 4] * 0x1000000 + b[off + 5] * 0x10000 + b[off
        + 6] * 0x100 + b[off + 7]
}

/// What `parse_udp_datagram` returns on any byte string: `Some` exactly when
/// the length, magic, version, chunk bounds and payload length are all valid.
#[verifier::opaque]
pub open spec fn spec_parse(b: Seq<u8>) -> Option<DatagramView> {
    if b.len() < UDP_HEADER_SIZE {
        None
    } else if b[0] != UDP_MAGIC_HI || b[1] != UDP_MAGIC_LO || b[2] != UDP_VERSION {
        None
    } else {
        let chunk_index = be16(b, 32);
        let total_chunks = be16(b, 34);
        let payload_len = be16(b, 36);
        if total_chunks == 0 || chunk_index >= total_chunks || b.len() != UDP_HEADER_SIZE
            + payload_len {
            None
        } else {
            Some(
                DatagramView {
                    stream_id: b.subrange(4, 20),
                    seq: be32(b, 20) as u32,
                    timestamp_us: be64(b, 24) as u64,
                    flags: b[3],
                    chunk_index: chunk_index as u16,
                    total_chunks: total_chunks as u16,
                    payload: b.subrange(UDP_HEADER_SIZE as int, b.len() as int),
                },
            )
        }
    }
}

/// The byte at position `i` of the encoding of `d`.
pub open spec fn encode_byte(d: DatagramView, i: int) -> u8 {
    if i == 0 {
        UDP_MAGIC_HI
    } else if i == 1 {
        UDP_MAGIC_LO
    } else if i == 2 {
        UDP_VERSION
    } else if i == 3 {
        d.flags
    } else if i < 20 {
        d.stream_id[i - 4]
    } else if i == 20 {
        (d.seq / 0x1000000) as u8
    } else if i == 21 {
        ((d.seq / 0x10000) % 0x100) as u8
    } else if i == 22 {
        ((d.seq / 0x100) % 0x100) as u8
    } else if i == 23 {
        (d.seq % 0x100) as u8
    } else if i == 24 {
        (d.timestamp_us / 0x100000000000000) as u8
    } else if i == 25 {
        ((d.timestamp_us / 0x1000000000000) % 0x100) as u8
    } else if i == 26 {
        ((d.timestamp_us / 0x10000000000) % 0x100) as u8
    } else if i == 27 {
        ((d.timestamp_us / 0x100000000) % 0x100) as u8
    } else if i == 28 {
        ((d.timestamp_us / 0x1000000) % 0x100) as u8
    } else if i == 29 {
        ((d.timestamp_us / 0x10000) % 0x100) as u8
    } else if i == 30 {
        ((d.timestamp_us / 0x100) % 0x100) as u8
    } else if i == 31 {
        (d.timestamp_us % 0x100) as u8
    } else if i == 32 {
        (d.chunk_index / 0x100) as u8
    } else if i == 33 {
        (d.chunk_index % 0x100) as u8
    } else if i == 34 {
        (d.total_chunks / 0x100) as u8
    } else if i == 35 {
        (d.total_chunks % 0x100) as u8
    } else if i == 36 {
        ((d.payload.len() as u16) / 0x100) as u8
    } else if i == 37 {
        ((d.payload.len() as u16) % 0x100) as u8
    } else {
        d.payload[i - UDP_HEADER_SIZE]
    }
}

/// The wire encoding of a datagram: the 38-byte header followed by the payload.
pub open spec fn spec_encode(d: DatagramView) -> Seq<u8> {
    Seq::new((UDP_HEADER_SIZE + d.payload.len()) as nat, |i: int| encode_byte(d, i))
}

/// Parse one received datagram. Returns `None` on any malformed input:
/// short buffer, wrong magic or version, zero chunk count, chunk index out of
/// range, or a length that does not match the payload-length field.
pub fn parse_udp_datagram(buf: &[u8]) -> (r: Option<Datagram>)
    ensures
        match r {
            Some(d) => d.wf() && spec_parse(buf@) == Some(d@),
            None => spec_parse(buf@) is None,
        },
{
    proof {
        reveal(spec_parse);
    }
    if buf.len() < UDP_HEADER_SIZE {
        return None;
    }
    if buf[0] != UDP_MAGIC_HI || buf[1] != UDP_MAGIC_LO || buf[2] != UDP_VERSION {
        return None;
    }
    let flags: u8 = buf[3];
    let stream_id: Vec<u8> = slice_to_vec(&buf[4..20]);
    let seq: u32 = (buf[20] as u32) * 0x1000000 + (buf[21] as u32) * 0x10000 + (buf[22] as u32)
        * 0x100 + (buf[23] as u32);
    let timestamp_us: u64 = (buf[24] as u64) * 0x100000000000000 + (buf[25] as u64)
        * 0x1000000000000 + (buf[26] as u64) * 0x10000000000 + (buf[27] as u64) * 0x100000000 + (
    buf[28] as u64) * 0x1000000 + (buf[29] as u64) * 0x10000 + (buf[30] as u64) * 0x100 + (
    buf[31] as u64);
    let chunk_index: u16 = (buf[32] as u16) * 0x100 + (buf[33] as u16);
    let total_chunks: u16 = (buf[34] as u16) * 0x100 + (buf[35] as u16);
    let payload_len: usize = ((buf[36] as u16) * 0x100 + (buf[37] as u16)) as usize;

    if total_chunks == 0 {
        return None;
    }
    if chunk_index >= total_chunks {
        return None;
    }
    if buf.len() != UDP_HEADER_SIZE + payload_len {
        return None;
    }
    let payload: Vec<u8> = slice_to_vec(&buf[UDP_HEADER_SIZE..buf.len()]);
    let d = Datagram { stream_id, seq, timestamp_us, flags, chunk_index, total_chunks, payload };
    proof {
        let v = spec_parse(buf@).unwrap();
        assert(v.stream_id =~= d@.stream_id);
        assert(v.payload =~= d@.payload);
        assert(v =~= d@);
    }
    Some(d)
}

/// Encode a datagram into its wire form.
pub fn encode_udp_datagram(d: &Datagram) -> (r: Vec<u8>)
    requires
        d.wf(),
    ensures
        r@ == spec_encode(d@),
        r@.len() == UDP_HEADER_SIZE + d.payload@.len(),
{
    let mut out: Vec<u8> = Vec::new();
    out.push(UDP_MAGIC_HI);
    out.push(UDP_MAGIC_LO);
    out.push(UDP_VERSION);
    out.push(d.flags);
    let mut i: usize = 0;
    while i < 16
        invariant
            d.wf(),
            i <= 16,
            out@.len() == 4 + i,
            forall|j: int| 0 <= j < out@.len() ==> out@[j] == encode_byte(d@, j),
        decreases 16 - i,
    {
        out.push(d.stream_id[i]);
        i += 1;
    }
    out.push((d.seq / 0x1000000) as u8);
    out.push(((d.seq / 0x10000) % 0x100) as u8);
    out.push(((d.seq / 0x100) % 0x100) as u8);
    out.push((d.seq % 0x100) as u8);
    out.push((d.timestamp_us / 0x100000000000000) as u8);
    out.push(((d.timestamp_us / 0x1000000000000) % 0x100) as u8);
    out.push(((d.timestamp_us / 0x10000000000) % 0x100) as u8);
    out.push(((d.timestamp_us / 0x100000000) % 0x100) as u8);
    out.push(((d.timestamp_us / 0x1000000) % 0x100) as u8);
    out.push(((d.timestamp_us / 0x10000) % 0x100) as u8);
    out.push(((d.timestamp_us / 0x100) % 0x100) as u8);
    out.push((d.timestamp_us % 0x100) as u8);
    out.push((d.chunk_index / 0x100) as u8);
    out.push((d.chunk_index % 0x100) as u8);
    out.push((d.total_chunks / 0x100) as u8);
    out.push((d.total_chunks % 0x100) as u8);
    let payload_len: u16 = d.payload.len() as u16;
    out.push((payload_len / 0x100) as u8);
    out.push((payload_len % 0x100) as u8);
    let mut k: usize = 0;
    while k < d.payload.len()
        invariant
            d.wf(),
            k <= d.payload@.len(),
            out@.len() == UDP_HEADER_SIZE + k,
            forall|j: int| 0 <= j < out@.len() ==> out@[j] == encode_byte(d@, j),
        decreases d.payload@.len() - k,
    {
        out.push(d.payload[k]);
        k += 1;
    }
    proof {
        assert(out@ =~= spec_encode(d@));
    }
    out
}

/// A 32-bit value is recovered from its four big-endian bytes.
proof fn lemma_u32_be_roundtrip(x: u32)
    ensures
        (x / 0x1000000) * 0x1000000 + ((x / 0x10000) % 0x100) * 0x10000 + ((x / 0x100) % 0x100)
            * 0x100 + (x % 0x100) == x,
{
    assert((x / 0x1000000) * 0x1000000 + ((x / 0x10000) % 0x100) * 0x10000 + ((x / 0x100) % 0x100)
        * 0x100 + (x % 0x100) == x) by (bit_vector);
}

/// A 16-bit value is recovered from its two big-endian bytes.
proof fn lemma_u16_be_roundtrip(x: u16)
    ensures
        (x / 0x100) * 0x100 + (x % 0x100) == x,
{
    assert((x / 0x100) * 0x100 + (x % 0x100) == x) by (bit_vector);
}

/// A 64-bit value is recovered from its eight big-endian bytes.
proof fn lemma_u64_be_roundtrip(x: u64)
    ensures
        (x / 0x100000000000000) * 0x100000000000000 + ((x / 0x1000000000000) % 0x100)
            * 0x1000000000000 + ((x / 0x10000000000) % 0x100) * 0x10000000000 + ((x / 0x100000000)
            % 0x100) * 0x100000000 + ((x / 0x1000000) % 0x100) * 0x1000000 + ((x / 0x10000) % 0x100)
            * 0x10000 + ((x / 0x100) % 0x100) * 0x100 + (x % 0x100) == x,
{
    assert((x / 0x100000000000000) * 0x100000000000000 + ((x / 0x1000000000000) % 0x100)
        * 0x1000000000000 + ((x / 0x10000000000) % 0x100) * 0x10000000000 + ((x / 0x100000000)
        % 0x100) * 0x100000000 + ((x / 0x1000000) % 0x100) * 0x1000000 + ((x / 0x10000) % 0x100)
        * 0x10000 + ((x / 0x100) % 0x100) * 0x100 + (x % 0x100) == x) by (bit_vector);
}

/// Round trip: parsing the encoding of any well-formed datagram gives the
/// datagram back.
pub proof fn lemma_parse_encode_roundtrip(d: DatagramView)
    requires
        d.wf(),
    ensures
        spec_parse(spec_encode(d)) == Some(d),
{
    reveal(spec_parse);
    let b = spec_encode(d);
    assert(b.len() == UDP_HEADER_SIZE + d.payload.len());
    lemma_u16_be_roundtrip(d.chunk_index);
    lemma_u16_be_roundtrip(d.total_chunks);
    lemma_u16_be_roundtrip(d.payload.len() as u16);
    lemma_u32_be_roundtrip(d.seq);
    lemma_u64_be_roundtrip(d.timestamp_us);
    assert(be16(b, 32) == d.chunk_index);
    assert(be16(b, 34) == d.total_chunks);
    assert(be16(b, 36) == d.payload.len());
    assert(be32(b, 20) == d.seq);
    assert(be64(b, 24) == d.timestamp_us);
    let v = spec_parse(b).unwrap();
    assert(v.stream_id =~= d.stream_id);
    assert(v.payload =~= d.payload);
    assert(v =~= d);
}

} // verus!
