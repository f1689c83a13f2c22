//! Bytes on the wire: the keepalive packet and the cutting of an upstream
//! byte stream into chunks of a fixed size.

use bytes::Bytes;
use vstd::prelude::*;
use vstd::slice::slice_subrange;

verus! {

/// The size of a transport-stream packet.
pub const TS_PACKET_SIZE: usize = 188;

/// The size of a published chunk: a whole number of packets.
pub const CHUNK_SIZE: usize = 192512;

#[verifier::external_type_specification]
#[verifier::external_body]
pub struct ExBytes(Bytes);

/// The bytes that a buffer holds, in order.
pub uninterp spec fn bytes_of(b: Bytes) -> Seq<u8>;

/// `Bytes::from` on a `Vec<u8>`: a buffer that holds the vector's bytes.
#[verifier::external_body]
pub(crate) fn bytes_from_vec(v: Vec<u8>) -> (b: Bytes)
    ensures
        bytes_of(b) == v@,
{
    Bytes::from(v)
}

/// `Bytes::len`: the number of bytes that the buffer holds.
#[verifier::external_body]
pub(crate) fn bytes_len(b: &Bytes) -> (n: usize)
    ensures
        n == bytes_of(*b).len(),
{
    b.len()
}

/// The null packet of a transport stream: sync byte `0x47`, packet id
/// `0x1FFF`, payload only, and a payload of zeros.
pub open spec fn null_packet() -> Seq<u8> {
    Seq::new(
        TS_PACKET_SIZE as nat,
        |i: int|
            if i == 0 {
                0x47u8
            } else if i == 1 {
                0x1Fu8
            } else if i == 2 {
                0xFFu8
            } else if i == 3 {
                0x10u8
            } else {
                0u8
            },
    )
}

/// The keepalive packet sent to idle clients.
pub fn ts_null_packet() -> (packet: Bytes)
    ensures
        bytes_of(packet) == null_packet(),
        bytes_of(packet).len() == 188,
{
    let mut pkt: Vec<u8> = Vec::new();
    pkt.push(0x47);
    pkt.push(0x1F);
    pkt.push(0xFF);
    pkt.push(0x10);
    while pkt.len() < TS_PACKET_SIZE
        invariant
            4 <= pkt.len() <= TS_PACKET_SIZE,
            pkt@[0] == 0x47u8,
            pkt@[1] == 0x1Fu8,
            pkt@[2] == 0xFFu8,
            pkt@[3] == 0x10u8,
            forall|i: int| 4 <= i < pkt.len() ==> pkt@[i] == 0u8,
        decreases TS_PACKET_SIZE - pkt.len(),
    {
        pkt.push(0);
    }
    bytes_from_vec(pkt)
}

/// The `k`-th chunk of `stream`.
pub open spec fn chunk_at(stream: Seq<u8>, k: int) -> Seq<u8> {
    stream.subrange(k * CHUNK_SIZE, (k + 1) * CHUNK_SIZE)
}

/// What is left of `stream` after its whole chunks are cut off.
pub open spec fn remainder(stream: Seq<u8>) -> Seq<u8> {
    stream.subrange((stream.len() / CHUNK_SIZE as nat) * CHUNK_SIZE, stream.len() as int)
}

/// `chunks` are the whole chunks of `stream`, in order.
pub open spec fn chunks_of(chunks: Seq<Bytes>, stream: Seq<u8>) -> bool {
    chunks.len() == stream.len() / CHUNK_SIZE as nat && forall|k: int|
        0 <= k < chunks.len() ==> bytes_of(#[trigger] chunks[k]) == chunk_at(stream, k)
}

/// The bytes of an upstream that have arrived but do not yet fill a chunk.
pub struct ChunkBuffer {
    pending: Vec<u8>,
}

impl View for ChunkBuffer {
    type V = Seq<u8>;

    closed spec fn view(&self) -> Seq<u8> {
        self.pending@
    }
}

impl ChunkBuffer {
    /// Fewer bytes are pending than a chunk holds.
    #[verifier::type_invariant]
    spec fn short(self) -> bool {
        self.pending@.len() < CHUNK_SIZE
    }

    /// A buffer with nothing pending.
    pub fn new() -> (buffer: ChunkBuffer)
        ensures
            buffer@ == Seq::<u8>::empty(),
    {
        ChunkBuffer { pending: Vec::new() }
    }

    /// The number of pending bytes; always less than `CHUNK_SIZE`.
    pub fn pending_len(&self) -> (n: usize)
        ensures
            n == self@.len(),
            n < CHUNK_SIZE,
    {
        proof {
            use_type_invariant(self);
        }
        self.pending.len()
    }

    /// Appends `data` to the pending bytes and cuts off every whole chunk.
    /// The chunks come back in stream order; what does not fill a chunk
    /// stays pending.
    pub fn push(&mut self, data: &[u8]) -> (chunks: Vec<Bytes>)
        ensures
            chunks_of(chunks@, old(self)@ + data@),
            final(self)@ == remainder(old(self)@ + data@),
    {
        proof {
            use_type_invariant(&*self);
        }
        let ghost stream = self.pending@ + data@;
        let mut chunks: Vec<Bytes> = Vec::new();
        let mut current: Vec<u8> = Vec::new();
        std::mem::swap(&mut current, &mut self.pending);
        let mut at: usize = 0;
        while at < data.len()
            invariant
                at <= data.len(),
                stream == old(self)@ + data@,
                self.pending@.len() == 0,
                current@.len() < CHUNK_SIZE,
                chunks@.len() * CHUNK_SIZE + current@.len() == old(self)@.len() + at,
                current@ == stream.subrange(chunks@.len() * CHUNK_SIZE, old(self)@.len() + at),
                forall|k: int|
                    0 <= k < chunks@.len() ==> bytes_of(#[trigger] chunks@[k]) == chunk_at(stream, k),
            decreases data.len() - at,
        {
            let room: usize = CHUNK_SIZE - current.len();
            let left: usize = data.len() - at;
            let take: usize = if left < room {
                left
            } else {
                room
            };
            current.extend_from_slice(slice_subrange(data, at, at + take));
            at += take;
            if current.len() == CHUNK_SIZE {
                let mut full: Vec<u8> = Vec::new();
                std::mem::swap(&mut full, &mut current);
                chunks.push(bytes_from_vec(full));
            }
        }
        self.pending = current;
        chunks
    }

    /// Ends the stream: the pending bytes as one last, short chunk, or
    /// `None` when nothing is pending.
    pub fn finish(self) -> (last: Option<Bytes>)
        ensures
            self@.len() == 0 ==> last.is_none(),
            self@.len() > 0 ==> last.is_some() && bytes_of(last.unwrap()) == self@,
    {
        if self.pending.len() == 0 {
            None
        } else {
            Some(bytes_from_vec(self.pending))
        }
    }
}

} // verus!
