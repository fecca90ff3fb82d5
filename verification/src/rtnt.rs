//! Real-time numerical tasks: the sharded configuration cache, the per-node
//! data cache with round-robin publication, and the packet vocabulary they
//! share.

use crate::{RIDReport, RID_MODE_INDEX, RID_PACKET_SIZE, RID_PTP_RESERVED_BYTES, RID_TASK_INDEX};
use vstd::prelude::*;

pub mod constant;
pub mod switch;
pub mod task_generator;
pub mod task_manager;

verus! {

/// Maximum number of task nodes per endpoint.
pub const MAX_TASKS: usize = 32;

/// Maximum number of input wires per node.
pub const MAX_TASK_INPUTS: usize = 16;

/// Maximum number of configuration chunks per node.
pub const MAX_TASK_CONFIG_CHUNKS: usize = 32;

/// Byte offset of the task header within a packet.
pub const RTNT_HDR_INDEX: usize = 2;

/// Length of the task header in bytes.
pub const RTNT_HDR_LENGTH: usize = 8;

/// Byte offset of the payload within a packet.
pub const RTNT_DATA_INDEX: usize = RTNT_HDR_INDEX + RTNT_HDR_LENGTH;

/// Payload bytes per packet: what is left after the header and the timing
/// block.
pub const MAX_TASK_DATA_BYTES: usize = RID_PACKET_SIZE - RTNT_DATA_INDEX - RID_PTP_RESERVED_BYTES;

/// 32-bit values that fit in one payload.
pub const MAX_TASK_DATA_FLOATS: usize = MAX_TASK_DATA_BYTES / 4;

/// One task header: eight bytes at [`RTNT_HDR_INDEX`]. The first two mirror
/// the packet's selector and type bytes.
pub type TaskHeader = [u8; RTNT_HDR_LENGTH];

/// One payload, also the unit of configuration sharding.
pub type TaskBuffer = [u8; MAX_TASK_DATA_BYTES];

/// The input wiring of a node: per wire, a source node id and a source output
/// index.
pub type InputIDBuffer = [[u8; 2]; MAX_TASK_INPUTS];

/// One node's output vector. Each entry is the bit pattern of an IEEE-754
/// single-precision value, kept as `u32` so that the packet codec and the
/// task arithmetic stay exact and bytewise faithful to the wire format.
pub type TaskData = [u32; MAX_TASK_DATA_FLOATS];

/// The state a task node is in.
#[derive(Clone, Copy, PartialEq, Eq, Structural, Debug)]
pub enum TaskStatus {
    /// A runtime or configuration error; cleared by a kill on the next spin.
    Panic,
    /// The node is configured and executing.
    Active,
    /// No driver or executable is bound.
    Standby,
    /// The node is awaiting configuration chunks.
    Configuration,
}

impl TaskStatus {
    /// Decode a status from its wire byte.
    pub fn new(id: u8) -> (r: TaskStatus)
        ensures
            r == (match id {
                0u8 => TaskStatus::Active,
                1u8 => TaskStatus::Standby,
                2u8 => TaskStatus::Configuration,
                _ => TaskStatus::Panic,
            }),
    {
        match id {
            0 => TaskStatus::Active,
            1 => TaskStatus::Standby,
            2 => TaskStatus::Configuration,
            _ => TaskStatus::Panic,
        }
    }

    /// Encode a status as its wire byte.
    pub fn as_u8(&self) -> (r: u8)
        ensures
            r == status_u8(*self),
    {
        match self {
            TaskStatus::Panic => 255,
            TaskStatus::Active => 0,
            TaskStatus::Standby => 1,
            TaskStatus::Configuration => 2,
        }
    }
}

/// The wire byte of a status.
pub open spec fn status_u8(s: TaskStatus) -> u8 {
    match s {
        TaskStatus::Panic => 255u8,
        TaskStatus::Active => 0u8,
        TaskStatus::Standby => 1u8,
        TaskStatus::Configuration => 2u8,
    }
}

/// What a packet carries, stored in its type byte.
#[derive(Clone, Copy, PartialEq, Eq, Structural, Debug)]
pub enum PacketType {
    /// Header data that opens a node's configuration.
    Init,
    /// One chunk of configuration data.
    Chunk,
    /// The mask of configuration chunks a client still misses.
    Status,
    /// Streamed output data of an active node.
    Data,
    /// Deconfigure every node.
    Kill,
}

impl PacketType {
    /// Decode a packet type from its wire byte.
    pub fn new(id: u8) -> (r: PacketType)
        ensures
            r == packet_type_of(id),
    {
        match id {
            0 => PacketType::Init,
            1 => PacketType::Chunk,
            2 => PacketType::Status,
            3 => PacketType::Kill,
            _ => PacketType::Data,
        }
    }

    /// Encode a packet type as its wire byte.
    pub fn as_u8(&self) -> (r: u8)
        ensures
            r == packet_type_u8(*self),
    {
        match self {
            PacketType::Data => 255,
            PacketType::Init => 0,
            PacketType::Chunk => 1,
            PacketType::Status => 2,
            PacketType::Kill => 3,
        }
    }
}

/// The packet type a wire byte decodes to.
pub open spec fn packet_type_of(id: u8) -> PacketType {
    match id {
        0u8 => PacketType::Init,
        1u8 => PacketType::Chunk,
        2u8 => PacketType::Status,
        3u8 => PacketType::Kill,
        _ => PacketType::Data,
    }
}

/// The wire byte of a packet type.
pub open spec fn packet_type_u8(p: PacketType) -> u8 {
    match p {
        PacketType::Data => 255u8,
        PacketType::Init => 0u8,
        PacketType::Chunk => 1u8,
        PacketType::Status => 2u8,
        PacketType::Kill => 3u8,
    }
}

/// Configuration cache of one node: the chunk stream identity, the declared
/// chunk count, the mask of chunks still missing, and the chunk bytes.
#[derive(Clone, Copy, PartialEq, Eq, Debug)]
pub struct TaskConfig {
    /// Identity of the chunk stream; a change announces a new configuration.
    pub id: u8,
    /// Declared number of chunks; zero means the slot is free.
    pub total_chunks: usize,
    /// Which chunks have not arrived yet.
    pub missing_chunks: [bool; MAX_TASK_CONFIG_CHUNKS],
    /// The chunk bytes.
    pub buffer: [TaskBuffer; MAX_TASK_CONFIG_CHUNKS],
}

/// Mathematical image of a [`TaskConfig`].
#[verifier::ext_equal]
pub struct CfgView {
    /// Chunk stream identity.
    pub id: u8,
    /// Declared number of chunks.
    pub total_chunks: int,
    /// Which chunks have not arrived yet.
    pub missing: Seq<bool>,
    /// The chunk bytes.
    pub buffer: Seq<Seq<u8>>,
}

impl View for TaskConfig {
    type V = CfgView;

    open spec fn view(&self) -> CfgView {
        CfgView {
            id: self.id,
            total_chunks: self.total_chunks as int,
            missing: self.missing_chunks@,
            buffer: Seq::new(MAX_TASK_CONFIG_CHUNKS as nat, |i: int| self.buffer@[i]@),
        }
    }
}

/// An all-zero chunk.
pub open spec fn zero_chunk() -> Seq<u8> {
    Seq::new(MAX_TASK_DATA_BYTES as nat, |i: int| 0u8)
}

/// The missing mask right after a reset: the first `total` chunks are owed.
pub open spec fn fresh_missing(total: int) -> Seq<bool> {
    Seq::new(MAX_TASK_CONFIG_CHUNKS as nat, |i: int| i < total)
}

/// How many of the first `n` mask entries are still missing.
pub open spec fn missing_count(m: Seq<bool>, n: int) -> int
    decreases n,
{
    if n <= 0 {
        0
    } else {
        missing_count(m, n - 1) + if m[n - 1] {
            1int
        } else {
            0int
        }
    }
}

/// The least missing index at or after `i`, looking below `n`.
pub open spec fn first_missing_from(m: Seq<bool>, i: int, n: int) -> Option<int>
    decreases n - i,
{
    if i >= n {
        None
    } else if m[i] {
        Some(i)
    } else {
        first_missing_from(m, i + 1, n)
    }
}

/// A configuration cache never declares more chunks than it can hold.
pub open spec fn cfg_wf(c: CfgView) -> bool {
    0 <= c.total_chunks <= MAX_TASK_CONFIG_CHUNKS
}

/// The cache after a reset: mask owed up to `total_chunks`, chunk bytes
/// zeroed.
pub open spec fn cfg_reset_spec(c: CfgView) -> CfgView {
    CfgView {
        missing: fresh_missing(c.total_chunks),
        buffer: Seq::new(MAX_TASK_CONFIG_CHUNKS as nat, |i: int| zero_chunk()),
        ..c
    }
}

/// The cache after one chunk lands at index `k`.
pub open spec fn cfg_new_chunk_spec(c: CfgView, k: int, chunk: Seq<u8>) -> CfgView {
    CfgView {
        missing: c.missing.update(k, false),
        buffer: c.buffer.update(k, chunk.take(MAX_TASK_DATA_BYTES as int)),
        ..c
    }
}

/// The cache after it collects a chunk packet.
///
/// A chunk whose declared total does not fit, or whose index is not below the
/// declared total, is a wire-protocol violation and leaves the cache
/// untouched. A chunk carrying the current identity lands in place; a chunk
/// carrying a new identity first resets the cache to that identity, so that
/// chunks of distinct streams never mix.
pub open spec fn cfg_collect_chunk_spec(c: CfgView, header: Seq<u8>, data: Seq<u8>) -> CfgView {
    let id = header[2];
    let k = header[3] as int;
    let total = header[4] as int;
    if total > MAX_TASK_CONFIG_CHUNKS || k >= total {
        c
    } else if c.id == id {
        cfg_new_chunk_spec(CfgView { total_chunks: total, ..c }, k, data)
    } else {
        cfg_new_chunk_spec(
            cfg_reset_spec(CfgView { id: id, total_chunks: total, ..c }),
            k,
            data,
        )
    }
}

/// The cache after it absorbs an echoed status mask.
pub open spec fn cfg_collect_status_spec(c: CfgView, data: Seq<u8>) -> CfgView {
    CfgView {
        missing: Seq::new(
            MAX_TASK_CONFIG_CHUNKS as nat,
            |i: int|
                if i < c.total_chunks {
                    data[i] != 0
                } else {
                    c.missing[i]
                },
        ),
        ..c
    }
}

/// The header and payload of the chunk packet a host emits: the first missing
/// chunk, or chunk zero once nothing is missing.
pub open spec fn cfg_emit_chunk_spec(c: CfgView) -> (Seq<u8>, Seq<u8>) {
    let (k, data) = match first_missing_from(c.missing, 0, c.total_chunks) {
        Some(k) => (k, c.buffer[k]),
        None => (0int, zero_chunk()),
    };
    (
        Seq::new(RTNT_HDR_LENGTH as nat, |i: int|
            if i == 2 {
                c.id
            } else if i == 3 {
                k as u8
            } else if i == 4 {
                c.total_chunks as u8
            } else {
                0u8
            }),
        data,
    )
}

/// The payload of the status packet a client emits: one byte per declared
/// chunk, nonzero while the chunk is missing.
pub open spec fn cfg_emit_status_spec(c: CfgView) -> Seq<u8> {
    Seq::new(
        MAX_TASK_DATA_BYTES as nat,
        |i: int|
            if i < c.total_chunks && c.missing[i] {
                1u8
            } else {
                0u8
            },
    )
}

impl TaskConfig {
    /// An unused cache: no chunks declared, nothing missing, bytes zeroed.
    pub fn default() -> (r: TaskConfig)
        ensures
            r@ == (CfgView {
                id: 255u8,
                total_chunks: 0int,
                missing: fresh_missing(0),
                buffer: Seq::new(MAX_TASK_CONFIG_CHUNKS as nat, |i: int| zero_chunk()),
            }),
            cfg_wf(r@),
    {
        let r = TaskConfig {
            id: u8::MAX,
            total_chunks: 0,
            missing_chunks: [false; MAX_TASK_CONFIG_CHUNKS],
            buffer: [[0u8; MAX_TASK_DATA_BYTES]; MAX_TASK_CONFIG_CHUNKS],
        };
        proof {
            assert(r@.missing =~= fresh_missing(0));
            assert(r@.buffer =~~= Seq::new(MAX_TASK_CONFIG_CHUNKS as nat, |i: int| zero_chunk()));
            assert(r@ =~~= (CfgView {
                id: 255u8,
                total_chunks: 0int,
                missing: fresh_missing(0),
                buffer: Seq::new(MAX_TASK_CONFIG_CHUNKS as nat, |i: int| zero_chunk()),
            }));
        }
        r
    }

    /// A cache holding a prepared configuration of `total_chunks` chunks with
    /// stream identity zero; every declared chunk is marked missing, so a
    /// receiver that mirrors this cache still owes them all.
    #[verifier::loop_isolation(false)]
    pub fn new(total_chunks: usize, buffer: [TaskBuffer; MAX_TASK_CONFIG_CHUNKS]) -> (r:
        TaskConfig)
        requires
            total_chunks <= MAX_TASK_CONFIG_CHUNKS,
        ensures
            r@.id == 0u8,
            r@.total_chunks == total_chunks,
            r@.missing =~= fresh_missing(total_chunks as int),
            r@.buffer =~~= Seq::new(MAX_TASK_CONFIG_CHUNKS as nat, |i: int| buffer@[i]@),
            cfg_wf(r@),
    {
        let mut missing_chunks = [false; MAX_TASK_CONFIG_CHUNKS];
        let mut i: usize = 0;
        while i < MAX_TASK_CONFIG_CHUNKS
            invariant
                i <= MAX_TASK_CONFIG_CHUNKS,
                forall|j: int| 0 <= j < i ==> missing_chunks@[j] == (j < total_chunks),
                forall|j: int| i <= j < MAX_TASK_CONFIG_CHUNKS ==> missing_chunks@[j] == false,
            decreases MAX_TASK_CONFIG_CHUNKS - i,
        {
            missing_chunks[i] = i < total_chunks;
            i = i + 1;
        }
        let r = TaskConfig { id: 0, total_chunks, missing_chunks, buffer };
        proof {
            assert(r@.missing =~= fresh_missing(total_chunks as int));
        }
        r
    }

    /// The declared number of chunks.
    pub fn chunks(&self) -> (r: usize)
        ensures
            r == self@.total_chunks,
    {
        self.total_chunks
    }

    /// Whether the cache is in use: at least one chunk is declared.
    pub fn is_init(&self) -> (r: bool)
        ensures
            r == (self@.total_chunks > 0),
    {
        self.total_chunks > 0
    }

    /// Reset the chunks: the declared chunks become missing again and every
    /// chunk byte is zeroed. The declared count and the identity are kept.
    pub fn reset_chunks(&mut self)
        ensures
            final(self)@ == cfg_reset_spec(old(self)@),
    {
        let ghost pre = self@;
        let mut i: usize = 0;
        while i < MAX_TASK_CONFIG_CHUNKS
            invariant
                i <= MAX_TASK_CONFIG_CHUNKS,
                self.id == pre.id,
                self.total_chunks == pre.total_chunks,
                self.buffer@ == old(self).buffer@,
                forall|j: int| 0 <= j < i ==> self.missing_chunks@[j] == (j < pre.total_chunks),
                forall|j: int|
                    i <= j < MAX_TASK_CONFIG_CHUNKS ==> self.missing_chunks@[j] == pre.missing[j],
            decreases MAX_TASK_CONFIG_CHUNKS - i,
        {
            self.missing_chunks[i] = i < self.total_chunks;
            i = i + 1;
        }
        let mut k: usize = 0;
        while k < MAX_TASK_CONFIG_CHUNKS
            invariant
                k <= MAX_TASK_CONFIG_CHUNKS,
                self.id == pre.id,
                self.total_chunks == pre.total_chunks,
                forall|j: int| 0 <= j < MAX_TASK_CONFIG_CHUNKS ==> self.missing_chunks@[j] == (j
                    < pre.total_chunks),
                forall|j: int| 0 <= j < k ==> self.buffer@[j]@ =~= zero_chunk(),
                forall|j: int|
                    k <= j < MAX_TASK_CONFIG_CHUNKS ==> self.buffer@[j]@ == pre.buffer[j],
            decreases MAX_TASK_CONFIG_CHUNKS - k,
        {
            self.buffer[k] = [0u8; MAX_TASK_DATA_BYTES];
            k = k + 1;
        }
        proof {
            assert(self@.missing =~= fresh_missing(pre.total_chunks));
            assert(self@.buffer =~~= Seq::new(MAX_TASK_CONFIG_CHUNKS as nat, |i: int| zero_chunk()));
            assert(self@ =~~= cfg_reset_spec(pre));
        }
    }

    /// Mark every chunk as present, so that nothing is owed.
    pub fn clear_missing(&mut self)
        ensures
            final(self)@ == (CfgView {
                missing: Seq::new(MAX_TASK_CONFIG_CHUNKS as nat, |i: int| false),
                ..old(self)@
            }),
    {
        self.missing_chunks = [false; MAX_TASK_CONFIG_CHUNKS];
        proof {
            assert(self@ =~~= (CfgView {
                missing: Seq::new(MAX_TASK_CONFIG_CHUNKS as nat, |i: int| false),
                ..old(self)@
            }));
        }
    }

    /// Open the cache for an incoming configuration: declare one chunk — a
    /// signaling default, the first chunk header carries the real count — and
    /// reset.
    pub fn init(&mut self)
        ensures
            final(self)@ == cfg_reset_spec(CfgView { total_chunks: 1int, ..old(self)@ }),
            cfg_wf(final(self)@),
    {
        self.total_chunks = 1;
        self.reset_chunks();
    }

    /// Free the cache: declare zero chunks and reset.
    pub fn clear_chunks(&mut self)
        ensures
            final(self)@ == cfg_reset_spec(CfgView { total_chunks: 0int, ..old(self)@ }),
            cfg_wf(final(self)@),
    {
        self.total_chunks = 0;
        self.reset_chunks();
    }

    /// Store one chunk and clear its missing flag.
    pub fn new_chunk(&mut self, chunk_num: usize, chunk: &[u8])
        requires
            chunk_num < MAX_TASK_CONFIG_CHUNKS,
            chunk@.len() >= MAX_TASK_DATA_BYTES,
        ensures
            final(self)@ == cfg_new_chunk_spec(old(self)@, chunk_num as int, chunk@),
    {
        self.missing_chunks[chunk_num] = false;
        let mut tmp = [0u8; MAX_TASK_DATA_BYTES];
        let mut j: usize = 0;
        while j < MAX_TASK_DATA_BYTES
            invariant
                j <= MAX_TASK_DATA_BYTES,
                chunk@.len() >= MAX_TASK_DATA_BYTES,
                forall|t: int| 0 <= t < j ==> tmp@[t] == chunk@[t],
            decreases MAX_TASK_DATA_BYTES - j,
        {
            tmp[j] = chunk[j];
            j = j + 1;
        }
        self.buffer[chunk_num] = tmp;
        proof {
            assert(tmp@ =~= chunk@.take(MAX_TASK_DATA_BYTES as int));
            assert(self@ =~~= cfg_new_chunk_spec(old(self)@, chunk_num as int, chunk@));
        }
    }

    /// How many declared chunks are still missing.
    pub fn missing_chunks(&self) -> (r: usize)
        requires
            cfg_wf(self@),
        ensures
            r == missing_count(self@.missing, self@.total_chunks),
    {
        let mut chunks: usize = 0;
        let mut i: usize = 0;
        while i < self.total_chunks
            invariant
                i <= self.total_chunks,
                self.total_chunks <= MAX_TASK_CONFIG_CHUNKS,
                chunks == missing_count(self@.missing, i as int),
                chunks <= i,
            decreases self.total_chunks - i,
        {
            if self.missing_chunks[i] {
                chunks = chunks + 1;
            }
            i = i + 1;
        }
        chunks
    }

    /// The index of the first missing chunk, if any chunk is missing.
    pub fn first_missing(&self) -> (r: Option<usize>)
        requires
            cfg_wf(self@),
        ensures
            first_missing_from(self@.missing, 0, self@.total_chunks) == (match r {
                Some(u) => Some(u as int),
                None => None::<int>,
            }),
            match r {
                Some(u) => u < self@.total_chunks && self@.missing[u as int] && forall|j: int|
                    0 <= j < u ==> !self@.missing[j],
                None => forall|j: int| 0 <= j < self@.total_chunks ==> !self@.missing[j],
            },
    {
        let mut i: usize = 0;
        while i < self.total_chunks
            invariant
                i <= self.total_chunks,
                self.total_chunks <= MAX_TASK_CONFIG_CHUNKS,
                forall|j: int| 0 <= j < i ==> !self@.missing[j],
                first_missing_from(self@.missing, 0, self@.total_chunks) == first_missing_from(
                    self@.missing,
                    i as int,
                    self@.total_chunks,
                ),
            decreases self.total_chunks - i,
        {
            if self.missing_chunks[i] {
                return Some(i);
            }
            i = i + 1;
        }
        None
    }

    /// Collect one chunk packet: land the chunk, resetting first whenever the
    /// stream identity changed. A chunk that declares more chunks than fit,
    /// or whose index is not below its declared total, is a wire-protocol
    /// violation and leaves the cache untouched.
    ///
    /// Chunks of two streams with distinct identities never mix: the first
    /// chunk of the new identity clears every byte the old stream stored
    /// (see [`lemma_identity_reset_no_mixing`]).
    pub fn collect_chunk(&mut self, header: &[u8], buffer: &[u8])
        requires
            cfg_wf(old(self)@),
            header@.len() == RTNT_HDR_LENGTH,
            buffer@.len() >= MAX_TASK_DATA_BYTES,
        ensures
            final(self)@ == cfg_collect_chunk_spec(old(self)@, header@, buffer@),
            cfg_wf(final(self)@),
            final(self)@.total_chunks >= 1 || final(self)@ == old(self)@,
    {
        let id = header[2];
        let chunk_num = header[3] as usize;
        let total = header[4] as usize;
        if total > MAX_TASK_CONFIG_CHUNKS || chunk_num >= total {
            return ;
        }
        self.total_chunks = total;
        if self.id == id {
            self.new_chunk(chunk_num, buffer);
        } else {
            self.id = id;
            self.reset_chunks();
            self.new_chunk(chunk_num, buffer);
        }
    }

    /// Absorb an echoed status mask: each declared chunk is missing exactly
    /// when its status byte is nonzero. Returns how many are missing.
    pub fn collect_status(&mut self, buffer: &[u8]) -> (r: usize)
        requires
            cfg_wf(self@),
            buffer@.len() >= MAX_TASK_CONFIG_CHUNKS,
        ensures
            final(self)@ == cfg_collect_status_spec(old(self)@, buffer@),
            cfg_wf(final(self)@),
            r == missing_count(final(self)@.missing, final(self)@.total_chunks),
    {
        let ghost pre = self@;
        let mut i: usize = 0;
        while i < self.total_chunks
            invariant
                i <= self.total_chunks,
                self.total_chunks == pre.total_chunks,
                self.id == pre.id,
                self.total_chunks <= MAX_TASK_CONFIG_CHUNKS,
                buffer@.len() >= MAX_TASK_CONFIG_CHUNKS,
                self.buffer@ == old(self).buffer@,
                forall|j: int| 0 <= j < i ==> self.missing_chunks@[j] == (buffer@[j] != 0),
                forall|j: int|
                    i <= j < MAX_TASK_CONFIG_CHUNKS ==> self.missing_chunks@[j] == pre.missing[j],
            decreases self.total_chunks - i,
        {
            self.missing_chunks[i] = buffer[i] != 0;
            i = i + 1;
        }
        proof {
            assert(self@ =~~= cfg_collect_status_spec(pre, buffer@));
        }
        self.missing_chunks()
    }

    /// Emit the header and payload of the next chunk packet: the first
    /// missing chunk, or chunk zero with a zero payload once nothing is
    /// missing (idempotent; an active node ignores it).
    pub fn emit_chunk(&self) -> (r: (TaskHeader, TaskBuffer))
        requires
            cfg_wf(self@),
        ensures
            r.0@ == cfg_emit_chunk_spec(self@).0,
            r.1@ == cfg_emit_chunk_spec(self@).1,
    {
        let mut header = [0u8; RTNT_HDR_LENGTH];
        let mut buffer = [0u8; MAX_TASK_DATA_BYTES];

        let chunk_num: u8 = match self.first_missing() {
            Some(chunk_num) => {
                buffer = self.buffer[chunk_num];
                chunk_num as u8
            },
            None => 0,
        };

        header[2] = self.id;
        header[3] = chunk_num;
        header[4] = self.total_chunks as u8;
        proof {
            assert(header@ =~= cfg_emit_chunk_spec(self@).0);
            assert(buffer@ =~= cfg_emit_chunk_spec(self@).1);
        }
        (header, buffer)
    }

    /// Emit the status payload: one byte per declared chunk, nonzero while
    /// the chunk is missing.
    pub fn emit_status(&self) -> (r: TaskBuffer)
        requires
            cfg_wf(self@),
        ensures
            r@ == cfg_emit_status_spec(self@),
    {
        let mut buffer = [0u8; MAX_TASK_DATA_BYTES];
        let mut i: usize = 0;
        while i < self.total_chunks
            invariant
                i <= self.total_chunks,
                self.total_chunks <= MAX_TASK_CONFIG_CHUNKS,
                forall|j: int| 0 <= j < i ==> buffer@[j] == (if self@.missing[j] {
                    1u8
                } else {
                    0u8
                }),
                forall|j: int| i <= j < MAX_TASK_DATA_BYTES ==> buffer@[j] == 0u8,
            decreases self.total_chunks - i,
        {
            buffer[i] = if self.missing_chunks[i] {
                1
            } else {
                0
            };
            i = i + 1;
        }
        proof {
            assert(buffer@ =~= cfg_emit_status_spec(self@));
        }
        buffer
    }

    /// The chunk bytes.
    pub fn data(&self) -> (r: &[TaskBuffer; MAX_TASK_CONFIG_CHUNKS])
        ensures
            r == &self.buffer,
    {
        &self.buffer
    }
}

/// Chunks of two streams with distinct identities never mix: when a chunk
/// arrives under a new identity, every chunk slot other than the one it fills
/// is zeroed, so nothing of the previous stream's bytes survives.
pub proof fn lemma_identity_reset_no_mixing(c: CfgView, header: Seq<u8>, data: Seq<u8>)
    requires
        header.len() == RTNT_HDR_LENGTH,
        header[2] != c.id,
        header[4] <= MAX_TASK_CONFIG_CHUNKS,
        header[3] < header[4],
    ensures
        forall|j: int|
            0 <= j < MAX_TASK_CONFIG_CHUNKS && j != header[3] as int ==> cfg_collect_chunk_spec(
                c,
                header,
                data,
            ).buffer[j] == zero_chunk(),
        cfg_collect_chunk_spec(c, header, data).id == header[2],
        cfg_collect_chunk_spec(c, header, data).total_chunks == header[4] as int,
{
}

/// Per-node outbound packet cache with a round-robin publication cursor.
pub struct TaskDataCache {
    /// The publication cursor: where the next scan starts.
    pub context: usize,
    /// An all-zero payload handed out for invalid input references.
    pub empty: TaskBuffer,
    /// One outbound packet per node slot.
    pub buffer: [RIDReport; MAX_TASKS],
}

/// Mathematical image of a [`TaskDataCache`]: the cursor and the packets.
#[verifier::ext_equal]
pub struct CacheView {
    /// The publication cursor.
    pub context: int,
    /// One packet per node slot.
    pub buffer: Seq<Seq<u8>>,
}

impl View for TaskDataCache {
    type V = CacheView;

    open spec fn view(&self) -> CacheView {
        CacheView {
            context: self.context as int,
            buffer: Seq::new(MAX_TASKS as nat, |i: int| self.buffer@[i]@),
        }
    }
}

/// The cache cursor always points at a real slot.
pub open spec fn cache_wf(c: CacheView) -> bool {
    0 <= c.context < MAX_TASKS
}

/// An all-zero packet.
pub open spec fn zero_packet() -> Seq<u8> {
    Seq::new(RID_PACKET_SIZE as nat, |i: int| 0u8)
}

/// A slot packet rebuilt with a selector, a type byte and a payload; header
/// and timing bytes are kept from the packet already in the slot.
pub open spec fn packet_with_payload(pkt: Seq<u8>, sel: u8, mode: u8, data: Seq<u8>) -> Seq<u8> {
    Seq::new(
        RID_PACKET_SIZE as nat,
        |i: int|
            if i == RID_TASK_INDEX {
                sel
            } else if i == RID_MODE_INDEX {
                mode
            } else if RTNT_DATA_INDEX <= i < RTNT_DATA_INDEX + MAX_TASK_DATA_BYTES {
                data[i - RTNT_DATA_INDEX]
            } else {
                pkt[i]
            },
    )
}

/// A slot packet rebuilt with a selector, a type byte, a header and a
/// payload; the header's first two bytes mirror the selector and type.
pub open spec fn packet_with_header(
    pkt: Seq<u8>,
    sel: u8,
    mode: u8,
    header: Seq<u8>,
    data: Seq<u8>,
) -> Seq<u8> {
    let hdr = header.update(0, sel).update(1, mode);
    Seq::new(
        RID_PACKET_SIZE as nat,
        |i: int|
            if i == RID_TASK_INDEX {
                sel
            } else if i == RID_MODE_INDEX {
                mode
            } else if RTNT_HDR_INDEX <= i < RTNT_HDR_INDEX + RTNT_HDR_LENGTH {
                hdr[i - RTNT_HDR_INDEX]
            } else if RTNT_DATA_INDEX <= i < RTNT_DATA_INDEX + MAX_TASK_DATA_BYTES {
                data[i - RTNT_DATA_INDEX]
            } else {
                pkt[i]
            },
    )
}

/// The cache after a streaming output lands in slot `index`.
pub open spec fn cache_new_output_spec(c: CacheView, index: int, mode: u8, data: Seq<u8>) -> CacheView {
    CacheView {
        buffer: c.buffer.update(
            index,
            packet_with_payload(c.buffer[index], (index + 1) as u8, mode, data),
        ),
        ..c
    }
}

/// The cache after a non-streaming output lands in slot `index`: its selector
/// byte stays zero, so publication skips it.
pub open spec fn cache_new_nonstreaming_spec(c: CacheView, index: int, mode: u8, data: Seq<u8>) -> CacheView {
    CacheView {
        buffer: c.buffer.update(
            index,
            packet_with_payload(c.buffer[index], 0u8, mode, data),
        ),
        ..c
    }
}

/// The cache after a full packet with header lands in slot `index`.
pub open spec fn cache_new_output_with_header_spec(
    c: CacheView,
    index: int,
    mode: u8,
    header: Seq<u8>,
    data: Seq<u8>,
) -> CacheView {
    CacheView {
        buffer: c.buffer.update(
            index,
            packet_with_header(c.buffer[index], (index + 1) as u8, mode, header, data),
        ),
        ..c
    }
}

/// One publication scan, `ctr` slots already inspected: starting at the
/// cursor, find the first slot whose selector byte is nonzero, return its
/// packet, clear the selector in place, and leave the cursor one past the
/// hit. Inspecting `n` slots without a hit returns nothing.
pub open spec fn publish_scan(c: CacheView, n: int, ctr: int) -> (CacheView, Option<Seq<u8>>)
    decreases n - ctr,
{
    if ctr >= n {
        (c, None)
    } else {
        let idx = c.context;
        if c.buffer[idx][RID_TASK_INDEX as int] > 0 {
            (
                CacheView {
                    context: (idx + 1) % n,
                    buffer: c.buffer.update(idx, c.buffer[idx].update(RID_TASK_INDEX as int, 0u8)),
                },
                Some(c.buffer[idx]),
            )
        } else {
            publish_scan(CacheView { context: (idx + 1) % n, ..c }, n, ctr + 1)
        }
    }
}

/// What [`TaskDataCache::publish`] does: a full scan of up to `n` slots.
pub open spec fn publish_spec(c: CacheView, n: int) -> (CacheView, Option<Seq<u8>>) {
    publish_scan(c, n, 0)
}

impl TaskDataCache {
    /// An empty cache: cursor at slot zero, all packets zeroed.
    pub fn default() -> (r: TaskDataCache)
        ensures
            r@.context == 0,
            r@.buffer =~~= Seq::new(MAX_TASKS as nat, |i: int| zero_packet()),
            cache_wf(r@),
    {
        TaskDataCache {
            context: 0,
            empty: [0u8; MAX_TASK_DATA_BYTES],
            buffer: [[0u8; RID_PACKET_SIZE]; MAX_TASKS],
        }
    }

    /// Scan up to `context_wrap` slots from the cursor and hand out the first
    /// packet whose selector byte is nonzero, clearing that byte in the slot
    /// and advancing the cursor past the hit.
    ///
    /// Nothing comes back exactly when every inspected slot's selector byte
    /// is zero; with the cursor below `context_wrap` that is every slot in
    /// the window (see [`lemma_publish_none_iff_all_clear`]).
    pub fn publish(&mut self, context_wrap: usize) -> (r: Option<RIDReport>)
        requires
            context_wrap <= MAX_TASKS,
            cache_wf(old(self)@),
        ensures
            final(self)@ == publish_spec(old(self)@, context_wrap as int).0,
            cache_wf(final(self)@),
            final(self).empty == old(self).empty,
            match r {
                Some(p) => publish_spec(old(self)@, context_wrap as int).1 == Some(p@),
                None => publish_spec(old(self)@, context_wrap as int).1 is None,
            },
    {
        let mut ctr: usize = 0;
        while ctr < context_wrap
            invariant
                ctr <= context_wrap,
                context_wrap <= MAX_TASKS,
                cache_wf(self@),
                self.empty == old(self).empty,
                publish_scan(old(self)@, context_wrap as int, 0) == publish_scan(
                    self@,
                    context_wrap as int,
                    ctr as int,
                ),
            decreases context_wrap - ctr,
        {
            let idx = self.context;
            if self.buffer[idx][RID_TASK_INDEX] > 0 {
                let packet = self.buffer[idx];
                let mut cleared = packet;
                cleared[RID_TASK_INDEX] = 0;
                self.buffer[idx] = cleared;
                self.context = (idx + 1) % context_wrap;
                proof {
                    assert(self@.buffer =~~= publish_scan(
                        old(self)@,
                        context_wrap as int,
                        0,
                    ).0.buffer);
                    assert(self@ =~~= publish_scan(old(self)@, context_wrap as int, 0).0);
                    assert(packet@ =~= publish_scan(old(self)@, context_wrap as int, 0).1.unwrap());
                }
                return Some(packet);
            }
            self.context = (idx + 1) % context_wrap;
            ctr = ctr + 1;
        }
        None
    }

    /// Whether the slot holds an unpublished status packet; the client must
    /// not overwrite one with streamed data before the host has seen it.
    pub fn status_waiting(&self, index: usize) -> (r: bool)
        requires
            index < MAX_TASKS,
        ensures
            r == (self@.buffer[index as int][RID_TASK_INDEX as int] != 0
                && self@.buffer[index as int][RID_MODE_INDEX as int] == packet_type_u8(
                PacketType::Status,
            )),
    {
        self.buffer[index][RID_TASK_INDEX] != 0 && self.buffer[index][RID_MODE_INDEX]
            == PacketType::Status.as_u8()
    }

    /// The packet currently cached for a slot.
    pub fn task_buffer(&mut self, index: usize) -> (r: &[u8])
        requires
            index < MAX_TASKS,
        ensures
            *final(self) == *old(self),
            r@ == old(self)@.buffer[index as int],
    {
        self.buffer[index].as_slice()
    }

    /// Cache a streaming output packet for a slot: selector set to the slot's
    /// node id plus one, type byte set, payload stored. Overwrites whatever
    /// the slot held.
    pub fn new_output(&mut self, index: usize, status: PacketType, buffer: TaskBuffer)
        requires
            index < MAX_TASKS,
        ensures
            final(self)@ == cache_new_output_spec(
                old(self)@,
                index as int,
                packet_type_u8(status),
                buffer@,
            ),
            final(self).empty == old(self).empty,
    {
        let mut pkt = self.buffer[index];
        pkt[RID_TASK_INDEX] = index as u8 + 1;
        pkt[RID_MODE_INDEX] = status.as_u8();
        let mut j: usize = 0;
        while j < MAX_TASK_DATA_BYTES
            invariant
                j <= MAX_TASK_DATA_BYTES,
                pkt@.len() == RID_PACKET_SIZE,
                forall|t: int| 0 <= t < j ==> pkt@[RTNT_DATA_INDEX + t] == buffer@[t],
                forall|t: int|
                    0 <= t < RID_PACKET_SIZE && !(RTNT_DATA_INDEX <= t < RTNT_DATA_INDEX
                        + j) ==> pkt@[t] == self.buffer@[index as int]@.update(
                        RID_TASK_INDEX as int,
                        (index + 1) as u8,
                    ).update(RID_MODE_INDEX as int, packet_type_u8(status))[t],
            decreases MAX_TASK_DATA_BYTES - j,
        {
            pkt[RTNT_DATA_INDEX + j] = buffer[j];
            j = j + 1;
        }
        self.buffer[index] = pkt;
        proof {
            assert(self@.buffer =~~= cache_new_output_spec(
                old(self)@,
                index as int,
                packet_type_u8(status),
                buffer@,
            ).buffer);
            assert(self@ =~~= cache_new_output_spec(
                old(self)@,
                index as int,
                packet_type_u8(status),
                buffer@,
            ));
        }
    }

    /// Cache a packet that must not stream: its selector byte stays zero, so
    /// publication never picks it and any later write may replace it.
    pub fn new_nonstreaming_output(&mut self, index: usize, mode: PacketType, buffer: TaskBuffer)
        requires
            index < MAX_TASKS,
        ensures
            final(self)@ == cache_new_nonstreaming_spec(
                old(self)@,
                index as int,
                packet_type_u8(mode),
                buffer@,
            ),
            final(self).empty == old(self).empty,
    {
        let mut pkt = self.buffer[index];
        pkt[RID_TASK_INDEX] = 0;
        pkt[RID_MODE_INDEX] = mode.as_u8();
        let mut j: usize = 0;
        while j < MAX_TASK_DATA_BYTES
            invariant
                j <= MAX_TASK_DATA_BYTES,
                pkt@.len() == RID_PACKET_SIZE,
                forall|t: int| 0 <= t < j ==> pkt@[RTNT_DATA_INDEX + t] == buffer@[t],
                forall|t: int|
                    0 <= t < RID_PACKET_SIZE && !(RTNT_DATA_INDEX <= t < RTNT_DATA_INDEX
                        + j) ==> pkt@[t] == self.buffer@[index as int]@.update(
                        RID_TASK_INDEX as int,
                        0u8,
                    ).update(RID_MODE_INDEX as int, packet_type_u8(mode))[t],
            decreases MAX_TASK_DATA_BYTES - j,
        {
            pkt[RTNT_DATA_INDEX + j] = buffer[j];
            j = j + 1;
        }
        self.buffer[index] = pkt;
        proof {
            assert(self@.buffer =~~= cache_new_nonstreaming_spec(
                old(self)@,
                index as int,
                packet_type_u8(mode),
                buffer@,
            ).buffer);
            assert(self@ =~~= cache_new_nonstreaming_spec(
                old(self)@,
                index as int,
                packet_type_u8(mode),
                buffer@,
            ));
        }
    }

    /// Cache a full packet for a slot: selector, type byte, header with its
    /// selector and type mirrors, and payload.
    pub fn new_output_with_header(
        &mut self,
        index: usize,
        mode: PacketType,
        header: TaskHeader,
        buffer: TaskBuffer,
    )
        requires
            index < MAX_TASKS,
        ensures
            final(self)@ == cache_new_output_with_header_spec(
                old(self)@,
                index as int,
                packet_type_u8(mode),
                header@,
                buffer@,
            ),
            final(self).empty == old(self).empty,
    {
        let ghost hdr_spec = header@.update(0, (index + 1) as u8).update(
            1,
            packet_type_u8(mode),
        );
        let mut hdr = header;
        hdr[RID_TASK_INDEX] = index as u8 + 1;
        hdr[RID_MODE_INDEX] = mode.as_u8();
        let mut pkt = self.buffer[index];
        pkt[RID_TASK_INDEX] = index as u8 + 1;
        pkt[RID_MODE_INDEX] = mode.as_u8();
        let mut h: usize = 0;
        while h < RTNT_HDR_LENGTH
            invariant
                h <= RTNT_HDR_LENGTH,
                pkt@.len() == RID_PACKET_SIZE,
                hdr@ == hdr_spec,
                forall|t: int| 0 <= t < h ==> pkt@[RTNT_HDR_INDEX + t] == hdr_spec[t],
                forall|t: int|
                    0 <= t < RID_PACKET_SIZE && !(RTNT_HDR_INDEX <= t < RTNT_HDR_INDEX
                        + h) ==> pkt@[t] == self.buffer@[index as int]@.update(
                        RID_TASK_INDEX as int,
                        (index + 1) as u8,
                    ).update(RID_MODE_INDEX as int, packet_type_u8(mode))[t],
            decreases RTNT_HDR_LENGTH - h,
        {
            pkt[RTNT_HDR_INDEX + h] = hdr[h];
            h = h + 1;
        }
        let mut j: usize = 0;
        while j < MAX_TASK_DATA_BYTES
            invariant
                j <= MAX_TASK_DATA_BYTES,
                pkt@.len() == RID_PACKET_SIZE,
                forall|t: int| 0 <= t < RTNT_HDR_LENGTH ==> pkt@[RTNT_HDR_INDEX + t] == hdr_spec[t],
                forall|t: int| 0 <= t < j ==> pkt@[RTNT_DATA_INDEX + t] == buffer@[t],
                forall|t: int|
                    0 <= t < RID_PACKET_SIZE && !(RTNT_HDR_INDEX <= t < RTNT_HDR_INDEX
                        + RTNT_HDR_LENGTH) && !(RTNT_DATA_INDEX <= t < RTNT_DATA_INDEX
                        + j) ==> pkt@[t] == self.buffer@[index as int]@.update(
                        RID_TASK_INDEX as int,
                        (index + 1) as u8,
                    ).update(RID_MODE_INDEX as int, packet_type_u8(mode))[t],
            decreases MAX_TASK_DATA_BYTES - j,
        {
            pkt[RTNT_DATA_INDEX + j] = buffer[j];
            j = j + 1;
        }
        self.buffer[index] = pkt;
        proof {
            assert(self@.buffer =~~= cache_new_output_with_header_spec(
                old(self)@,
                index as int,
                packet_type_u8(mode),
                header@,
                buffer@,
            ).buffer);
            assert(self@ =~~= cache_new_output_with_header_spec(
                old(self)@,
                index as int,
                packet_type_u8(mode),
                header@,
                buffer@,
            ));
        }
    }

    /// The payloads the referenced slots currently hold: for each input wire,
    /// the payload of the referenced node's cached packet, or a zero payload
    /// where the reference is out of range.
    pub fn task_input_buffer(&self, inputs: &[u8; MAX_TASK_INPUTS]) -> (r: Vec<TaskBuffer>)
        ensures
            r@.len() == MAX_TASK_INPUTS,
            forall|i: int|
                0 <= i < MAX_TASK_INPUTS ==> r@[i]@ == (if inputs@[i] < MAX_TASKS {
                    self@.buffer[inputs@[i] as int].subrange(
                        RTNT_DATA_INDEX as int,
                        RTNT_DATA_INDEX as int + MAX_TASK_DATA_BYTES as int,
                    )
                } else {
                    zero_chunk()
                }),
    {
        let mut r: Vec<TaskBuffer> = Vec::new();
        let mut i: usize = 0;
        while i < MAX_TASK_INPUTS
            invariant
                i <= MAX_TASK_INPUTS,
                r@.len() == i,
                forall|t: int|
                    0 <= t < i ==> r@[t]@ == (if inputs@[t] < MAX_TASKS {
                        self@.buffer[inputs@[t] as int].subrange(
                            RTNT_DATA_INDEX as int,
                            RTNT_DATA_INDEX as int + MAX_TASK_DATA_BYTES as int,
                        )
                    } else {
                        zero_chunk()
                    }),
            decreases MAX_TASK_INPUTS - i,
        {
            let mut payload = [0u8; MAX_TASK_DATA_BYTES];
            if inputs[i] < MAX_TASKS as u8 {
                let src = inputs[i] as usize;
                let mut j: usize = 0;
                while j < MAX_TASK_DATA_BYTES
                    invariant
                        j <= MAX_TASK_DATA_BYTES,
                        src < MAX_TASKS,
                        forall|t: int|
                            0 <= t < j ==> payload@[t] == self@.buffer[src as int][RTNT_DATA_INDEX
                                + t],
                    decreases MAX_TASK_DATA_BYTES - j,
                {
                    payload[j] = self.buffer[src][RTNT_DATA_INDEX + j];
                    j = j + 1;
                }
                proof {
                    assert(payload@ =~= self@.buffer[src as int].subrange(
                        RTNT_DATA_INDEX as int,
                        RTNT_DATA_INDEX as int + MAX_TASK_DATA_BYTES as int,
                    ));
                }
            } else {
                proof {
                    assert(payload@ =~= zero_chunk());
                }
            }
            r.push(payload);
            i = i + 1;
        }
        r
    }
}

/// Whether the slot `t` steps along the cursor's circular path has a zero
/// selector byte.
pub open spec fn scan_slot_clear(c: CacheView, n: int, t: int) -> bool {
    c.buffer[(c.context + t) % n][RID_TASK_INDEX as int] == 0
}

/// A scan that has already inspected `ctr` slots returns nothing exactly
/// when each of the remaining `n - ctr` slots on the cursor's circular path
/// has a zero selector byte.
proof fn lemma_publish_scan_none(c: CacheView, n: int, ctr: int)
    requires
        0 <= c.context < n,
        0 <= ctr <= n,
    ensures
        (publish_scan(c, n, ctr).1 is None) <==> (forall|t: int|
            0 <= t < n - ctr ==> #[trigger] scan_slot_clear(c, n, t)),
    decreases n - ctr,
{
    if ctr >= n {
    } else {
        let idx = c.context;
        vstd::arithmetic::div_mod::lemma_mod_bound(idx + 1, n);
        assert((idx + 0) % n == idx) by {
            vstd::arithmetic::div_mod::lemma_small_mod(idx as nat, n as nat);
        }
        if c.buffer[idx][RID_TASK_INDEX as int] > 0 {
            assert(!scan_slot_clear(c, n, 0));
        } else {
            let c2 = CacheView { context: (idx + 1) % n, ..c };
            lemma_publish_scan_none(c2, n, ctr + 1);
            if publish_scan(c, n, ctr).1 is None {
                assert forall|t: int| 0 <= t < n - ctr implies #[trigger] scan_slot_clear(
                    c,
                    n,
                    t,
                ) by {
                    if t == 0 {
                        assert(c.buffer[(idx + 0) % n][RID_TASK_INDEX as int] == 0);
                    } else {
                        assert(scan_slot_clear(c2, n, t - 1));
                        vstd::arithmetic::div_mod::lemma_small_mod((t - 1) as nat, n as nat);
                        vstd::arithmetic::div_mod::lemma_add_mod_noop(idx + 1, t - 1, n);
                        assert((c2.context + (t - 1)) % n == (idx + t) % n);
                    }
                }
            }
            if forall|t: int| 0 <= t < n - ctr ==> #[trigger] scan_slot_clear(c, n, t) {
                assert forall|t: int| 0 <= t < n - ctr - 1 implies #[trigger] scan_slot_clear(
                    c2,
                    n,
                    t,
                ) by {
                    vstd::arithmetic::div_mod::lemma_small_mod(t as nat, n as nat);
                    vstd::arithmetic::div_mod::lemma_add_mod_noop(idx + 1, t, n);
                    assert((c2.context + t) % n == (c.context + (t + 1)) % n);
                    assert(scan_slot_clear(c, n, t + 1));
                }
            }
        }
    }
}

/// Publication returns nothing exactly when every slot in the window has a
/// zero selector byte: with the cursor inside the window, a scan of `n`
/// slots visits each of the slots `0 .. n` exactly once.
pub proof fn lemma_publish_none_iff_all_clear(c: CacheView, n: int)
    requires
        0 <= c.context < n,
    ensures
        (publish_spec(c, n).1 is None) <==> (forall|k: int|
            0 <= k < n ==> c.buffer[k][RID_TASK_INDEX as int] == 0),
{
    lemma_publish_scan_none(c, n, 0);
    if publish_spec(c, n).1 is None {
        assert forall|k: int| 0 <= k < n implies c.buffer[k][RID_TASK_INDEX as int] == 0 by {
            let t = if k >= c.context {
                k - c.context
            } else {
                k + n - c.context
            };
            assert(0 <= t < n);
            if k >= c.context {
                vstd::arithmetic::div_mod::lemma_small_mod(k as nat, n as nat);
                assert((c.context + t) % n == k);
            } else {
                vstd::arithmetic::div_mod::lemma_mod_add_multiples_vanish(k, n);
                vstd::arithmetic::div_mod::lemma_small_mod(k as nat, n as nat);
                assert((c.context + t) % n == (n + k) % n);
                assert((c.context + t) % n == k);
            }
            assert(scan_slot_clear(c, n, t));
        }
    }
    if forall|k: int| 0 <= k < n ==> c.buffer[k][RID_TASK_INDEX as int] == 0 {
        assert forall|t: int| 0 <= t < n implies #[trigger] scan_slot_clear(c, n, t) by {
            vstd::arithmetic::div_mod::lemma_mod_bound(c.context + t, n);
            assert(c.buffer[(c.context + t) % n][RID_TASK_INDEX as int] == 0);
        }
    }
}

} // verus!
