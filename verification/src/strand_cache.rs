//! The strand cache file: a binary little-endian layout
//! (magic, version, scale, three counts, then vertices, strands and
//! indices) and a JSON layout whose strands are lists of vertex indices.
//!
//! Floating-point payload (the scale and the vertex coordinates) is carried
//! as raw IEEE-754 bit patterns; nothing here computes with it.
use vstd::prelude::*;

verus! {

/// The only cache version this reader accepts.
pub const BINARY_VERSION: u32 = 1;

/// Bytes before the payload: magic (8), version (4), scale (4) and the
/// vertex, strand and index counts (8 each).
pub const BINARY_HEADER_LEN: usize = 40;

/// The eight magic bytes `b"SSRSTRD\0"` that open a binary cache.
pub open spec fn binary_magic() -> Seq<u8> {
    seq![83u8, 83u8, 82u8, 83u8, 84u8, 82u8, 68u8, 0u8]
}

/// One strand of a cache: `count` consecutive entries of the index buffer
/// starting at `offset`.
#[derive(Clone, Copy, Debug, PartialEq, Eq)]
pub struct StrandCacheStrand {
    pub count: u32,
    pub offset: u32,
}

/// A decoded strand cache. `scale_bits` and `vertex_bits` hold the `f32`
/// scale and vertex coordinates as their bit patterns.
#[derive(Clone, Debug)]
pub struct StrandCacheFile {
    pub version: u32,
    pub source: Option<String>,
    pub scale_bits: u32,
    pub vertex_bits: Vec<[u32; 3]>,
    pub strands: Vec<StrandCacheStrand>,
    pub indices: Vec<u32>,
}

/// The JSON form of a cache, with every strand given as its own list of
/// vertex indices.
#[derive(Clone, Debug)]
pub struct JsonStrandCacheFile {
    pub version: u32,
    pub source: Option<String>,
    pub scale_bits: u32,
    pub vertex_bits: Vec<[u32; 3]>,
    pub strands: Vec<Vec<u32>>,
}

/// Why a cache was refused.
#[derive(Clone, Copy, Debug, PartialEq, Eq)]
pub enum StrandCacheError {
    /// The read position would pass `usize::MAX`.
    OffsetOverflow,
    /// The bytes end before the layout does.
    UnexpectedEnd,
    /// The first eight bytes are not the binary magic.
    InvalidMagic,
    /// The version is not [`BINARY_VERSION`].
    UnsupportedVersion { version: u32 },
    /// A count in the header does not fit in `usize`.
    CountTooLarge { count: u64 },
    /// Bytes are left after the payload.
    TrailingBytes { remaining: usize },
    /// A strand has fewer than two vertices.
    TooFewVertices { strand: usize },
    /// `offset + count` of a strand overflows `u32`.
    RangeOverflow { strand: usize },
    /// A strand's index range ends past the index buffer.
    RangeOutOfBounds { strand: usize, offset: u32, end: u32, index_count: usize },
    /// A strand refers to a vertex the cache does not have.
    VertexOutOfBounds { strand: usize, vertex: u32, vertex_count: usize },
}

/// The little-endian `u32` stored at `b[i..i + 4]`.
pub open spec fn le_u32(b: Seq<u8>, i: int) -> int {
    b[i] as int + b[i + 1] as int * 0x100 + b[i + 2] as int * 0x1_0000 + b[i + 3] as int
        * 0x100_0000
}

/// The little-endian `u64` stored at `b[i..i + 8]`.
pub open spec fn le_u64(b: Seq<u8>, i: int) -> int {
    le_u32(b, i) + le_u32(b, i + 4) * 0x1_0000_0000
}

pub open spec fn header_vertex_count(b: Seq<u8>) -> int {
    le_u64(b, 16)
}

pub open spec fn header_strand_count(b: Seq<u8>) -> int {
    le_u64(b, 24)
}

pub open spec fn header_index_count(b: Seq<u8>) -> int {
    le_u64(b, 32)
}

/// Offset of the strand records: after the header and the vertices.
pub open spec fn strands_start(b: Seq<u8>) -> int {
    40 + 12 * header_vertex_count(b)
}

/// Offset of the index records: after the strand records.
pub open spec fn indices_start(b: Seq<u8>) -> int {
    strands_start(b) + 8 * header_strand_count(b)
}

/// Payload bytes that the header's counts call for.
pub open spec fn payload_len(b: Seq<u8>) -> int {
    12 * header_vertex_count(b) + 8 * header_strand_count(b) + 4 * header_index_count(b)
}

/// The error, if any, that reading the fixed header of `b` meets first.
pub open spec fn header_error(b: Seq<u8>) -> Option<StrandCacheError> {
    if b.len() < 8 {
        Some(StrandCacheError::UnexpectedEnd)
    } else if b.subrange(0, 8) != binary_magic() {
        Some(StrandCacheError::InvalidMagic)
    } else if b.len() < 12 {
        Some(StrandCacheError::UnexpectedEnd)
    } else if le_u32(b, 8) != BINARY_VERSION {
        Some(StrandCacheError::UnsupportedVersion { version: le_u32(b, 8) as u32 })
    } else if b.len() < 24 {
        Some(StrandCacheError::UnexpectedEnd)
    } else if header_vertex_count(b) > usize::MAX {
        Some(StrandCacheError::CountTooLarge { count: header_vertex_count(b) as u64 })
    } else if b.len() < 32 {
        Some(StrandCacheError::UnexpectedEnd)
    } else if header_strand_count(b) > usize::MAX {
        Some(StrandCacheError::CountTooLarge { count: header_strand_count(b) as u64 })
    } else if b.len() < 40 {
        Some(StrandCacheError::UnexpectedEnd)
    } else if header_index_count(b) > usize::MAX {
        Some(StrandCacheError::CountTooLarge { count: header_index_count(b) as u64 })
    } else {
        None
    }
}

/// The error, if any, of reading `b` as a binary cache: the header's, or a
/// payload shorter or longer than its counts call for.
pub open spec fn binary_cache_error(b: Seq<u8>) -> Option<StrandCacheError> {
    match header_error(b) {
        Some(e) => Some(e),
        None => {
            let available = b.len() - 40;
            if available < payload_len(b) {
                Some(StrandCacheError::UnexpectedEnd)
            } else if available > payload_len(b) {
                Some(
                    StrandCacheError::TrailingBytes {
                        remaining: (available - payload_len(b)) as usize,
                    },
                )
            } else {
                None
            }
        },
    }
}

/// `file` holds exactly what the binary cache `b` encodes.
pub open spec fn decodes_binary_cache(b: Seq<u8>, file: StrandCacheFile) -> bool {
    &&& file.version == BINARY_VERSION
    &&& file.source is None
    &&& file.scale_bits as int == le_u32(b, 12)
    &&& file.vertex_bits@.len() == header_vertex_count(b)
    &&& forall|k: int, c: int|
        #![trigger file.vertex_bits@[k]@[c]]
        0 <= k < header_vertex_count(b) && 0 <= c < 3 ==> file.vertex_bits@[k]@[c] as int
            == le_u32(b, 40 + 12 * k + 4 * c)
    &&& file.strands@.len() == header_strand_count(b)
    &&& forall|k: int|
        #![trigger file.strands@[k]]
        0 <= k < header_strand_count(b) ==> file.strands@[k].count as int == le_u32(
            b,
            strands_start(b) + 8 * k,
        ) && file.strands@[k].offset as int == le_u32(b, strands_start(b) + 8 * k + 4)
    &&& file.indices@.len() == header_index_count(b)
    &&& forall|k: int|
        #![trigger file.indices@[k]]
        0 <= k < header_index_count(b) ==> file.indices@[k] as int == le_u32(
            b,
            indices_start(b) + 4 * k,
        )
}

/// Where a reader over `len` bytes stands after trying to read `n` bytes
/// at `offset`: past them when they are all there, else where it was.
pub open spec fn read_step(len: int, offset: int, n: int) -> int {
    if offset + n <= len {
        offset + n
    } else {
        offset
    }
}

/// The read position of a reader over `len` bytes, started at 0, after
/// trying reads of `sizes` bytes in turn.
pub open spec fn offset_after(len: int, sizes: Seq<int>) -> int
    decreases sizes.len(),
{
    if sizes.len() == 0 {
        0
    } else {
        read_step(len, offset_after(len, sizes.drop_last()), sizes.last())
    }
}

/// The bytes taken by those reads among `sizes` that succeed.
pub open spec fn bytes_read(len: int, sizes: Seq<int>) -> int
    decreases sizes.len(),
{
    if sizes.len() == 0 {
        0
    } else {
        let before = bytes_read(len, sizes.drop_last());
        let at = offset_after(len, sizes.drop_last());
        before + if at + sizes.last() <= len {
            sizes.last()
        } else {
            0
        }
    }
}

/// Whatever reads a cache reader tries, in whatever order and whether they
/// succeed or fail, its position is the bytes of the reads that succeeded
/// and never passes the end, so the bytes it reports remaining are exactly
/// those after its position.
pub proof fn lemma_reader_stays_in_bounds(len: nat, sizes: Seq<int>)
    requires
        forall|i: int| 0 <= i < sizes.len() ==> #[trigger] sizes[i] >= 0,
    ensures
        offset_after(len as int, sizes) == bytes_read(len as int, sizes),
        0 <= offset_after(len as int, sizes) <= len,
    decreases sizes.len(),
{
    if sizes.len() > 0 {
        let rest = sizes.drop_last();
        assert forall|i: int| 0 <= i < rest.len() implies #[trigger] rest[i] >= 0 by {
            assert(rest[i] == sizes[i]);
        }
        assert(sizes.last() == sizes[sizes.len() - 1]);
        lemma_reader_stays_in_bounds(len, rest);
    }
}

/// A cursor over a byte slice: the bytes and the read position.
pub struct ByteReader<'a> {
    pub bytes: &'a [u8],
    pub offset: usize,
}

impl<'a> ByteReader<'a> {
    /// A reader at the start of `bytes`.
    pub fn new(bytes: &'a [u8]) -> (reader: Self)
        ensures
            reader.bytes@ == bytes@,
            reader.bytes@.len() <= usize::MAX,
            reader.offset == 0,
    {
        let _len = bytes.len();
        ByteReader { bytes, offset: 0 }
    }

    /// Takes the next `n` bytes.
    pub fn read_exact(&mut self, n: usize) -> (r: Result<&'a [u8], StrandCacheError>)
        ensures
            final(self).bytes@ == old(self).bytes@,
            final(self).offset == read_step(old(self).bytes@.len() as int, old(self).offset as int, n as int),
            match r {
                Ok(chunk) => {
                    &&& old(self).offset + n <= old(self).bytes@.len()
                    &&& final(self).offset == old(self).offset + n
                    &&& chunk@ == old(self).bytes@.subrange(
                        old(self).offset as int,
                        old(self).offset + n,
                    )
                },
                Err(e) => {
                    &&& final(self).offset == old(self).offset
                    &&& if old(self).offset + n > usize::MAX {
                        e == StrandCacheError::OffsetOverflow
                    } else {
                        old(self).offset + n > old(self).bytes@.len() && e
                            == StrandCacheError::UnexpectedEnd
                    }
                },
            },
    {
        let len = self.bytes.len();
        let end = match self.offset.checked_add(n) {
            Some(end) => end,
            None => {
                return Err(StrandCacheError::OffsetOverflow);
            },
        };
        if end > len {
            return Err(StrandCacheError::UnexpectedEnd);
        }
        let chunk = vstd::slice::slice_subrange(self.bytes, self.offset, end);
        self.offset = end;
        Ok(chunk)
    }

    /// Reads a little-endian `u32`.
    pub fn read_u32(&mut self) -> (r: Result<u32, StrandCacheError>)
        ensures
            final(self).bytes@ == old(self).bytes@,
            final(self).offset == read_step(old(self).bytes@.len() as int, old(self).offset as int, 4 as int),
            match r {
                Ok(v) => {
                    &&& old(self).offset + 4 <= old(self).bytes@.len()
                    &&& final(self).offset == old(self).offset + 4
                    &&& v as int == le_u32(old(self).bytes@, old(self).offset as int)
                },
                Err(e) => {
                    &&& final(self).offset == old(self).offset
                    &&& if old(self).offset + 4 > usize::MAX {
                        e == StrandCacheError::OffsetOverflow
                    } else {
                        old(self).offset + 4 > old(self).bytes@.len() && e
                            == StrandCacheError::UnexpectedEnd
                    }
                },
            },
    {
        match self.read_exact(4) {
            Ok(c) => {
                let v: u32 = (c[0] as u32) + (c[1] as u32) * 0x100 + (c[2] as u32) * 0x1_0000 + (
                c[3] as u32) * 0x100_0000;
                Ok(v)
            },
            Err(e) => Err(e),
        }
    }

    /// Reads a little-endian `u64`.
    pub fn read_u64(&mut self) -> (r: Result<u64, StrandCacheError>)
        ensures
            final(self).bytes@ == old(self).bytes@,
            final(self).offset == read_step(old(self).bytes@.len() as int, old(self).offset as int, 8 as int),
            match r {
                Ok(v) => {
                    &&& old(self).offset + 8 <= old(self).bytes@.len()
                    &&& final(self).offset == old(self).offset + 8
                    &&& v as int == le_u64(old(self).bytes@, old(self).offset as int)
                },
                Err(e) => {
                    &&& final(self).offset == old(self).offset
                    &&& if old(self).offset + 8 > usize::MAX {
                        e == StrandCacheError::OffsetOverflow
                    } else {
                        old(self).offset + 8 > old(self).bytes@.len() && e
                            == StrandCacheError::UnexpectedEnd
                    }
                },
            },
    {
        match self.read_exact(8) {
            Ok(c) => {
                let lo: u64 = (c[0] as u64) + (c[1] as u64) * 0x100 + (c[2] as u64) * 0x1_0000 + (
                c[3] as u64) * 0x100_0000;
                let hi: u64 = (c[4] as u64) + (c[5] as u64) * 0x100 + (c[6] as u64) * 0x1_0000 + (
                c[7] as u64) * 0x100_0000;
                Ok(lo + hi * 0x1_0000_0000)
            },
            Err(e) => Err(e),
        }
    }

    /// Bytes left after the read position.
    pub fn remaining(&self) -> (n: usize)
        ensures
            n as int == if self.offset <= self.bytes@.len() {
                self.bytes@.len() - self.offset
            } else {
                0
            },
    {
        self.bytes.len().saturating_sub(self.offset)
    }
}

/// Whether the eight bytes are the binary magic.
fn is_binary_magic(m: &[u8]) -> (r: bool)
    requires
        m@.len() == 8,
    ensures
        r == (m@ == binary_magic()),
{
    let r = m[0] == 83 && m[1] == 83 && m[2] == 82 && m[3] == 83 && m[4] == 84 && m[5] == 82
        && m[6] == 68 && m[7] == 0;
    if r {
        assert(m@ =~= binary_magic());
    } else {
        assert(m@ != binary_magic()) by {
            if m@ == binary_magic() {
                assert(m@[0] == 83 && m@[1] == 83 && m@[2] == 82 && m@[3] == 83);
                assert(m@[4] == 84 && m@[5] == 82 && m@[6] == 68 && m@[7] == 0);
            }
        }
    }
    r
}

/// Whether `bytes` opens with the binary magic, so that it is read as a
/// binary cache rather than as JSON.
pub fn is_binary_cache(bytes: &[u8]) -> (r: bool)
    ensures
        r == (bytes@.len() >= 8 && bytes@.subrange(0, 8) == binary_magic()),
{
    if bytes.len() < 8 {
        return false;
    }
    let head = vstd::slice::slice_subrange(bytes, 0, 8);
    is_binary_magic(head)
}

fn count_to_usize(count: u64) -> (r: Result<usize, StrandCacheError>)
    ensures
        match r {
            Ok(n) => n as int == count as int,
            Err(e) => count > usize::MAX && e == StrandCacheError::CountTooLarge { count },
        },
{
    if count <= usize::MAX as u64 {
        Ok(count as usize)
    } else {
        Err(StrandCacheError::CountTooLarge { count })
    }
}


/// Reads `count` vertex records of three little-endian words each.
fn read_vertex_records(reader: &mut ByteReader, count: usize, Ghost(b): Ghost<Seq<u8>>) -> (v: Vec<
    [u32; 3],
>)
    requires
        old(reader).bytes@ == b,
        b.len() <= usize::MAX,
        old(reader).offset + 12 * count <= b.len(),
    ensures
        final(reader).bytes@ == b,
        final(reader).offset == old(reader).offset + 12 * count,
        v@.len() == count,
        forall|j: int, c: int|
            #![trigger v@[j]@[c]]
            0 <= j < count && 0 <= c < 3 ==> v@[j]@[c] as int == le_u32(
                b,
                old(reader).offset + 12 * j + 4 * c,
            ),
{
    let ghost start = reader.offset as int;
    let mut v: Vec<[u32; 3]> = Vec::new();
    let mut k: usize = 0;
    while k < count
        invariant
            reader.bytes@ == b,
            b.len() <= usize::MAX,
            start + 12 * count <= b.len(),
            0 <= k <= count,
            reader.offset == start + 12 * k,
            v@.len() == k,
            forall|j: int, c: int|
                #![trigger v@[j]@[c]]
                0 <= j < k && 0 <= c < 3 ==> v@[j]@[c] as int == le_u32(b, start + 12 * j + 4 * c),
        decreases count - k,
    {
        let x = reader.read_u32();
        let y = reader.read_u32();
        let z = reader.read_u32();
        if let (Ok(x), Ok(y), Ok(z)) = (x, y, z) {
            let rec = [x, y, z];
            assert(rec@[0] == x && rec@[1] == y && rec@[2] == z);
            v.push(rec);
        } else {
            assert(false);
        }
        k = k + 1;
    }
    v
}

/// Reads `count` strand records (count, offset).
fn read_strand_records(reader: &mut ByteReader, count: usize, Ghost(b): Ghost<Seq<u8>>) -> (v: Vec<
    StrandCacheStrand,
>)
    requires
        old(reader).bytes@ == b,
        b.len() <= usize::MAX,
        old(reader).offset + 8 * count <= b.len(),
    ensures
        final(reader).bytes@ == b,
        final(reader).offset == old(reader).offset + 8 * count,
        v@.len() == count,
        forall|j: int|
            #![trigger v@[j]]
            0 <= j < count ==> v@[j].count as int == le_u32(b, old(reader).offset + 8 * j)
                && v@[j].offset as int == le_u32(b, old(reader).offset + 8 * j + 4),
{
    let ghost start = reader.offset as int;
    let mut v: Vec<StrandCacheStrand> = Vec::new();
    let mut k: usize = 0;
    while k < count
        invariant
            reader.bytes@ == b,
            b.len() <= usize::MAX,
            start + 8 * count <= b.len(),
            0 <= k <= count,
            reader.offset == start + 8 * k,
            v@.len() == k,
            forall|j: int|
                #![trigger v@[j]]
                0 <= j < k ==> v@[j].count as int == le_u32(b, start + 8 * j) && v@[j].offset as int
                    == le_u32(b, start + 8 * j + 4),
        decreases count - k,
    {
        let c = reader.read_u32();
        let o = reader.read_u32();
        if let (Ok(c), Ok(o)) = (c, o) {
            v.push(StrandCacheStrand { count: c, offset: o });
        } else {
            assert(false);
        }
        k = k + 1;
    }
    v
}

/// Reads `count` little-endian index words.
fn read_index_records(reader: &mut ByteReader, count: usize, Ghost(b): Ghost<Seq<u8>>) -> (v: Vec<
    u32,
>)
    requires
        old(reader).bytes@ == b,
        b.len() <= usize::MAX,
        old(reader).offset + 4 * count <= b.len(),
    ensures
        final(reader).bytes@ == b,
        final(reader).offset == old(reader).offset + 4 * count,
        v@.len() == count,
        forall|j: int|
            #![trigger v@[j]]
            0 <= j < count ==> v@[j] as int == le_u32(b, old(reader).offset + 4 * j),
{
    let ghost start = reader.offset as int;
    let mut v: Vec<u32> = Vec::new();
    let mut k: usize = 0;
    while k < count
        invariant
            reader.bytes@ == b,
            b.len() <= usize::MAX,
            start + 4 * count <= b.len(),
            0 <= k <= count,
            reader.offset == start + 4 * k,
            v@.len() == k,
            forall|j: int| #![trigger v@[j]] 0 <= j < k ==> v@[j] as int == le_u32(b, start + 4 * j),
        decreases count - k,
    {
        if let Ok(index) = reader.read_u32() {
            v.push(index);
        } else {
            assert(false);
        }
        k = k + 1;
    }
    v
}

/// Reads a binary cache: the header, then exactly as many vertex, strand
/// and index records as its counts announce.
pub fn parse_binary_cache(bytes: &[u8]) -> (r: Result<StrandCacheFile, StrandCacheError>)
    ensures
        r is Ok <==> binary_cache_error(bytes@) is None,
        match r {
            Ok(file) => decodes_binary_cache(bytes@, file),
            Err(e) => binary_cache_error(bytes@) == Some(e),
        },
{
    let ghost b = bytes@;
    let mut reader = ByteReader::new(bytes);
    let magic = match reader.read_exact(8) {
        Ok(m) => m,
        Err(e) => {
            return Err(e);
        },
    };
    if !is_binary_magic(magic) {
        return Err(StrandCacheError::InvalidMagic);
    }
    let version = match reader.read_u32() {
        Ok(v) => v,
        Err(e) => {
            return Err(e);
        },
    };
    if version != BINARY_VERSION {
        return Err(StrandCacheError::UnsupportedVersion { version });
    }
    let scale_bits = match reader.read_u32() {
        Ok(v) => v,
        Err(e) => {
            return Err(e);
        },
    };
    let vertex_count = match reader.read_u64() {
        Ok(v) => v,
        Err(e) => {
            return Err(e);
        },
    };
    let vertex_count = match count_to_usize(vertex_count) {
        Ok(n) => n,
        Err(e) => {
            return Err(e);
        },
    };
    let strand_count = match reader.read_u64() {
        Ok(v) => v,
        Err(e) => {
            return Err(e);
        },
    };
    let strand_count = match count_to_usize(strand_count) {
        Ok(n) => n,
        Err(e) => {
            return Err(e);
        },
    };
    let index_count = match reader.read_u64() {
        Ok(v) => v,
        Err(e) => {
            return Err(e);
        },
    };
    let index_count = match count_to_usize(index_count) {
        Ok(n) => n,
        Err(e) => {
            return Err(e);
        },
    };
    assert(reader.offset == 40);
    assert(header_error(b) is None);
    // The payload is read record by record; a payload shorter than the
    // counts call for ends in the same error as the record that would run
    // past the end, so it is refused before any record is read.
    let available = reader.remaining();
    let needed: u128 = 12 * (vertex_count as u128) + 8 * (strand_count as u128) + 4 * (
    index_count as u128);
    if (available as u128) < needed {
        return Err(StrandCacheError::UnexpectedEnd);
    }
    let vertex_bits = read_vertex_records(&mut reader, vertex_count, Ghost(b));
    let strands = read_strand_records(&mut reader, strand_count, Ghost(b));
    let indices = read_index_records(&mut reader, index_count, Ghost(b));
    let remaining = reader.remaining();
    if remaining != 0 {
        return Err(StrandCacheError::TrailingBytes { remaining });
    }
    Ok(
        StrandCacheFile {
            version,
            source: None,
            scale_bits,
            vertex_bits,
            strands,
            indices,
        },
    )
}


/// The first entry of `indices[lo..hi]` that names no vertex of a cache
/// with `vertex_count` vertices.
pub open spec fn first_missing_vertex(indices: Seq<u32>, lo: int, hi: int, vertex_count: int) -> Option<
    u32,
>
    decreases hi - lo,
{
    if lo >= hi {
        None
    } else if indices[lo] >= vertex_count {
        Some(indices[lo])
    } else {
        first_missing_vertex(indices, lo + 1, hi, vertex_count)
    }
}

/// What is wrong with strand number `i`, if anything: too few vertices, a
/// range that overflows or passes the index buffer, or an index that names
/// no vertex (the first such index of its range).
pub open spec fn strand_fault(
    strand: StrandCacheStrand,
    i: int,
    indices: Seq<u32>,
    vertex_count: int,
) -> Option<StrandCacheError> {
    let end = strand.offset + strand.count;
    if strand.count < 2 {
        Some(StrandCacheError::TooFewVertices { strand: i as usize })
    } else if end > u32::MAX {
        Some(StrandCacheError::RangeOverflow { strand: i as usize })
    } else if end > indices.len() {
        Some(
            StrandCacheError::RangeOutOfBounds {
                strand: i as usize,
                offset: strand.offset,
                end: end as u32,
                index_count: indices.len() as usize,
            },
        )
    } else {
        match first_missing_vertex(indices, strand.offset as int, end, vertex_count) {
            Some(v) => Some(
                StrandCacheError::VertexOutOfBounds {
                    strand: i as usize,
                    vertex: v,
                    vertex_count: vertex_count as usize,
                },
            ),
            None => None,
        }
    }
}

/// The fault of the first faulty strand from number `from` on.
pub open spec fn first_strand_fault(
    strands: Seq<StrandCacheStrand>,
    from: int,
    indices: Seq<u32>,
    vertex_count: int,
) -> Option<StrandCacheError>
    decreases strands.len() - from,
{
    if from < 0 || from >= strands.len() {
        None
    } else {
        match strand_fault(strands[from], from, indices, vertex_count) {
            Some(e) => Some(e),
            None => first_strand_fault(strands, from + 1, indices, vertex_count),
        }
    }
}

/// Why `cache` is refused, if it is: a version other than
/// [`BINARY_VERSION`], else the fault of its first faulty strand.
pub open spec fn cache_fault(cache: StrandCacheFile) -> Option<StrandCacheError> {
    if cache.version != BINARY_VERSION {
        Some(StrandCacheError::UnsupportedVersion { version: cache.version })
    } else {
        first_strand_fault(cache.strands@, 0, cache.indices@, cache.vertex_bits@.len() as int)
    }
}

/// Strand `s` spans at least two entries of `indices`, all of them inside
/// the buffer (and below index `u32::MAX`) and naming one of `vertex_count`
/// vertices.
pub open spec fn strand_in_bounds(s: StrandCacheStrand, indices: Seq<u32>, vertex_count: int) -> bool {
    &&& s.count >= 2
    &&& s.offset + s.count <= u32::MAX
    &&& s.offset + s.count <= indices.len()
    &&& forall|j: int|
        #![trigger indices[j]]
        s.offset <= j < s.offset + s.count ==> indices[j] < vertex_count
}

/// A well-formed cache: the supported version, and every strand in bounds.
pub open spec fn cache_is_valid(cache: StrandCacheFile) -> bool {
    &&& cache.version == BINARY_VERSION
    &&& forall|i: int|
        #![trigger cache.strands@[i]]
        0 <= i < cache.strands@.len() ==> strand_in_bounds(
            cache.strands@[i],
            cache.indices@,
            cache.vertex_bits@.len() as int,
        )
}

proof fn lemma_first_missing_vertex_none(indices: Seq<u32>, lo: int, hi: int, vertex_count: int)
    requires
        0 <= lo,
        hi <= indices.len(),
    ensures
        first_missing_vertex(indices, lo, hi, vertex_count) is None <==> (forall|j: int|
            #![trigger indices[j]]
            lo <= j < hi ==> indices[j] < vertex_count),
    decreases hi - lo,
{
    if lo < hi {
        lemma_first_missing_vertex_none(indices, lo + 1, hi, vertex_count);
    }
}

proof fn lemma_strand_fault_none(s: StrandCacheStrand, i: int, indices: Seq<u32>, vertex_count: int)
    ensures
        strand_fault(s, i, indices, vertex_count) is None <==> strand_in_bounds(
            s,
            indices,
            vertex_count,
        ),
{
    if s.count >= 2 && s.offset + s.count <= indices.len() {
        lemma_first_missing_vertex_none(
            indices,
            s.offset as int,
            s.offset + s.count,
            vertex_count,
        );
    }
}

proof fn lemma_first_strand_fault_none(
    strands: Seq<StrandCacheStrand>,
    from: int,
    indices: Seq<u32>,
    vertex_count: int,
)
    requires
        0 <= from <= strands.len(),
    ensures
        first_strand_fault(strands, from, indices, vertex_count) is None <==> (forall|i: int|
            #![trigger strands[i]]
            from <= i < strands.len() ==> strand_in_bounds(strands[i], indices, vertex_count)),
    decreases strands.len() - from,
{
    if from < strands.len() {
        lemma_strand_fault_none(strands[from], from, indices, vertex_count);
        lemma_first_strand_fault_none(strands, from + 1, indices, vertex_count);
    }
}

/// A cache is refused for no reason exactly when it is well-formed.
pub proof fn lemma_cache_fault_none_iff_valid(cache: StrandCacheFile)
    ensures
        cache_fault(cache) is None <==> cache_is_valid(cache),
{
    lemma_first_strand_fault_none(
        cache.strands@,
        0,
        cache.indices@,
        cache.vertex_bits@.len() as int,
    );
}

/// Checks the version and that every strand has at least two vertices, an
/// index range inside the index buffer, and indices that name vertices of
/// the cache. The first fault found, strand by strand, is the error.
pub fn validate_cache(cache: &StrandCacheFile) -> (r: Result<(), StrandCacheError>)
    ensures
        r is Ok <==> cache_is_valid(*cache),
        match r {
            Ok(()) => cache_fault(*cache) is None,
            Err(e) => cache_fault(*cache) == Some(e),
        },
{
    proof {
        lemma_cache_fault_none_iff_valid(*cache);
    }
    if cache.version != BINARY_VERSION {
        return Err(StrandCacheError::UnsupportedVersion { version: cache.version });
    }
    let ghost indices = cache.indices@;
    let ghost strands = cache.strands@;
    let vertex_count = cache.vertex_bits.len();
    let index_count = cache.indices.len();
    let mut i: usize = 0;
    while i < cache.strands.len()
        invariant
            indices == cache.indices@,
            strands == cache.strands@,
            vertex_count == cache.vertex_bits@.len(),
            index_count == indices.len(),
            cache.version == BINARY_VERSION,
            0 <= i <= strands.len(),
            cache_fault(*cache) == first_strand_fault(strands, i as int, indices, vertex_count as int),
        decreases strands.len() - i,
    {
        let strand = cache.strands[i];
        assert(first_strand_fault(strands, i as int, indices, vertex_count as int) == match strand_fault(
            strand,
            i as int,
            indices,
            vertex_count as int,
        ) {
            Some(e) => Some(e),
            None => first_strand_fault(strands, i + 1, indices, vertex_count as int),
        });
        if strand.count < 2 {
            return Err(StrandCacheError::TooFewVertices { strand: i });
        }
        let end = match strand.offset.checked_add(strand.count) {
            Some(end) => end,
            None => {
                return Err(StrandCacheError::RangeOverflow { strand: i });
            },
        };
        if end as usize > index_count {
            return Err(
                StrandCacheError::RangeOutOfBounds {
                    strand: i,
                    offset: strand.offset,
                    end,
                    index_count,
                },
            );
        }
        let mut j: u32 = strand.offset;
        while j < end
            invariant
                indices == cache.indices@,
                vertex_count == cache.vertex_bits@.len(),
                strand.offset <= j <= end,
                end as int <= indices.len(),
                first_missing_vertex(indices, strand.offset as int, end as int, vertex_count as int)
                    == first_missing_vertex(indices, j as int, end as int, vertex_count as int),
                strands == cache.strands@,
                0 <= i < strands.len(),
                strand == strands[i as int],
                strand.count >= 2,
                end == strand.offset + strand.count,
                cache.version == BINARY_VERSION,
                cache_fault(*cache) == match strand_fault(
                    strand,
                    i as int,
                    indices,
                    vertex_count as int,
                ) {
                    Some(e) => Some(e),
                    None => first_strand_fault(strands, i + 1, indices, vertex_count as int),
                },
            decreases end - j,
        {
            let index = cache.indices[j as usize];
            if index as usize >= vertex_count {
                assert(first_missing_vertex(indices, j as int, end as int, vertex_count as int)
                    == Some(index));
                return Err(
                    StrandCacheError::VertexOutOfBounds { strand: i, vertex: index, vertex_count },
                );
            }
            j = j + 1;
        }
        i = i + 1;
    }
    Ok(())
}

/// The strands of a JSON cache as sequences of indices.
pub open spec fn json_strand_lists(strands: Seq<Vec<u32>>) -> Seq<Seq<u32>> {
    strands.map_values(|v: Vec<u32>| v@)
}

/// `cache` is `json` with its strands' index lists laid end to end in the
/// index buffer, each strand recording its length and where it starts there
/// (both as `u32`, truncating); everything else carried over.
pub open spec fn laid_out_from_json(json: JsonStrandCacheFile, cache: StrandCacheFile) -> bool {
    &&& cache.version == json.version
    &&& cache.source == json.source
    &&& cache.scale_bits == json.scale_bits
    &&& cache.vertex_bits@ == json.vertex_bits@
    &&& cache.indices@ == json_strand_lists(json.strands@).flatten()
    &&& cache.strands@.len() == json.strands@.len()
    &&& forall|i: int|
        #![trigger cache.strands@[i]]
        0 <= i < json.strands@.len() ==> cache.strands@[i].count == json.strands@[i]@.len() as u32
            && cache.strands@[i].offset == json_strand_lists(json.strands@).take(i).flatten().len() as u32
}

proof fn lemma_flatten_slot(lists: Seq<Seq<u32>>, i: int)
    requires
        0 <= i < lists.len(),
    ensures
        lists.take(i).flatten().len() + lists[i].len() <= lists.flatten().len(),
        forall|k: int|
            0 <= k < lists[i].len() ==> lists.flatten()[lists.take(i).flatten().len() + k] == #[trigger] lists[i][k],
{
    let a = lists.take(i + 1);
    let b = lists.skip(i + 1);
    assert(lists =~= a + b);
    vstd::seq_lib::lemma_flatten_concat(a, b);
    assert(a =~= lists.take(i).push(lists[i]));
    lists.take(i).lemma_flatten_push(lists[i]);
}

/// A JSON cache of the supported version whose strands each list at least
/// two vertices that the cache has, with no more than `u32::MAX` indices in
/// all, passes validation once laid out.
pub proof fn lemma_json_cache_validates(json: JsonStrandCacheFile, cache: StrandCacheFile)
    requires
        json.version == BINARY_VERSION,
        forall|i: int| 0 <= i < json.strands@.len() ==> #[trigger] json.strands@[i]@.len() >= 2,
        forall|i: int, k: int|
            0 <= i < json.strands@.len() && 0 <= k < json.strands@[i]@.len() ==> #[trigger] json.strands@[i]@[k]
                < json.vertex_bits@.len(),
        json_strand_lists(json.strands@).flatten().len() <= u32::MAX,
        laid_out_from_json(json, cache),
    ensures
        cache_is_valid(cache),
{
    let lists = json_strand_lists(json.strands@);
    assert forall|i: int| 0 <= i < cache.strands@.len() implies strand_in_bounds(
        #[trigger] cache.strands@[i],
        cache.indices@,
        cache.vertex_bits@.len() as int,
    ) by {
        lemma_flatten_slot(lists, i);
        assert(lists[i] == json.strands@[i]@);
        let off = lists.take(i).flatten().len();
        assert forall|j: int|
            #![trigger cache.indices@[j]]
            off <= j < off + lists[i].len() implies cache.indices@[j] < cache.vertex_bits@.len() by {
            assert(lists[i][j - off] == json.strands@[i]@[j - off]);
            assert(lists.flatten()[off + (j - off)] == lists[i][j - off]);
        }
    }
}

impl StrandCacheFile {
    /// Builds a cache from its JSON form: the strands' index lists are laid
    /// end to end in the index buffer, and each strand records its length
    /// and where it starts there (both as `u32`, truncating).
    pub fn from_json(json: JsonStrandCacheFile) -> (cache: StrandCacheFile)
        ensures
            laid_out_from_json(json, cache),
    {
        let ghost lists = json_strand_lists(json.strands@);
        let mut strands: Vec<StrandCacheStrand> = Vec::new();
        let mut indices: Vec<u32> = Vec::new();
        let mut i: usize = 0;
        while i < json.strands.len()
            invariant
                lists == json_strand_lists(json.strands@),
                0 <= i <= json.strands@.len(),
                indices@ == lists.take(i as int).flatten(),
                strands@.len() == i,
                forall|k: int|
                    #![trigger strands@[k]]
                    0 <= k < i ==> strands@[k].count == json.strands@[k]@.len() as u32
                        && strands@[k].offset == lists.take(k).flatten().len() as u32,
            decreases json.strands@.len() - i,
        {
            let strand = &json.strands[i];
            let count = strand.len() as u32;
            let offset = indices.len() as u32;
            proof {
                assert(lists.take(i + 1) =~= lists.take(i as int).push(lists[i as int]));
                lists.take(i as int).lemma_flatten_push(lists[i as int]);
            }
            indices.extend_from_slice(strand.as_slice());
            strands.push(StrandCacheStrand { count, offset });
            i = i + 1;
        }
        assert(lists.take(json.strands@.len() as int) =~= lists);
        StrandCacheFile {
            version: json.version,
            source: json.source,
            scale_bits: json.scale_bits,
            vertex_bits: json.vertex_bits,
            strands,
            indices,
        }
    }
}

/// Loads strand caches: `.strands` files in the binary layout and
/// `.strands.json`/`.json` files in the JSON layout.
#[derive(Clone, Copy, Debug, Default)]
pub struct StrandCacheAssetLoader;

impl StrandCacheAssetLoader {
    /// The file extensions this loader claims.
    pub fn extensions(&self) -> (exts: Vec<&'static str>)
        ensures
            exts@.len() == 3,
            exts@[0]@ == "strands"@,
            exts@[1]@ == "strands.json"@,
            exts@[2]@ == "json"@,
    {
        let mut exts: Vec<&'static str> = Vec::new();
        exts.push("strands");
        exts.push("strands.json");
        exts.push("json");
        exts
    }
}

} // verus!
