//! The reader of resource containers.
//!
//! A container is an IFF form of type `IFRS`: the identifier `FORM`, the
//! number of bytes that follow it, the form type, and then chunks. Each chunk
//! is an identifier, the length of its payload and the payload, padded to an
//! even length. One of the chunks is the resource index, which lists the
//! resources of the container by usage, number and the offset of their chunk.
//!
//! Parsing reads the headers of the chunks that the index points at, so that a
//! reader only ever holds an index whose entries resolve; it reads no payload.

use super::blorb_chunk_types::{
    kind_of_tag, tag_to_kind, usage_chunk_type, usage_kind, usage_of_tag, BlorbChunkType,
    ChunkKind, Usage, TAG_FORM, TAG_IFRS, TAG_RIDX,
};
use super::{
    as_signed, as_unsigned, be_u32_at, clamp_usize, clamped_sum, has_tag_at, read_be_u32_at,
    tag_at, to_signed, to_unsigned, viewed, FileReadError,
};
use super::ulx_reader::{parse_ulx, UlxReader, UlxView};
use vstd::prelude::*;
use vstd::slice::slice_subrange;

verus! {

/// The eight bytes in front of a chunk's payload.
#[derive(Debug, Clone, Copy, PartialEq, Eq, Hash, Structural)]
pub struct ChunkHeader {
    /// The identifier of the chunk.
    pub tag: u32,
    /// The number of bytes in the payload.
    pub length: u32,
}

/// A chunk of a buffer. The payload is borrowed from the buffer.
#[derive(Debug, Clone, Copy, PartialEq, Eq)]
pub struct Chunk<'a> {
    pub header: ChunkHeader,
    /// Where the header starts in the buffer.
    pub offset: usize,
    /// The payload.
    pub data: &'a [u8],
    /// What the payload holds, going by the identifier.
    pub kind: ChunkKind,
}

/// A chunk as a mathematical value.
pub struct ChunkView {
    pub header: ChunkHeader,
    pub offset: nat,
    pub payload: Seq<u8>,
    pub kind: ChunkKind,
}

impl<'a> View for Chunk<'a> {
    type V = ChunkView;

    open spec fn view(&self) -> ChunkView {
        ChunkView {
            header: self.header,
            offset: self.offset as nat,
            payload: self.data@,
            kind: self.kind,
        }
    }
}

/// One entry of the resource index.
#[derive(Debug, Clone, Copy, PartialEq, Eq, Hash, Structural)]
pub struct ResourceIndexEntry {
    pub usage: Usage,
    /// The number of the resource within its usage.
    pub id: i32,
    /// Where the chunk of the resource starts in the container.
    pub offset: u32,
}

/// Whether `byte` is a printable ASCII character, the space included.
pub open spec fn printable(byte: u8) -> bool {
    0x20 <= byte <= 0x7E
}

/// Whether the four bytes `bytes[at..at + 4]` are printable.
pub open spec fn printable_tag_at(bytes: Seq<u8>, at: int) -> bool {
    printable(bytes[at]) && printable(bytes[at + 1]) && printable(bytes[at + 2]) && printable(
        bytes[at + 3],
    )
}

/// The chunk that starts at `offset` in `bytes`.
///
/// The header has to lie within `bytes`, then the payload, and the identifier
/// has to be printable; the first of these that fails gives the error. A
/// length error carries the length of `bytes` and the length that the chunk
/// would need.
pub open spec fn chunk_at(bytes: Seq<u8>, offset: int) -> Result<ChunkView, FileReadError> {
    if offset < 0 || offset + 8 > bytes.len() {
        Err(FileReadError::InvalidLength(clamp_usize(bytes.len() as int), clamp_usize(offset + 8)))
    } else {
        let tag = be_u32_at(bytes, offset);
        let length = be_u32_at(bytes, offset + 4);
        if offset + 8 + length > bytes.len() {
            Err(
                FileReadError::InvalidLength(
                    clamp_usize(bytes.len() as int),
                    clamp_usize(offset + 8 + length),
                ),
            )
        } else if !printable_tag_at(bytes, offset) {
            Err(FileReadError::InvalidConversion)
        } else {
            Ok(
                ChunkView {
                    header: ChunkHeader { tag, length },
                    offset: offset as nat,
                    payload: bytes.subrange(offset + 8, offset + 8 + length),
                    kind: kind_of_tag(tag),
                },
            )
        }
    }
}

/// Where the chunk after `chunk` starts: behind the payload, and behind one
/// byte of padding where the payload has an odd length.
pub open spec fn next_chunk_offset(chunk: ChunkView) -> int {
    chunk.offset + 8 + chunk.header.length + chunk.header.length % 2
}

/// Reads the chunk that starts at `offset` in `data`.
pub fn read_chunk<'a>(data: &'a [u8], offset: usize) -> (r: Result<Chunk<'a>, FileReadError>)
    ensures
        viewed(r) == chunk_at(data@, offset as int),
        offset + 8 <= data@.len() && offset + 8 + be_u32_at(data@, offset + 4) > data@.len()
            ==> r matches Err(FileReadError::InvalidLength(_, _)),
{
    let len = data.len();
    if offset > len || len - offset < 8 {
        return Err(FileReadError::InvalidLength(len, clamped_sum(offset, 8, 0)));
    }
    let tag = read_be_u32_at(data, offset);
    let length = read_be_u32_at(data, offset + 4);
    if length as usize > len - offset - 8 {
        return Err(FileReadError::InvalidLength(len, clamped_sum(offset, 8, length as usize)));
    }
    if !(is_printable(data[offset]) && is_printable(data[offset + 1]) && is_printable(
        data[offset + 2],
    ) && is_printable(data[offset + 3])) {
        return Err(FileReadError::InvalidConversion);
    }
    let start = offset + 8;
    let payload = slice_subrange(data, start, start + length as usize);
    Ok(Chunk { header: ChunkHeader { tag, length }, offset, data: payload, kind: tag_to_kind(tag) })
}

/// Whether `byte` is a printable ASCII character, the space included.
pub fn is_printable(byte: u8) -> (r: bool)
    ensures
        r == printable(byte),
{
    0x20 <= byte && byte <= 0x7E
}

impl<'a> Chunk<'a> {
    /// Where the chunk after this one starts, or `usize::MAX` where that is
    /// beyond what a `usize` holds.
    pub fn next_offset(&self) -> (next: usize)
        ensures
            next == clamp_usize(next_chunk_offset(self@)),
    {
        let padding: usize = if self.header.length % 2 == 1 {
            1
        } else {
            0
        };
        clamped_sum(self.offset, 8, self.header.length as usize).saturating_add(padding)
    }
}

/// The resource index chunk of a container: the first chunk with the index
/// identifier among the chunks that follow one another from `from` on.
///
/// A chunk on the way that cannot be read gives its error; where the chunks
/// end without an index, the index identifier was expected and not found.
pub open spec fn locate_index(bytes: Seq<u8>, from: int) -> Result<ChunkView, FileReadError>
    decreases bytes.len() + 1 - from,
{
    if from < 0 || from >= bytes.len() {
        Err(FileReadError::UnexpectedStartingIdentifier(BlorbChunkType::ResourceIndex))
    } else {
        match chunk_at(bytes, from) {
            Err(e) => Err(e),
            Ok(chunk) => if chunk.header.tag == TAG_RIDX {
                Ok(chunk)
            } else {
                locate_index(bytes, next_chunk_offset(chunk))
            },
        }
    }
}

/// Whether the chunk that `entry` points at can be read and holds what the
/// usage of the entry says.
pub open spec fn entry_resolves(bytes: Seq<u8>, entry: ResourceIndexEntry) -> bool {
    chunk_at(bytes, entry.offset as int) matches Ok(chunk) && chunk.kind == usage_kind(entry.usage)
}

/// The index entry in the twelve bytes `bytes[at..at + 12]`: the identifier
/// of a usage, a signed number and an offset.
///
/// An identifier that names no usage is reported with its value. The chunk
/// at the offset has to resolve: if it cannot be read its error is given, and
/// if it holds something else the usage is reported as what was expected.
#[verifier::opaque]
pub open spec fn entry_at(bytes: Seq<u8>, at: int) -> Result<ResourceIndexEntry, FileReadError> {
    let tag = be_u32_at(bytes, at);
    match usage_of_tag(tag) {
        None => Err(FileReadError::UnknownIdentifier(tag as usize)),
        Some(usage) => {
            let entry = ResourceIndexEntry {
                usage,
                id: as_signed(be_u32_at(bytes, at + 4)),
                offset: be_u32_at(bytes, at + 8),
            };
            match chunk_at(bytes, entry.offset as int) {
                Err(e) => Err(e),
                Ok(chunk) => if chunk.kind == usage_kind(usage) {
                    Ok(entry)
                } else {
                    Err(FileReadError::UnexpectedStartingIdentifier(usage_chunk_type(usage)))
                },
            }
        },
    }
}

/// The `count` index entries that start at `base`, in file order, or the
/// error of the first of them that cannot be read.
pub open spec fn entries_at(bytes: Seq<u8>, base: int, count: nat) -> Result<
    Seq<ResourceIndexEntry>,
    FileReadError,
>
    decreases count,
{
    if count == 0 {
        Ok(Seq::empty())
    } else {
        match entries_at(bytes, base, (count - 1) as nat) {
            Err(e) => Err(e),
            Ok(before) => match entry_at(bytes, base + 12 * (count - 1)) {
                Err(e) => Err(e),
                Ok(entry) => Ok(before.push(entry)),
            },
        }
    }
}

/// Whether two entries name the same resource: the same number in the same
/// category of usage.
pub open spec fn same_resource(a: ResourceIndexEntry, b: ResourceIndexEntry) -> bool {
    usage_kind(a.usage) == usage_kind(b.usage) && a.id == b.id
}

/// Whether no two of `entries` name the same resource.
pub open spec fn distinct_resources(entries: Seq<ResourceIndexEntry>) -> bool {
    forall|i: int, j: int|
        0 <= i < j < entries.len() ==> !same_resource(#[trigger] entries[i], #[trigger] entries[j])
}

/// The entries that the resource index chunk `index` of `bytes` lists.
///
/// The payload of the chunk is a count and then twelve bytes for each entry,
/// and nothing else; a length error carries the length of the payload and the
/// length that the count asks for. An index that names a resource twice is
/// not handled.
pub open spec fn index_entries(bytes: Seq<u8>, index: ChunkView) -> Result<
    Seq<ResourceIndexEntry>,
    FileReadError,
> {
    let length = index.header.length;
    if length < 4 {
        Err(FileReadError::InvalidLength(length as usize, 4))
    } else {
        let count = be_u32_at(bytes, index.offset as int + 8);
        if 4 + 12 * count != length {
            Err(FileReadError::InvalidLength(length as usize, clamp_usize(4 + 12 * count)))
        } else {
            match entries_at(bytes, index.offset as int + 12, count as nat) {
                Err(e) => Err(e),
                Ok(entries) => if distinct_resources(entries) {
                    Ok(entries)
                } else {
                    Err(FileReadError::UnsupportedOperation)
                },
            }
        }
    }
}

/// A container as a mathematical value.
pub struct BlorbView {
    /// The bytes of the container.
    pub bytes: Seq<u8>,
    /// The number of bytes that the form header says follow it.
    pub declared_len: u32,
    /// The resource index, in file order.
    pub entries: Seq<ResourceIndexEntry>,
}

/// The container that `bytes` hold.
///
/// In this order: the buffer starts with the form identifier; the length in
/// the form header is the number of bytes behind it; the form type is that of
/// a resource container; the chunks hold a resource index; the index can be
/// read. The first that fails gives the error; a length error of the form
/// carries the length of `bytes` and the length that the header asks for.
pub open spec fn parse_blorb(bytes: Seq<u8>) -> Result<BlorbView, FileReadError> {
    if !has_tag_at(bytes, 0, TAG_FORM) {
        Err(FileReadError::UnexpectedStartingIdentifier(BlorbChunkType::Form))
    } else if bytes.len() < 8 {
        Err(FileReadError::InvalidLength(clamp_usize(bytes.len() as int), 8))
    } else if 8 + be_u32_at(bytes, 4) != bytes.len() {
        Err(
            FileReadError::InvalidLength(
                clamp_usize(bytes.len() as int),
                clamp_usize(8 + be_u32_at(bytes, 4)),
            ),
        )
    } else if !has_tag_at(bytes, 8, TAG_IFRS) {
        Err(FileReadError::UnexpectedStartingIdentifier(BlorbChunkType::Ifrs))
    } else {
        match locate_index(bytes, 12) {
            Err(e) => Err(e),
            Ok(index) => match index_entries(bytes, index) {
                Err(e) => Err(e),
                Ok(entries) => Ok(BlorbView { bytes, declared_len: be_u32_at(bytes, 4), entries }),
            },
        }
    }
}

/// Finds the resource index chunk among the chunks of a container.
fn find_index_chunk<'a>(data: &'a [u8]) -> (r: Result<Chunk<'a>, FileReadError>)
    ensures
        viewed(r) == locate_index(data@, 12),
{
    let len = data.len();
    let mut at: usize = 12;
    while at < len
        invariant
            len == data@.len(),
            locate_index(data@, at as int) == locate_index(data@, 12),
        decreases len + 1 - at,
    {
        let chunk = match read_chunk(data, at) {
            Ok(chunk) => chunk,
            Err(e) => {
                return Err(e);
            },
        };
        if chunk.header.tag == TAG_RIDX {
            return Ok(chunk);
        }
        let next = chunk.next_offset();
        assert(locate_index(data@, next as int) == locate_index(
            data@,
            next_chunk_offset(chunk@),
        ));
        at = next;
    }
    Err(FileReadError::UnexpectedStartingIdentifier(BlorbChunkType::ResourceIndex))
}

/// Reads the index entry at `data[at..at + 12]`.
fn read_entry(data: &[u8], at: usize) -> (r: Result<ResourceIndexEntry, FileReadError>)
    requires
        at + 12 <= data.len(),
    ensures
        r == entry_at(data@, at as int),
{
    reveal(entry_at);
    let tag = read_be_u32_at(data, at);
    let usage = match Usage::from_tag(tag) {
        Some(usage) => usage,
        None => {
            return Err(FileReadError::UnknownIdentifier(tag as usize));
        },
    };
    let id = to_signed(read_be_u32_at(data, at + 4));
    let offset = read_be_u32_at(data, at + 8);
    match read_chunk(data, offset as usize) {
        Err(e) => Err(e),
        Ok(chunk) => if chunk.kind == usage.kind() {
            Ok(ResourceIndexEntry { usage, id, offset })
        } else {
            Err(FileReadError::UnexpectedStartingIdentifier(usage.chunk_type()))
        },
    }
}

/// Once an entry cannot be read, reading more entries gives the same error.
proof fn lemma_entries_error_stays(bytes: Seq<u8>, base: int, failed: nat, count: nat)
    requires
        failed <= count,
        entries_at(bytes, base, failed) is Err,
    ensures
        entries_at(bytes, base, count) == entries_at(bytes, base, failed),
    decreases count,
{
    if failed < count {
        lemma_entries_error_stays(bytes, base, failed, (count - 1) as nat);
    }
}

/// Whether no two of `entries` name the same resource.
fn all_distinct(entries: &Vec<ResourceIndexEntry>) -> (r: bool)
    ensures
        r == distinct_resources(entries@),
{
    let n = entries.len();
    let mut j: usize = 0;
    while j < n
        invariant
            j <= n,
            n == entries.len(),
            forall|a: int, b: int|
                0 <= a < b < j ==> !same_resource(#[trigger] entries[a], #[trigger] entries[b]),
        decreases n - j,
    {
        let mut i: usize = 0;
        while i < j
            invariant
                i <= j,
                j < n,
                n == entries.len(),
                forall|a: int|
                    0 <= a < i ==> !same_resource(#[trigger] entries[a], entries[j as int]),
            decreases j - i,
        {
            if entries[i].usage.kind() == entries[j].usage.kind() && entries[i].id
                == entries[j].id {
                return false;
            }
            i += 1;
        }
        j += 1;
    }
    true
}

/// The length of the payload of a resource index with `count` entries, or
/// `usize::MAX` where that is more than a `usize` holds.
fn index_length(count: u32) -> (length: usize)
    ensures
        length == clamp_usize(4 + 12 * count),
{
    match (count as usize).checked_mul(12) {
        Some(entries) => entries.saturating_add(4),
        None => usize::MAX,
    }
}

/// Reads the `count` index entries that start at `base` in `data`.
fn read_entries(data: &[u8], base: usize, count: u32) -> (r: Result<
    Vec<ResourceIndexEntry>,
    FileReadError,
>)
    requires
        base + 12 * count <= data.len(),
    ensures
        viewed(r) == entries_at(data@, base as int, count as nat),
{
    let mut entries: Vec<ResourceIndexEntry> = Vec::new();
    let mut i: u32 = 0;
    while i < count
        invariant
            i <= count,
            base + 12 * count <= data.len(),
            entries_at(data@, base as int, i as nat) == Ok::<_, FileReadError>(entries@),
        decreases count - i,
    {
        match read_entry(data, base + 12 * (i as usize)) {
            Ok(entry) => {
                entries.push(entry);
            },
            Err(e) => {
                proof {
                    lemma_entries_error_stays(data@, base as int, (i + 1) as nat, count as nat);
                }
                return Err(e);
            },
        }
        i += 1;
    }
    Ok(entries)
}

/// Reads the entries that the resource index chunk `index` of `data` lists.
fn read_index(data: &[u8], index: &Chunk<'_>) -> (r: Result<Vec<ResourceIndexEntry>, FileReadError>)
    requires
        chunk_at(data@, index.offset as int) == Ok::<_, FileReadError>(index@),
    ensures
        viewed(r) == index_entries(data@, index@),
{
    let len = data.len();
    let length = index.header.length;
    if length < 4 {
        return Err(FileReadError::InvalidLength(length as usize, 4));
    }
    let count = read_be_u32_at(data, index.offset + 8);
    if (length - 4) % 12 != 0 || (length - 4) / 12 != count {
        return Err(FileReadError::InvalidLength(length as usize, index_length(count)));
    }
    let entries = match read_entries(data, index.offset + 12, count) {
        Ok(entries) => entries,
        Err(e) => {
            return Err(e);
        },
    };
    if all_distinct(&entries) {
        Ok(entries)
    } else {
        Err(FileReadError::UnsupportedOperation)
    }
}

/// The entries with the usage `usage`.
pub open spec fn of_usage(usage: Usage) -> spec_fn(ResourceIndexEntry) -> bool {
    |entry: ResourceIndexEntry| entry.usage == usage
}

/// The entries with the usage `usage` and the number `id`.
pub open spec fn named(usage: Usage, id: i32) -> spec_fn(ResourceIndexEntry) -> bool {
    |entry: ResourceIndexEntry| entry.usage == usage && entry.id == id
}

/// The numbers of the entries of `entries` with the usage `usage`, in the
/// order of the entries.
pub open spec fn ids_for(entries: Seq<ResourceIndexEntry>, usage: Usage) -> Seq<i32> {
    entries.filter(of_usage(usage)).map_values(|entry: ResourceIndexEntry| entry.id)
}

/// The chunk of the resource `id` of usage `usage`: the chunk that the first
/// entry with that usage and number points at. A resource that the index
/// does not list is reported with its number, read as unsigned 32 bits.
pub open spec fn resource_at(container: BlorbView, usage: Usage, id: i32) -> Result<
    ChunkView,
    FileReadError,
> {
    let found = container.entries.filter(named(usage, id));
    if found.len() > 0 {
        chunk_at(container.bytes, found[0].offset as int)
    } else {
        Err(FileReadError::UnknownIdentifier(as_unsigned(id) as usize))
    }
}

/// The image in the chunk of the executable resource that is the
/// `index`-th, from 0 on, in the order of the index. Where there are not
/// that many, `index` is reported.
pub open spec fn executable_at(container: BlorbView, index: int) -> Result<UlxView, FileReadError> {
    let executables = container.entries.filter(of_usage(Usage::Executable));
    if 0 <= index < executables.len() {
        match chunk_at(container.bytes, executables[index].offset as int) {
            Ok(chunk) => parse_ulx(chunk.payload),
            Err(e) => Err(e),
        }
    } else {
        Err(FileReadError::UnknownIdentifier(clamp_usize(index)))
    }
}

/// A parsed resource container. It borrows the buffer it was parsed from.
#[derive(Debug)]
pub struct BlorbReader<'a> {
    data: &'a [u8],
    declared_len: u32,
    index: Vec<ResourceIndexEntry>,
}

impl<'a> View for BlorbReader<'a> {
    type V = BlorbView;

    closed spec fn view(&self) -> BlorbView {
        BlorbView { bytes: self.data@, declared_len: self.declared_len, entries: self.index@ }
    }
}

impl<'a> BlorbReader<'a> {
    /// A reader is what parsing its bytes gives.
    #[verifier::type_invariant]
    pub open spec fn wf(&self) -> bool {
        parse_blorb(self@.bytes) == Ok::<_, FileReadError>(self@)
    }

    /// Parses `data` as a resource container.
    pub fn parse(data: &'a [u8]) -> (r: Result<BlorbReader<'a>, FileReadError>)
        ensures
            viewed(r) == parse_blorb(data@),
    {
        let len = data.len();
        if !tag_at(data, 0, TAG_FORM) {
            return Err(FileReadError::UnexpectedStartingIdentifier(BlorbChunkType::Form));
        }
        if len < 8 {
            return Err(FileReadError::InvalidLength(len, 8));
        }
        let declared_len = read_be_u32_at(data, 4);
        if len - 8 != declared_len as usize {
            return Err(FileReadError::InvalidLength(len, clamped_sum(8, declared_len as usize, 0)));
        }
        if !tag_at(data, 8, TAG_IFRS) {
            return Err(FileReadError::UnexpectedStartingIdentifier(BlorbChunkType::Ifrs));
        }
        let index_chunk = match find_index_chunk(data) {
            Ok(chunk) => chunk,
            Err(e) => {
                return Err(e);
            },
        };
        proof {
            lemma_located_index(data@, 12);
        }
        let index = match read_index(data, &index_chunk) {
            Ok(index) => index,
            Err(e) => {
                return Err(e);
            },
        };
        Ok(BlorbReader { data, declared_len, index })
    }

    /// The buffer that the container was parsed from.
    pub fn data(&self) -> (data: &'a [u8])
        ensures
            data@ == self@.bytes,
    {
        self.data
    }

    /// The number of bytes that the form header says follow it.
    pub fn declared_len(&self) -> (declared_len: u32)
        ensures
            declared_len == self@.declared_len,
    {
        self.declared_len
    }

    /// The resource index, in file order.
    pub fn index(&self) -> (index: &Vec<ResourceIndexEntry>)
        ensures
            index@ == self@.entries,
    {
        &self.index
    }

    /// Reads the chunk that starts at `offset` in the container.
    pub fn get_chunk_at(&self, offset: usize) -> (r: Result<Chunk<'a>, FileReadError>)
        ensures
            viewed(r) == chunk_at(self@.bytes, offset as int),
            offset + 8 <= self@.bytes.len() && offset + 8 + be_u32_at(self@.bytes, offset + 4)
                > self@.bytes.len() ==> r matches Err(FileReadError::InvalidLength(_, _)),
    {
        read_chunk(self.data, offset)
    }

    /// The numbers of the resources of usage `usage`, in the order of the
    /// index.
    pub fn get_ids(&self, usage: Usage) -> (ids: Vec<i32>)
        ensures
            ids@ == ids_for(self@.entries, usage),
    {
        let mut ids: Vec<i32> = Vec::new();
        let mut i: usize = 0;
        while i < self.index.len()
            invariant
                i <= self.index.len(),
                ids@ == ids_for(self.index@.take(i as int), usage),
            decreases self.index.len() - i,
        {
            proof {
                lemma_ids_step(self.index@, usage, i as int);
            }
            if self.index[i].usage == usage {
                ids.push(self.index[i].id);
            }
            i += 1;
        }
        assert(self.index@.take(i as int) =~= self.index@);
        ids
    }

    /// The numbers of the pictures, in the order of the index.
    pub fn image_ids(&self) -> (ids: Vec<i32>)
        ensures
            ids@ == ids_for(self@.entries, Usage::Picture),
    {
        self.get_ids(Usage::Picture)
    }

    /// Reads the chunk of the resource `id` of usage `usage`.
    ///
    /// This succeeds exactly for the resources that the index lists, and the
    /// chunk then holds what the usage says.
    pub fn get_resource(&self, usage: Usage, id: i32) -> (r: Result<Chunk<'a>, FileReadError>)
        ensures
            viewed(r) == resource_at(self@, usage, id),
            r is Ok <==> exists|i: int|
                0 <= i < self@.entries.len() && #[trigger] self@.entries[i].usage == usage
                    && self@.entries[i].id == id,
            r matches Ok(chunk) ==> chunk.kind == usage_kind(usage),
    {
        let mut i: usize = 0;
        while i < self.index.len()
            invariant
                i <= self.index.len(),
                self.index@.take(i as int).filter(named(usage, id)).len() == 0,
                forall|k: int| 0 <= k < i ==> !named(usage, id)(#[trigger] self.index@[k]),
            decreases self.index.len() - i,
        {
            proof {
                lemma_filter_step(self.index@, named(usage, id), i as int);
            }
            if self.index[i].usage == usage && self.index[i].id == id {
                proof {
                    lemma_filter_prefix(self.index@, named(usage, id), i as int + 1);
                    use_type_invariant(self);
                    lemma_parsed_container(self.data@);
                }
                return read_chunk(self.data, self.index[i].offset as usize);
            }
            i += 1;
        }
        assert(self.index@.take(i as int) =~= self.index@);
        Err(FileReadError::UnknownIdentifier(to_unsigned(id) as usize))
    }

    /// Parses the image in the chunk of the `index`-th executable resource,
    /// counted from 0 in the order of the index.
    pub fn get_exec(&self, index: usize) -> (r: Result<UlxReader<'a>, FileReadError>)
        ensures
            viewed(r) == executable_at(self@, index as int),
    {
        let mut seen: usize = 0;
        let mut i: usize = 0;
        while i < self.index.len()
            invariant
                i <= self.index.len(),
                seen <= index,
                seen == self.index@.take(i as int).filter(of_usage(Usage::Executable)).len(),
            decreases self.index.len() - i,
        {
            proof {
                lemma_filter_step(self.index@, of_usage(Usage::Executable), i as int);
            }
            if self.index[i].usage == Usage::Executable {
                if seen == index {
                    proof {
                        lemma_filter_prefix(
                            self.index@,
                            of_usage(Usage::Executable),
                            i as int + 1,
                        );
                    }
                    return match read_chunk(self.data, self.index[i].offset as usize) {
                        Ok(chunk) => UlxReader::parse(chunk.data),
                        Err(e) => Err(e),
                    };
                }
                seen += 1;
            }
            i += 1;
        }
        assert(self.index@.take(i as int) =~= self.index@);
        Err(FileReadError::UnknownIdentifier(index))
    }

    /// Reads the chunk of the picture `id`.
    pub fn get_image(&self, id: i32) -> (r: Result<Chunk<'a>, FileReadError>)
        ensures
            viewed(r) == resource_at(self@, Usage::Picture, id),
            r matches Ok(chunk) ==> chunk.kind == ChunkKind::Picture,
    {
        self.get_resource(Usage::Picture, id)
    }
}

/// The chunk that `locate_index` finds is a chunk of the buffer.
proof fn lemma_located_index(bytes: Seq<u8>, from: int)
    ensures
        locate_index(bytes, from) matches Ok(index) ==> chunk_at(bytes, index.offset as int) == Ok::<
            _,
            FileReadError,
        >(index),
    decreases bytes.len() + 1 - from,
{
    if 0 <= from < bytes.len() {
        if let Ok(chunk) = chunk_at(bytes, from) {
            if chunk.header.tag != TAG_RIDX {
                lemma_located_index(bytes, next_chunk_offset(chunk));
            }
        }
    }
}

/// Filtering one more element of a sequence keeps it or not.
proof fn lemma_filter_step<A>(s: Seq<A>, pred: spec_fn(A) -> bool, i: int)
    requires
        0 <= i < s.len(),
    ensures
        s.take(i + 1).filter(pred) == if pred(s[i]) {
            s.take(i).filter(pred).push(s[i])
        } else {
            s.take(i).filter(pred)
        },
{
    assert(s.take(i + 1) =~= s.take(i).push(s[i]));
    s.take(i).lemma_filter_push(s[i], pred);
}

/// What a filter keeps of the start of a sequence is the start of what it
/// keeps of the sequence.
proof fn lemma_filter_prefix<A>(s: Seq<A>, pred: spec_fn(A) -> bool, i: int)
    requires
        0 <= i <= s.len(),
    ensures
        s.filter(pred) == s.take(i).filter(pred) + s.skip(i).filter(pred),
{
    assert(s =~= s.take(i) + s.skip(i));
    Seq::filter_distributes_over_add(s.take(i), s.skip(i), pred);
}

/// Taking one more entry adds its number to the numbers of its usage.
proof fn lemma_ids_step(entries: Seq<ResourceIndexEntry>, usage: Usage, i: int)
    requires
        0 <= i < entries.len(),
    ensures
        ids_for(entries.take(i + 1), usage) == if entries[i].usage == usage {
            ids_for(entries.take(i), usage).push(entries[i].id)
        } else {
            ids_for(entries.take(i), usage)
        },
{
    lemma_filter_step(entries, of_usage(usage), i);
}

/// The entries that `entries_at` gives are, one by one, what `entry_at` gives
/// at their places; and an error that it gives is that of the first entry
/// that cannot be read.
pub proof fn lemma_entries_at_each(bytes: Seq<u8>, base: int, count: nat)
    ensures
        entries_at(bytes, base, count) matches Ok(entries) ==> entries.len() == count && forall|
            i: int,
        |
            0 <= i < count ==> entry_at(bytes, base + 12 * i) == Ok::<_, FileReadError>(
                #[trigger] entries[i],
            ),
        entries_at(bytes, base, count) matches Err(e) ==> exists|first: int|
            0 <= first < count && #[trigger] entry_at(bytes, base + 12 * first) == Err::<
                ResourceIndexEntry,
                _,
            >(e) && entries_at(bytes, base, first as nat) is Ok,
    decreases count,
{
    if count > 0 {
        lemma_entries_at_each(bytes, base, (count - 1) as nat);
    }
}

/// What holds of every container that parses: its bytes are the buffer, the
/// form header states the number of bytes behind it, every entry of the index
/// points at a chunk that lies within the buffer and holds what the usage of
/// the entry says, and no resource is listed twice.
pub proof fn lemma_parsed_container(bytes: Seq<u8>)
    ensures
        parse_blorb(bytes) matches Ok(container) ==> {
            &&& container.bytes == bytes
            &&& 8 + container.declared_len == bytes.len()
            &&& distinct_resources(container.entries)
            &&& forall|i: int|
                0 <= i < container.entries.len() ==> entry_resolves(
                    bytes,
                    #[trigger] container.entries[i],
                )
        },
{
    if let Ok(container) = parse_blorb(bytes) {
        let index = locate_index(bytes, 12).unwrap();
        let count = be_u32_at(bytes, index.offset as int + 8);
        lemma_entries_at_each(bytes, index.offset as int + 12, count as nat);
        reveal(entry_at);
    }
}

/// The numbers of a usage are the numbers that the index records for it,
/// each as often as the index does: none is added and none is dropped.
pub proof fn lemma_ids_multiplicity(entries: Seq<ResourceIndexEntry>, usage: Usage, id: i32)
    ensures
        ids_for(entries, usage).to_multiset().count(id) == entries.filter(named(usage, id)).len(),
    decreases entries.len(),
{
    broadcast use vstd::seq_lib::to_multiset_build;

    if entries.len() == 0 {
        reveal(Seq::filter);
        ids_for(entries, usage).to_multiset_ensures();
    } else {
        let last = entries.len() - 1;
        let before = entries.take(last);
        assert(entries.take(last + 1) =~= entries);
        lemma_ids_multiplicity(before, usage, id);
        lemma_ids_step(entries, usage, last);
        lemma_filter_step(entries, named(usage, id), last);
    }
}

/// Every number that is listed for a usage is that of a resource that
/// resolves to a chunk.
pub proof fn lemma_listed_ids_resolve(container: BlorbView, usage: Usage, k: int)
    requires
        parse_blorb(container.bytes) == Ok::<_, FileReadError>(container),
        0 <= k < ids_for(container.entries, usage).len(),
    ensures
        resource_at(container, usage, ids_for(container.entries, usage)[k]) is Ok,
{
    let entries = container.entries;
    let listed = entries.filter(of_usage(usage))[k];
    let found = entries.filter(named(usage, listed.id));
    entries.lemma_filter_pred(of_usage(usage), k);
    assert(entries.filter(of_usage(usage)).contains(listed));
    entries.lemma_filter_contains_rev(of_usage(usage), listed);
    let i = choose|i: int| 0 <= i < entries.len() && entries[i] == listed;
    entries.lemma_filter_contains(named(usage, listed.id), i);
    assert(found.contains(found[0]));
    entries.lemma_filter_contains_rev(named(usage, listed.id), found[0]);
    let j = choose|j: int| 0 <= j < entries.len() && entries[j] == found[0];
    lemma_parsed_container(container.bytes);
    assert(entry_resolves(container.bytes, entries[j]));
}

/// Parsing is a function of the bytes: two readers of the same bytes are the
/// same container, with the same index, and resolve every resource to the same
/// chunk.
pub proof fn lemma_readers_agree(first: BlorbReader<'_>, second: BlorbReader<'_>)
    requires
        first.wf(),
        second.wf(),
        first@.bytes == second@.bytes,
    ensures
        first@ == second@,
        forall|usage: Usage, id: i32|
            resource_at(first@, usage, id) == resource_at(second@, usage, id),
{
}

} // verus!
