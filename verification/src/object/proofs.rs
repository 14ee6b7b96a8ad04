//! What holds of every mesh file: which files are rejected and why, which
//! are decoded, and what a decoded mesh holds.

use crate::object::{
    assemble, body_at, chunk_at, chunks_of, loaded, magic, regions_within, spec_load, walk_chunks,
    ChunksModel, LoadErrorModel, MeshHeader, ObjectModel, SubObjectDecl, Walk,
    SUB_OBJECT_LIST_TYPE,
};
use crate::reader::{lemma_record_in_prefix, lemma_records_in_prefix, record_at, starts_with};
use vstd::prelude::*;

verus! {

/// A file that does not start with `SB6M` is rejected for that, however
/// long or short it is and whatever else it holds.
pub proof fn lemma_magic_required(bytes: Seq<u8>)
    requires
        !starts_with(bytes, magic()),
    ensures
        spec_load(bytes) matches Err(LoadErrorModel::MagicError(_)),
{
}

/// Decoding is a function of the bytes: two decodings of the same bytes,
/// into whatever meshes, have the same outcome, and where they succeed
/// they leave the same mesh.
pub proof fn lemma_load_deterministic(
    bytes: Seq<u8>,
    before1: ObjectModel,
    after1: ObjectModel,
    r1: Result<(), LoadErrorModel>,
    before2: ObjectModel,
    after2: ObjectModel,
    r2: Result<(), LoadErrorModel>,
)
    requires
        loaded(before1, bytes, after1, r1),
        loaded(before2, bytes, after2, r2),
    ensures
        r1 == r2,
        r1 is Ok ==> after1 == after2,
{
    match (r1, r2) {
        (Ok(a), Ok(b)) => {
            assert(a == b);
        },
        _ => {},
    }
}

/// What a decoded mesh holds: the file, and regions that lie within it.
pub proof fn lemma_decoded_object(bytes: Seq<u8>)
    ensures
        spec_load(bytes) matches Ok(object) ==> object.data == bytes && object.regions_fit(),
{
}

/// The `n` chunks from `pos` on, read one after another without holding
/// the sizes they declare against the bytes they take: what they say,
/// added to `chunks`, and where the last one ends; or the fault that
/// stops the reading.
pub open spec fn scan_chunks(bytes: Seq<u8>, n: nat, pos: int, chunks: ChunksModel) -> Result<
    (ChunksModel, int),
    LoadErrorModel,
>
    decreases n,
{
    if n == 0 {
        Ok((chunks, pos))
    } else {
        match chunk_at(bytes, pos) {
            Err(e) => Err(e),
            Ok((_, chunk, end)) => scan_chunks(bytes, (n - 1) as nat, end, chunks.put(chunk)),
        }
    }
}

/// The sizes that the `n` chunks from `pos` on declare, summed.
pub open spec fn declared_size(bytes: Seq<u8>, n: nat, pos: int) -> int
    decreases n,
{
    if n == 0 {
        0
    } else {
        match chunk_at(bytes, pos) {
            Err(_) => 0,
            Ok((header, _, end)) => header.size + declared_size(bytes, (n - 1) as nat, end),
        }
    }
}

/// Whether each of the `n` chunks from `pos` on can be read and declares
/// the size it has.
pub open spec fn sizes_agree(bytes: Seq<u8>, n: nat, pos: int) -> bool
    decreases n,
{
    n == 0 || match chunk_at(bytes, pos) {
        Err(_) => false,
        Ok((header, _, end)) => header.size == end - pos && sizes_agree(
            bytes,
            (n - 1) as nat,
            end,
        ),
    }
}

/// Whether one of the `n` chunks from `pos` on has the tag `tag`.
pub open spec fn has_chunk(bytes: Seq<u8>, n: nat, pos: int, tag: u32) -> bool
    decreases n,
{
    n != 0 && match chunk_at(bytes, pos) {
        Err(_) => false,
        Ok((header, _, end)) => header.chunk_type == tag || has_chunk(
            bytes,
            (n - 1) as nat,
            end,
            tag,
        ),
    }
}

/// A walk that succeeds has read what a scan reads, and ends where the
/// declared sizes sum to.
pub proof fn lemma_walk_is_scan(bytes: Seq<u8>, n: nat, from: Walk)
    ensures
        walk_chunks(bytes, n, from) matches Ok(walk) ==> {
            &&& scan_chunks(bytes, n, from.pos, from.chunks) == Ok::<_, LoadErrorModel>(
                (walk.chunks, walk.pos),
            )
            &&& walk.expected == from.expected + declared_size(bytes, n, from.pos)
            &&& n > 0 ==> walk.expected == walk.pos
        },
    decreases n,
{
    if n > 0 {
        match chunk_at(bytes, from.pos) {
            Ok((header, chunk, end)) => {
                let expected = from.expected + header.size;
                if expected == end {
                    lemma_walk_is_scan(
                        bytes,
                        (n - 1) as nat,
                        Walk { chunks: from.chunks.put(chunk), pos: end, expected },
                    );
                }
            },
            Err(_) => {},
        }
    }
}

/// Where all chunks can be read but the sizes declared, the header's and
/// the chunks', do not sum to the bytes read, the walk fails for that.
pub proof fn lemma_walk_size_mismatch(bytes: Seq<u8>, n: nat, from: Walk)
    requires
        scan_chunks(bytes, n, from.pos, from.chunks) matches Ok((_, end)) && from.expected
            + declared_size(bytes, n, from.pos) != end,
    ensures
        chunks_of(bytes, n, from) matches Err(LoadErrorModel::ChunkSizeError(_, _)),
    decreases n,
{
    if n > 0 {
        match chunk_at(bytes, from.pos) {
            Ok((header, chunk, end)) => {
                let expected = from.expected + header.size;
                if expected == end {
                    lemma_walk_size_mismatch(
                        bytes,
                        (n - 1) as nat,
                        Walk { chunks: from.chunks.put(chunk), pos: end, expected },
                    );
                }
            },
            Err(_) => {},
        }
    }
}

/// Where every chunk declares the size it has, and the sizes declared
/// before the first chunk are the bytes read before it, the walk succeeds
/// and gathers what a scan gathers.
pub proof fn lemma_walk_sizes_agree(bytes: Seq<u8>, n: nat, from: Walk)
    requires
        from.expected == from.pos,
        sizes_agree(bytes, n, from.pos),
    ensures
        scan_chunks(bytes, n, from.pos, from.chunks) matches Ok((chunks, _)) && chunks_of(
            bytes,
            n,
            from,
        ) == Ok::<_, LoadErrorModel>(chunks),
    decreases n,
{
    if n > 0 {
        match chunk_at(bytes, from.pos) {
            Ok((header, chunk, end)) => {
                lemma_walk_sizes_agree(
                    bytes,
                    (n - 1) as nat,
                    Walk { chunks: from.chunks.put(chunk), pos: end, expected: end },
                );
            },
            Err(_) => {},
        }
    }
}

/// The chunks of a file with magic and header, scanned: what they say and
/// where they end.
pub open spec fn scanned(bytes: Seq<u8>) -> Result<(ChunksModel, int), LoadErrorModel> {
    scan_chunks(
        bytes,
        record_at::<MeshHeader>(bytes, 4).num_chunks as nat,
        16,
        ChunksModel::empty(),
    )
}

/// A file whose declared sizes disagree with its chunks is rejected for
/// that: where all chunks can be read, but the size the header declares
/// and the sizes the chunks declare do not sum to the bytes that header
/// and chunks take.
pub proof fn lemma_size_mismatch_rejected(bytes: Seq<u8>)
    requires
        starts_with(bytes, magic()),
        bytes.len() >= 16,
        scanned(bytes) matches Ok((_, end)) && record_at::<MeshHeader>(bytes, 4).size
            + declared_size(bytes, record_at::<MeshHeader>(bytes, 4).num_chunks as nat, 16)
            != end,
    ensures
        spec_load(bytes) matches Err(LoadErrorModel::ChunkSizeError(_, _)),
{
    let header = record_at::<MeshHeader>(bytes, 4);
    lemma_walk_size_mismatch(
        bytes,
        header.num_chunks as nat,
        Walk { chunks: ChunksModel::empty(), pos: 16, expected: header.size as int },
    );
}

/// A file whose declared sizes agree with its chunks is decoded: where
/// the header declares its 16 bytes and every chunk the size it has, the
/// file is decoded as soon as it has a chunk for the vertex data and one
/// for the attributes, and holds the regions these name.
pub proof fn lemma_agreeing_sizes_decode(bytes: Seq<u8>)
    requires
        starts_with(bytes, magic()),
        bytes.len() >= 16,
        record_at::<MeshHeader>(bytes, 4).size == 16,
        sizes_agree(bytes, record_at::<MeshHeader>(bytes, 4).num_chunks as nat, 16),
    ensures
        scanned(bytes) matches Ok((chunks, _)) && spec_load(bytes) == assemble(bytes, chunks) && (
        chunks.attribs is Some && (chunks.vertex matches Some(vertex) && regions_within(
            vertex,
            chunks.index,
            bytes.len() as int,
        )) ==> spec_load(bytes) is Ok),
{
    let header = record_at::<MeshHeader>(bytes, 4);
    lemma_walk_sizes_agree(
        bytes,
        header.num_chunks as nat,
        Walk { chunks: ChunksModel::empty(), pos: 16, expected: 16 },
    );
}

/// A file is decoded only if its declared sizes agree with its chunks.
pub proof fn lemma_decoded_sizes_agree(bytes: Seq<u8>)
    requires
        spec_load(bytes) is Ok,
    ensures
        scanned(bytes) matches Ok((chunks, end)) && spec_load(bytes) == assemble(bytes, chunks)
            && record_at::<MeshHeader>(bytes, 4).size + declared_size(
            bytes,
            record_at::<MeshHeader>(bytes, 4).num_chunks as nat,
            16,
        ) == end,
{
    let header = record_at::<MeshHeader>(bytes, 4);
    lemma_walk_is_scan(
        bytes,
        header.num_chunks as nat,
        Walk { chunks: ChunksModel::empty(), pos: 16, expected: header.size as int },
    );
}

/// What a scan gathers of sub-objects is what it started with, unless one
/// of the chunks is a list of sub-objects.
pub proof fn lemma_scan_without_list(bytes: Seq<u8>, n: nat, pos: int, chunks: ChunksModel)
    requires
        !has_chunk(bytes, n, pos, SUB_OBJECT_LIST_TYPE),
    ensures
        scan_chunks(bytes, n, pos, chunks) matches Ok((gathered, _)) ==> gathered.sub_objects
            == chunks.sub_objects,
    decreases n,
{
    reveal(body_at);
    if n > 0 {
        match chunk_at(bytes, pos) {
            Ok((_, chunk, end)) => {
                lemma_scan_without_list(bytes, (n - 1) as nat, end, chunks.put(chunk));
            },
            Err(_) => {},
        }
    }
}

/// A decoded mesh whose file has no list of sub-objects has exactly one
/// sub-object, which starts at 0 and covers all vertices.
pub proof fn lemma_implicit_sub_object(bytes: Seq<u8>)
    requires
        !has_chunk(
            bytes,
            record_at::<MeshHeader>(bytes, 4).num_chunks as nat,
            16,
            SUB_OBJECT_LIST_TYPE,
        ),
    ensures
        spec_load(bytes) matches Ok(object) ==> object.sub_objects
            == seq![SubObjectDecl { first: 0, count: object.vertex.total_vertices }],
{
    if spec_load(bytes) is Ok {
        lemma_decoded_sizes_agree(bytes);
        lemma_scan_without_list(
            bytes,
            record_at::<MeshHeader>(bytes, 4).num_chunks as nat,
            16,
            ChunksModel::empty(),
        );
    }
}

/// A chunk of a file, looked at in the file cut off after `k` bytes: the
/// same chunk where it ends within the `k` bytes, and an overrun where it
/// does not.
pub proof fn lemma_chunk_in_prefix(bytes: Seq<u8>, k: int, pos: int)
    requires
        0 <= pos,
        0 <= k <= bytes.len(),
        chunk_at(bytes, pos) is Ok,
    ensures
        chunk_at(bytes, pos) matches Ok((_, _, end)) && pos + 8 <= end <= bytes.len() && (k >= end
            ==> chunk_at(bytes.subrange(0, k), pos) == chunk_at(bytes, pos)) && (k < end
            ==> chunk_at(bytes.subrange(0, k), pos) == Err::<
            (crate::object::ChunkHeader, crate::object::ChunkModel, int),
            _,
        >(LoadErrorModel::BufferOverrun)),
{
    reveal(body_at);
    let cut = bytes.subrange(0, k);
    if pos + 8 <= k {
        lemma_record_in_prefix::<crate::object::ChunkHeader>(bytes, k, pos);
        let header = record_at::<crate::object::ChunkHeader>(bytes, pos);
        let at = pos + 8;
        if header.chunk_type == crate::object::INDEX_DATA_TYPE {
            if at + 12 <= k {
                lemma_record_in_prefix::<crate::object::IndexData>(bytes, k, at);
            }
        } else if header.chunk_type == crate::object::VERTEX_DATA_TYPE {
            if at + 12 <= k {
                lemma_record_in_prefix::<crate::object::VertexData>(bytes, k, at);
            }
        } else if header.chunk_type == crate::object::VERTEX_ATTRIBS_TYPE {
            if at + 4 <= k {
                lemma_record_in_prefix::<u32>(bytes, k, at);
                let count = record_at::<u32>(bytes, at);
                if at + 4 + count * 84 <= k {
                    lemma_records_in_prefix::<crate::object::VertexAttribDecl>(
                        bytes,
                        k,
                        at + 4,
                        count as nat,
                    );
                }
            }
        } else if header.chunk_type == SUB_OBJECT_LIST_TYPE {
            if at + 4 <= k {
                lemma_record_in_prefix::<u32>(bytes, k, at);
                let count = record_at::<u32>(bytes, at);
                if at + 4 + count * 8 <= k {
                    lemma_records_in_prefix::<SubObjectDecl>(bytes, k, at + 4, count as nat);
                }
            }
        } else if header.chunk_type == crate::object::COMMENT_TYPE {
            let n = crate::object::comment_len(header.size);
            if at + n <= k {
                assert(cut.subrange(at, at + n) =~= bytes.subrange(at, at + n));
            }
        }
    }
}

/// A walk over the chunks of a file, made in the file cut off after `k`
/// bytes: the same walk where it ends within the `k` bytes, and an
/// overrun where it does not.
pub proof fn lemma_walk_in_prefix(bytes: Seq<u8>, k: int, n: nat, from: Walk)
    requires
        0 <= from.pos <= k <= bytes.len(),
        walk_chunks(bytes, n, from) is Ok,
    ensures
        walk_chunks(bytes, n, from) matches Ok(walk) && from.pos <= walk.pos <= bytes.len() && (k
            >= walk.pos ==> walk_chunks(bytes.subrange(0, k), n, from) == Ok::<_, LoadErrorModel>(
            walk,
        )) && (k < walk.pos ==> walk_chunks(bytes.subrange(0, k), n, from) == Err::<Walk, _>(
            LoadErrorModel::BufferOverrun,
        )),
    decreases n,
{
    if n > 0 {
        lemma_chunk_in_prefix(bytes, k, from.pos);
        match chunk_at(bytes, from.pos) {
            Ok((header, chunk, end)) => {
                let next = Walk {
                    chunks: from.chunks.put(chunk),
                    pos: end,
                    expected: from.expected + header.size,
                };
                if end <= k {
                    lemma_walk_in_prefix(bytes, k, (n - 1) as nat, next);
                } else {
                    lemma_walk_in_prefix(bytes, bytes.len() as int, (n - 1) as nat, next);
                }
            },
            Err(_) => {},
        }
    }
}

/// Length that a file needs to be decoded as it is: up to the end of its
/// chunks, of its vertex data, and of its index data, whichever lies last.
pub open spec fn needed_len(bytes: Seq<u8>) -> int {
    match scanned(bytes) {
        Ok((chunks, end)) => {
            let vertex_end = match chunks.vertex {
                Some(vertex) => vertex.end(),
                None => 0,
            };
            let index_end = match chunks.index {
                Some(index) => index.end(),
                None => 0,
            };
            if end >= vertex_end && end >= index_end {
                end
            } else if vertex_end >= index_end {
                vertex_end
            } else {
                index_end
            }
        },
        Err(_) => 0,
    }
}

/// A file that is decoded is no longer decoded when it is cut short: cut
/// off anywhere behind the magic and before the last byte it needs, it is
/// rejected as overrun. Nothing is read past the end, and no part of a
/// mesh is returned.
pub proof fn lemma_truncated_file_overruns(bytes: Seq<u8>, k: int)
    requires
        spec_load(bytes) is Ok,
        4 <= k < needed_len(bytes),
    ensures
        needed_len(bytes) <= bytes.len(),
        spec_load(bytes.subrange(0, k)) == Err::<ObjectModel, _>(LoadErrorModel::BufferOverrun),
{
    let cut = bytes.subrange(0, k);
    let header = record_at::<MeshHeader>(bytes, 4);
    let start = Walk { chunks: ChunksModel::empty(), pos: 16, expected: header.size as int };
    lemma_decoded_sizes_agree(bytes);
    lemma_walk_is_scan(bytes, header.num_chunks as nat, start);
    lemma_walk_in_prefix(bytes, bytes.len() as int, header.num_chunks as nat, start);
    assert(cut.subrange(0, 4) =~= bytes.subrange(0, 4));
    if k >= 16 {
        lemma_record_in_prefix::<MeshHeader>(bytes, k, 4);
        lemma_walk_in_prefix(bytes, k, header.num_chunks as nat, start);
    }
}

} // verus!
