//! Decoder for the chunked `SB6M` mesh container.
//!
//! A mesh file starts with the four bytes `SB6M` and a header of three
//! little-endian words, followed by a run of chunks. Every chunk starts
//! with a four-letter tag and its own size in bytes. The chunks declare
//! the vertex attributes, say where in the file the vertex and index data
//! lie, and may list sub-objects: draw ranges over the same data.

pub mod proofs;

use crate::reader::{
    le_u32, read_le_u32, record_at, records_at, starts_with, BufferReader, ReadError, Record,
};
use crate::text::{decode_text, utf8_text};
use vstd::prelude::*;

verus! {

/// Tag of the chunk that describes the index data, `INDX`.
pub const INDEX_DATA_TYPE: u32 = 0x5844_4e49;

/// Tag of the chunk that describes the vertex data, `VRTX`.
pub const VERTEX_DATA_TYPE: u32 = 0x5854_5256;

/// Tag of the chunk that declares the vertex attributes, `ATRB`.
pub const VERTEX_ATTRIBS_TYPE: u32 = 0x4252_5441;

/// Tag of the chunk that lists the sub-objects, `OLST`.
pub const SUB_OBJECT_LIST_TYPE: u32 = 0x5453_4c4f;

/// Tag of a comment chunk, `CMNT`.
pub const COMMENT_TYPE: u32 = 0x544e_4d43;

/// Bit of [`VertexAttribDecl::flags`] that marks an attribute as normalized.
pub const VERTEX_ATTRIB_FLAG_NORMALIZED: u32 = 0x0000_0001;

/// Index type of 16-bit indices (OpenGL's `UNSIGNED_SHORT`).
pub const UNSIGNED_SHORT: u32 = 0x1403;

/// Index type of 8-bit indices (OpenGL's `UNSIGNED_BYTE`).
pub const UNSIGNED_BYTE: u32 = 0x1401;

/// The tag that four ASCII letters make: the first letter is the least
/// significant byte.
pub open spec fn fourcc(a: u8, b: u8, c: u8, d: u8) -> u32 {
    le_u32(seq![a, b, c, d], 0)
}

/// The chunk tags are their four letters, packed.
pub proof fn lemma_chunk_tags()
    ensures
        INDEX_DATA_TYPE == fourcc('I' as u8, 'N' as u8, 'D' as u8, 'X' as u8),
        VERTEX_DATA_TYPE == fourcc('V' as u8, 'R' as u8, 'T' as u8, 'X' as u8),
        VERTEX_ATTRIBS_TYPE == fourcc('A' as u8, 'T' as u8, 'R' as u8, 'B' as u8),
        SUB_OBJECT_LIST_TYPE == fourcc('O' as u8, 'L' as u8, 'S' as u8, 'T' as u8),
        COMMENT_TYPE == fourcc('C' as u8, 'M' as u8, 'N' as u8, 'T' as u8),
{
}

/// The record that follows the magic.
#[derive(Debug, Clone, Copy, PartialEq, Eq, Structural)]
pub struct MeshHeader {
    /// Size that the header declares for itself, magic included.
    pub size: u32,
    /// Number of chunks that follow.
    pub num_chunks: u32,
    /// Not interpreted.
    pub flags: u32,
}

/// The record every chunk starts with.
#[derive(Debug, Clone, Copy, PartialEq, Eq, Structural)]
pub struct ChunkHeader {
    /// The chunk's tag.
    pub chunk_type: u32,
    /// Size that the chunk declares for itself, this header included.
    pub size: u32,
}

/// Body of an `INDX` chunk.
#[derive(Debug, Clone, Copy, PartialEq, Eq, Structural)]
pub struct IndexData {
    /// Type of one index.
    pub index_type: u32,
    /// Number of indices.
    pub index_count: u32,
    /// Where in the file the indices start.
    pub index_data_offset: u32,
}

/// Body of a `VRTX` chunk.
#[derive(Debug, Clone, Copy, PartialEq, Eq, Structural)]
pub struct VertexData {
    /// Length of the vertex data in bytes.
    pub data_size: u32,
    /// Where in the file the vertex data start.
    pub data_offset: u32,
    /// Number of vertices.
    pub total_vertices: u32,
}

/// One vertex attribute, as an `ATRB` chunk declares it. In the file a
/// name of 64 bytes precedes these fields; it is skipped.
#[derive(Debug, Clone, Copy, PartialEq, Eq, Structural)]
pub struct VertexAttribDecl {
    /// Number of components, 1 to 4.
    pub size: u32,
    /// Type of one component.
    pub ty: u32,
    /// Distance in bytes from one vertex to the next.
    pub stride: u32,
    /// Flag bits; see [`VERTEX_ATTRIB_FLAG_NORMALIZED`].
    pub flags: u32,
    /// Where in the vertex data the attribute starts.
    pub data_offset: u32,
}

/// One sub-object: a draw range.
#[derive(Debug, Clone, Copy, PartialEq, Eq, Structural)]
pub struct SubObjectDecl {
    /// First element of the range.
    pub first: u32,
    /// Number of elements.
    pub count: u32,
}

impl VertexData {
    /// First byte behind the vertex data.
    pub open spec fn end(self) -> int {
        self.data_offset + self.data_size
    }
}

impl IndexData {
    /// First byte behind the index data.
    pub open spec fn end(self) -> int {
        self.index_data_offset + self.index_count * index_size(self.index_type)
    }
}

impl VertexAttribDecl {
    /// Whether the attribute's values are to be normalized.
    pub open spec fn spec_normalized(self) -> bool {
        self.flags & VERTEX_ATTRIB_FLAG_NORMALIZED != 0
    }

    /// Whether the attribute's values are to be normalized.
    #[verifier::when_used_as_spec(spec_normalized)]
    pub fn normalized(self) -> (b: bool)
        ensures
            b == self.spec_normalized(),
    {
        self.flags & VERTEX_ATTRIB_FLAG_NORMALIZED != 0
    }
}

impl Record for MeshHeader {
    open spec fn spec_size() -> nat {
        12
    }

    open spec fn spec_decode(bytes: Seq<u8>) -> MeshHeader {
        MeshHeader {
            size: le_u32(bytes, 0),
            num_chunks: le_u32(bytes, 4),
            flags: le_u32(bytes, 8),
        }
    }

    fn size() -> (n: usize) {
        12
    }

    fn decode(bytes: &[u8]) -> (r: MeshHeader) {
        MeshHeader {
            size: read_le_u32(bytes, 0),
            num_chunks: read_le_u32(bytes, 4),
            flags: read_le_u32(bytes, 8),
        }
    }
}

impl Record for ChunkHeader {
    open spec fn spec_size() -> nat {
        8
    }

    open spec fn spec_decode(bytes: Seq<u8>) -> ChunkHeader {
        ChunkHeader { chunk_type: le_u32(bytes, 0), size: le_u32(bytes, 4) }
    }

    fn size() -> (n: usize) {
        8
    }

    fn decode(bytes: &[u8]) -> (r: ChunkHeader) {
        ChunkHeader { chunk_type: read_le_u32(bytes, 0), size: read_le_u32(bytes, 4) }
    }
}

impl Record for IndexData {
    open spec fn spec_size() -> nat {
        12
    }

    open spec fn spec_decode(bytes: Seq<u8>) -> IndexData {
        IndexData {
            index_type: le_u32(bytes, 0),
            index_count: le_u32(bytes, 4),
            index_data_offset: le_u32(bytes, 8),
        }
    }

    fn size() -> (n: usize) {
        12
    }

    fn decode(bytes: &[u8]) -> (r: IndexData) {
        IndexData {
            index_type: read_le_u32(bytes, 0),
            index_count: read_le_u32(bytes, 4),
            index_data_offset: read_le_u32(bytes, 8),
        }
    }
}

impl Record for VertexData {
    open spec fn spec_size() -> nat {
        12
    }

    open spec fn spec_decode(bytes: Seq<u8>) -> VertexData {
        VertexData {
            data_size: le_u32(bytes, 0),
            data_offset: le_u32(bytes, 4),
            total_vertices: le_u32(bytes, 8),
        }
    }

    fn size() -> (n: usize) {
        12
    }

    fn decode(bytes: &[u8]) -> (r: VertexData) {
        VertexData {
            data_size: read_le_u32(bytes, 0),
            data_offset: read_le_u32(bytes, 4),
            total_vertices: read_le_u32(bytes, 8),
        }
    }
}

impl Record for VertexAttribDecl {
    open spec fn spec_size() -> nat {
        84
    }

    open spec fn spec_decode(bytes: Seq<u8>) -> VertexAttribDecl {
        VertexAttribDecl {
            size: le_u32(bytes, 64),
            ty: le_u32(bytes, 68),
            stride: le_u32(bytes, 72),
            flags: le_u32(bytes, 76),
            data_offset: le_u32(bytes, 80),
        }
    }

    fn size() -> (n: usize) {
        84
    }

    fn decode(bytes: &[u8]) -> (r: VertexAttribDecl) {
        VertexAttribDecl {
            size: read_le_u32(bytes, 64),
            ty: read_le_u32(bytes, 68),
            stride: read_le_u32(bytes, 72),
            flags: read_le_u32(bytes, 76),
            data_offset: read_le_u32(bytes, 80),
        }
    }
}

impl Record for SubObjectDecl {
    open spec fn spec_size() -> nat {
        8
    }

    open spec fn spec_decode(bytes: Seq<u8>) -> SubObjectDecl {
        SubObjectDecl { first: le_u32(bytes, 0), count: le_u32(bytes, 4) }
    }

    fn size() -> (n: usize) {
        8
    }

    fn decode(bytes: &[u8]) -> (r: SubObjectDecl) {
        SubObjectDecl { first: read_le_u32(bytes, 0), count: read_le_u32(bytes, 4) }
    }
}

/// Why a mesh could not be decoded.
#[derive(Debug, Clone, PartialEq, Eq)]
pub enum LoadError {
    /// The file does not start with `SB6M`. Holds the four bytes that
    /// stand there instead, where they are text.
    MagicError(Option<String>),
    /// A chunk has a tag that is not known. Holds the tag.
    ChunkTypeError(u32),
    /// After a chunk, the sizes declared so far and the bytes read so far
    /// differ. Holds the two sums, the declared one first.
    ChunkSizeError(u128, u128),
    /// No chunk describes the vertex data.
    VertexDataError,
    /// No chunk declares the vertex attributes.
    VertexAttribDataError,
    /// A record or a data region lies partly outside the file.
    BufferOverrun,
}

/// A [`LoadError`] as a mathematical value.
pub enum LoadErrorModel {
    MagicError(Option<Seq<char>>),
    ChunkTypeError(u32),
    ChunkSizeError(int, int),
    VertexDataError,
    VertexAttribDataError,
    BufferOverrun,
}

impl View for LoadError {
    type V = LoadErrorModel;

    open spec fn view(&self) -> LoadErrorModel {
        match *self {
            LoadError::MagicError(text) => LoadErrorModel::MagicError(text.deep_view()),
            LoadError::ChunkTypeError(tag) => LoadErrorModel::ChunkTypeError(tag),
            LoadError::ChunkSizeError(expected, actual) => LoadErrorModel::ChunkSizeError(
                expected as int,
                actual as int,
            ),
            LoadError::VertexDataError => LoadErrorModel::VertexDataError,
            LoadError::VertexAttribDataError => LoadErrorModel::VertexAttribDataError,
            LoadError::BufferOverrun => LoadErrorModel::BufferOverrun,
        }
    }
}

impl From<ReadError> for LoadError {
    fn from(e: ReadError) -> (r: LoadError) {
        LoadError::BufferOverrun
    }
}

impl vstd::std_specs::convert::FromSpecImpl<ReadError> for LoadError {
    open spec fn obeys_from_spec() -> bool {
        true
    }

    open spec fn from_spec(e: ReadError) -> LoadError {
        LoadError::BufferOverrun
    }
}

/// What one chunk holds.
#[derive(Debug, Clone, PartialEq, Eq)]
pub enum Chunk {
    /// `INDX`: where the indices are.
    Index(IndexData),
    /// `VRTX`: where the vertices are.
    Vertex(VertexData),
    /// `ATRB`: the vertex attributes.
    Attribs(Vec<VertexAttribDecl>),
    /// `OLST`: the sub-objects.
    SubObjects(Vec<SubObjectDecl>),
    /// `CMNT`: a comment; `None` where its bytes are not UTF-8.
    Comment(Option<String>),
}

/// A [`Chunk`] as a mathematical value.
pub enum ChunkModel {
    Index(IndexData),
    Vertex(VertexData),
    Attribs(Seq<VertexAttribDecl>),
    SubObjects(Seq<SubObjectDecl>),
    Comment(Option<Seq<char>>),
}

impl View for Chunk {
    type V = ChunkModel;

    open spec fn view(&self) -> ChunkModel {
        match *self {
            Chunk::Index(d) => ChunkModel::Index(d),
            Chunk::Vertex(d) => ChunkModel::Vertex(d),
            Chunk::Attribs(v) => ChunkModel::Attribs(v@),
            Chunk::SubObjects(v) => ChunkModel::SubObjects(v@),
            Chunk::Comment(text) => ChunkModel::Comment(text.deep_view()),
        }
    }
}

/// What the chunks read so far have said: of each kind of chunk the last
/// one, and every comment in file order.
pub struct ChunksModel {
    pub attribs: Option<Seq<VertexAttribDecl>>,
    pub vertex: Option<VertexData>,
    pub index: Option<IndexData>,
    pub sub_objects: Option<Seq<SubObjectDecl>>,
    pub comments: Seq<Option<Seq<char>>>,
}

impl ChunksModel {
    /// Before any chunk.
    pub open spec fn empty() -> ChunksModel {
        ChunksModel {
            attribs: None,
            vertex: None,
            index: None,
            sub_objects: None,
            comments: Seq::empty(),
        }
    }

    /// After one more chunk.
    pub open spec fn put(self, chunk: ChunkModel) -> ChunksModel {
        match chunk {
            ChunkModel::Index(d) => ChunksModel { index: Some(d), ..self },
            ChunkModel::Vertex(d) => ChunksModel { vertex: Some(d), ..self },
            ChunkModel::Attribs(a) => ChunksModel { attribs: Some(a), ..self },
            ChunkModel::SubObjects(s) => ChunksModel { sub_objects: Some(s), ..self },
            ChunkModel::Comment(c) => ChunksModel { comments: self.comments.push(c), ..self },
        }
    }
}

/// The four bytes a mesh file starts with, `SB6M`.
pub open spec fn magic() -> Seq<u8> {
    seq!['S' as u8, 'B' as u8, '6' as u8, 'M' as u8]
}

/// Size in bytes of one index of the given type: two for
/// [`UNSIGNED_SHORT`], one for every other type.
pub open spec fn index_size(index_type: u32) -> int {
    if index_type == UNSIGNED_SHORT {
        2
    } else {
        1
    }
}

/// Length in bytes of the comment in a comment chunk of the given declared
/// size: what the size leaves after the chunk header, and nothing where the
/// size is smaller than the header.
pub open spec fn comment_len(size: u32) -> int {
    if size >= ChunkHeader::spec_size() {
        size - ChunkHeader::spec_size()
    } else {
        0
    }
}

/// The body of the chunk with header `header` whose body starts at `at`,
/// and where the body ends.
#[verifier::opaque]
pub open spec fn body_at(bytes: Seq<u8>, at: int, header: ChunkHeader) -> Result<
    (ChunkModel, int),
    LoadErrorModel,
> {
    if header.chunk_type == INDEX_DATA_TYPE {
        let end = at + IndexData::spec_size();
        if end > bytes.len() {
            Err(LoadErrorModel::BufferOverrun)
        } else {
            Ok((ChunkModel::Index(record_at::<IndexData>(bytes, at)), end))
        }
    } else if header.chunk_type == VERTEX_DATA_TYPE {
        let end = at + VertexData::spec_size();
        if end > bytes.len() {
            Err(LoadErrorModel::BufferOverrun)
        } else {
            Ok((ChunkModel::Vertex(record_at::<VertexData>(bytes, at)), end))
        }
    } else if header.chunk_type == VERTEX_ATTRIBS_TYPE {
        if at + 4 > bytes.len() {
            Err(LoadErrorModel::BufferOverrun)
        } else {
            let count = record_at::<u32>(bytes, at);
            let end = at + 4 + count * VertexAttribDecl::spec_size();
            if end > bytes.len() {
                Err(LoadErrorModel::BufferOverrun)
            } else {
                Ok(
                    (
                        ChunkModel::Attribs(
                            records_at::<VertexAttribDecl>(bytes, at + 4, count as nat),
                        ),
                        end,
                    ),
                )
            }
        }
    } else if header.chunk_type == SUB_OBJECT_LIST_TYPE {
        if at + 4 > bytes.len() {
            Err(LoadErrorModel::BufferOverrun)
        } else {
            let count = record_at::<u32>(bytes, at);
            let end = at + 4 + count * SubObjectDecl::spec_size();
            if end > bytes.len() {
                Err(LoadErrorModel::BufferOverrun)
            } else {
                Ok(
                    (
                        ChunkModel::SubObjects(
                            records_at::<SubObjectDecl>(bytes, at + 4, count as nat),
                        ),
                        end,
                    ),
                )
            }
        }
    } else if header.chunk_type == COMMENT_TYPE {
        let end = at + comment_len(header.size);
        if end > bytes.len() {
            Err(LoadErrorModel::BufferOverrun)
        } else {
            Ok((ChunkModel::Comment(utf8_text(bytes.subrange(at, end))), end))
        }
    } else {
        Err(LoadErrorModel::ChunkTypeError(header.chunk_type))
    }
}

/// The chunk that starts at `pos`: its header, its body, and where it ends.
pub open spec fn chunk_at(bytes: Seq<u8>, pos: int) -> Result<
    (ChunkHeader, ChunkModel, int),
    LoadErrorModel,
> {
    if pos + ChunkHeader::spec_size() > bytes.len() {
        Err(LoadErrorModel::BufferOverrun)
    } else {
        let header = record_at::<ChunkHeader>(bytes, pos);
        match body_at(bytes, pos + ChunkHeader::spec_size(), header) {
            Ok((chunk, end)) => Ok((header, chunk, end)),
            Err(e) => Err(e),
        }
    }
}

/// Where a walk over chunks stands.
pub struct Walk {
    /// What the chunks have said.
    pub chunks: ChunksModel,
    /// Where the next chunk starts.
    pub pos: int,
    /// The sizes declared so far, summed.
    pub expected: int,
}

/// Reads `n` chunks, the first at `pos`. After each chunk the sizes
/// declared so far, `expected` before the first, must sum to the position
/// reached.
pub open spec fn walk_chunks(bytes: Seq<u8>, n: nat, from: Walk) -> Result<Walk, LoadErrorModel>
    decreases n,
{
    if n == 0 {
        Ok(from)
    } else {
        match chunk_at(bytes, from.pos) {
            Err(e) => Err(e),
            Ok((header, chunk, end)) => {
                let expected = from.expected + header.size;
                if expected != end {
                    Err(LoadErrorModel::ChunkSizeError(expected, end))
                } else {
                    walk_chunks(
                        bytes,
                        (n - 1) as nat,
                        Walk { chunks: from.chunks.put(chunk), pos: end, expected },
                    )
                }
            },
        }
    }
}

/// What `n` chunks say, the first at `from.pos`: [`walk_chunks`], and once
/// more the test that the declared sizes sum to the position reached,
/// which catches a wrong header size where there is no chunk at all.
pub open spec fn chunks_of(bytes: Seq<u8>, n: nat, from: Walk) -> Result<
    ChunksModel,
    LoadErrorModel,
> {
    match walk_chunks(bytes, n, from) {
        Err(e) => Err(e),
        Ok(walk) => if walk.expected != walk.pos {
            Err(LoadErrorModel::ChunkSizeError(walk.expected, walk.pos))
        } else {
            Ok(walk.chunks)
        },
    }
}

/// A decoded mesh as a mathematical value.
pub struct ObjectModel {
    /// The vertex attributes; the position in the sequence is the
    /// attribute's slot.
    pub attributes: Seq<VertexAttribDecl>,
    /// Where the vertex data lie, and how many vertices there are.
    pub vertex: VertexData,
    /// Where the index data lie, if the mesh is indexed.
    pub index: Option<IndexData>,
    /// The sub-objects.
    pub sub_objects: Seq<SubObjectDecl>,
    /// The comments, in file order; `None` for one that is not UTF-8.
    pub comments: Seq<Option<Seq<char>>>,
    /// The file.
    pub data: Seq<u8>,
}

impl ObjectModel {
    /// The mesh with nothing in it.
    pub open spec fn empty() -> ObjectModel {
        ObjectModel {
            attributes: Seq::empty(),
            vertex: VertexData { data_size: 0, data_offset: 0, total_vertices: 0 },
            index: None,
            sub_objects: Seq::empty(),
            comments: Seq::empty(),
            data: Seq::empty(),
        }
    }

    /// The number of elements a draw of the whole mesh covers: the number
    /// of indices of an indexed mesh, else the number of vertices.
    pub open spec fn num_indices(self) -> u32 {
        match self.index {
            Some(ix) => ix.index_count,
            None => self.vertex.total_vertices,
        }
    }

    /// The type of the indices; 0 for a mesh without indices.
    pub open spec fn index_type(self) -> u32 {
        match self.index {
            Some(ix) => ix.index_type,
            None => 0,
        }
    }

    /// The draw that renders sub-object `object_index`. An indexed mesh
    /// is drawn whole, whatever the sub-object; a mesh without indices has
    /// a draw for each sub-object it has, and none for any other.
    pub open spec fn draw(
        self,
        object_index: u32,
        instance_count: u32,
        base_instance: u32,
    ) -> Option<DrawCall> {
        match self.index {
            Some(ix) => Some(
                DrawCall::Elements {
                    count: ix.index_count,
                    index_type: ix.index_type,
                    instance_count,
                    base_instance,
                },
            ),
            None => if object_index < self.sub_objects.len() {
                Some(
                    DrawCall::Arrays {
                        first: self.sub_objects[object_index as int].first,
                        count: self.sub_objects[object_index as int].count,
                        instance_count,
                        base_instance,
                    },
                )
            } else {
                None
            },
        }
    }

    /// The data regions lie within the file.
    pub open spec fn regions_fit(self) -> bool {
        regions_within(self.vertex, self.index, self.data.len() as int)
    }
}

/// Whether the vertex data, and the index data where there are any, lie
/// within the first `len` bytes.
pub open spec fn regions_within(vertex: VertexData, index: Option<IndexData>, len: int) -> bool {
    vertex.end() <= len && (index matches Some(ix) ==> ix.end() <= len)
}

/// The mesh that the chunks of the file `bytes` describe.
pub open spec fn assemble(bytes: Seq<u8>, chunks: ChunksModel) -> Result<
    ObjectModel,
    LoadErrorModel,
> {
    match chunks.vertex {
        None => Err(LoadErrorModel::VertexDataError),
        Some(vertex) => match chunks.attribs {
            None => Err(LoadErrorModel::VertexAttribDataError),
            Some(attributes) => {
                let object = ObjectModel {
                    attributes,
                    vertex,
                    index: chunks.index,
                    sub_objects: match chunks.sub_objects {
                        Some(list) => list,
                        None => seq![SubObjectDecl { first: 0, count: vertex.total_vertices }],
                    },
                    comments: chunks.comments,
                    data: bytes,
                };
                if object.regions_fit() {
                    Ok(object)
                } else {
                    Err(LoadErrorModel::BufferOverrun)
                }
            },
        },
    }
}

/// What decoding the file `bytes` gives: the mesh, or the first fault
/// found.
pub open spec fn spec_load(bytes: Seq<u8>) -> Result<ObjectModel, LoadErrorModel> {
    if bytes.len() < 4 {
        Err(LoadErrorModel::MagicError(None))
    } else if !starts_with(bytes, magic()) {
        Err(LoadErrorModel::MagicError(utf8_text(bytes.subrange(0, 4))))
    } else if bytes.len() < 16 {
        Err(LoadErrorModel::BufferOverrun)
    } else {
        let header = record_at::<MeshHeader>(bytes, 4);
        let start = Walk { chunks: ChunksModel::empty(), pos: 16, expected: header.size as int };
        match chunks_of(bytes, header.num_chunks as nat, start) {
            Err(e) => Err(e),
            Ok(chunks) => assemble(bytes, chunks),
        }
    }
}

/// What the chunks read so far have said.
#[derive(Debug, Clone)]
pub struct Chunks {
    /// The attributes of the last `ATRB` chunk.
    pub attribs: Option<Vec<VertexAttribDecl>>,
    /// The body of the last `VRTX` chunk.
    pub vertex: Option<VertexData>,
    /// The body of the last `INDX` chunk.
    pub index: Option<IndexData>,
    /// The list of the last `OLST` chunk.
    pub sub_objects: Option<Vec<SubObjectDecl>>,
    /// Every comment, in file order.
    pub comments: Vec<Option<String>>,
}

impl View for Chunks {
    type V = ChunksModel;

    open spec fn view(&self) -> ChunksModel {
        ChunksModel {
            attribs: match self.attribs {
                Some(v) => Some(v@),
                None => None,
            },
            vertex: self.vertex,
            index: self.index,
            sub_objects: match self.sub_objects {
                Some(v) => Some(v@),
                None => None,
            },
            comments: self.comments.deep_view(),
        }
    }
}

impl Chunks {
    /// Before any chunk.
    pub fn new() -> (r: Chunks)
        ensures
            r@ == ChunksModel::empty(),
    {
        let r = Chunks {
            attribs: None,
            vertex: None,
            index: None,
            sub_objects: None,
            comments: Vec::new(),
        };
        assert(r.comments.deep_view() =~= Seq::empty());
        r
    }

    /// Takes note of one more chunk.
    pub fn put(&mut self, chunk: Chunk)
        ensures
            final(self)@ == old(self)@.put(chunk@),
    {
        match chunk {
            Chunk::Index(d) => {
                self.index = Some(d);
            },
            Chunk::Vertex(d) => {
                self.vertex = Some(d);
            },
            Chunk::Attribs(a) => {
                self.attribs = Some(a);
            },
            Chunk::SubObjects(l) => {
                self.sub_objects = Some(l);
            },
            Chunk::Comment(c) => {
                self.comments.push(c);
                assert(self.comments.deep_view() =~= old(self).comments.deep_view().push(
                    c.deep_view(),
                ));
            },
        }
    }
}

/// Reads the chunk at which `reader` stands.
///
/// On success the reader stands behind the chunk's body, as far as the
/// body's own layout reaches; the size that the chunk declares is not
/// looked at, except for the length of a comment.
pub fn read_chunk(reader: &mut BufferReader) -> (r: Result<(ChunkHeader, Chunk), LoadError>)
    ensures
        final(reader).bytes() == old(reader).bytes(),
        match r {
            Ok((header, chunk)) => chunk_at(old(reader).bytes(), old(reader).position() as int)
                == Ok::<_, LoadErrorModel>((header, chunk@, final(reader).position() as int)),
            Err(e) => chunk_at(old(reader).bytes(), old(reader).position() as int) == Err::<
                (ChunkHeader, ChunkModel, int),
                _,
            >(e@),
        },
{
    reveal(body_at);
    let header = match reader.pop_value::<ChunkHeader>() {
        Ok(h) => h,
        Err(e) => {
            return Err(LoadError::from(e));
        },
    };
    let chunk = if header.chunk_type == INDEX_DATA_TYPE {
        match reader.pop_value::<IndexData>() {
            Ok(d) => Chunk::Index(d),
            Err(e) => {
                return Err(LoadError::from(e));
            },
        }
    } else if header.chunk_type == VERTEX_DATA_TYPE {
        match reader.pop_value::<VertexData>() {
            Ok(d) => Chunk::Vertex(d),
            Err(e) => {
                return Err(LoadError::from(e));
            },
        }
    } else if header.chunk_type == VERTEX_ATTRIBS_TYPE {
        let count = match reader.pop_value::<u32>() {
            Ok(n) => n,
            Err(e) => {
                return Err(LoadError::from(e));
            },
        };
        match reader.pop_slice::<VertexAttribDecl>(count as usize) {
            Ok(a) => Chunk::Attribs(a),
            Err(e) => {
                return Err(LoadError::from(e));
            },
        }
    } else if header.chunk_type == SUB_OBJECT_LIST_TYPE {
        let count = match reader.pop_value::<u32>() {
            Ok(n) => n,
            Err(e) => {
                return Err(LoadError::from(e));
            },
        };
        match reader.pop_slice::<SubObjectDecl>(count as usize) {
            Ok(l) => Chunk::SubObjects(l),
            Err(e) => {
                return Err(LoadError::from(e));
            },
        }
    } else if header.chunk_type == COMMENT_TYPE {
        let len: u32 = if header.size >= 8 {
            header.size - 8
        } else {
            0
        };
        match reader.pop_slice::<u8>(len as usize) {
            Ok(text) => {
                assert(text@ =~= old(reader).bytes().subrange(
                    old(reader).position() as int + 8,
                    old(reader).position() as int + 8 + len,
                ));
                Chunk::Comment(decode_text(text.as_slice()))
            },
            Err(e) => {
                return Err(LoadError::from(e));
            },
        }
    } else {
        return Err(LoadError::ChunkTypeError(header.chunk_type));
    };
    Ok((header, chunk))
}

/// Reads `count` chunks from where `reader` stands, and holds the sizes
/// they declare against the bytes they take; `declared` is the size that
/// the file's header declares for what precedes the chunks.
pub fn read_chunks(reader: &mut BufferReader, count: u32, declared: u32) -> (r: Result<
    Chunks,
    LoadError,
>)
    ensures
        final(reader).bytes() == old(reader).bytes(),
        ({
            let start = Walk {
                chunks: ChunksModel::empty(),
                pos: old(reader).position() as int,
                expected: declared as int,
            };
            match r {
                Ok(chunks) => chunks_of(old(reader).bytes(), count as nat, start) == Ok::<
                    _,
                    LoadErrorModel,
                >(chunks@),
                Err(e) => chunks_of(old(reader).bytes(), count as nat, start) == Err::<
                    ChunksModel,
                    _,
                >(e@),
            }
        }),
{
    let ghost file = reader.bytes();
    let ghost start = Walk {
        chunks: ChunksModel::empty(),
        pos: reader.position() as int,
        expected: declared as int,
    };
    let mut chunks = Chunks::new();
    let mut expected: u128 = declared as u128;
    let mut i: u32 = 0;
    while i < count
        invariant
            i <= count,
            file == old(reader).bytes(),
            start == (Walk {
                chunks: ChunksModel::empty(),
                pos: old(reader).position() as int,
                expected: declared as int,
            }),
            reader.bytes() == file,
            expected <= u64::MAX,
            walk_chunks(file, count as nat, start) == walk_chunks(
                file,
                (count - i) as nat,
                Walk { chunks: chunks@, pos: reader.position() as int, expected: expected as int },
            ),
        decreases count - i,
    {
        let (header, chunk) = match read_chunk(reader) {
            Ok(c) => c,
            Err(e) => {
                return Err(e);
            },
        };
        expected = expected + header.size as u128;
        let actual = reader.bytes_read();
        if expected != actual as u128 {
            return Err(LoadError::ChunkSizeError(expected, actual as u128));
        }
        chunks.put(chunk);
        i = i + 1;
    }
    let actual = reader.bytes_read();
    if expected != actual as u128 {
        return Err(LoadError::ChunkSizeError(expected, actual as u128));
    }
    Ok(chunks)
}

/// A draw that renders a mesh, for the backend to issue.
#[derive(Debug, Clone, Copy, PartialEq, Eq, Structural)]
pub enum DrawCall {
    /// Draw `count` indices of type `index_type`, from the start of the
    /// index data.
    Elements { count: u32, index_type: u32, instance_count: u32, base_instance: u32 },
    /// Draw `count` vertices, the first being `first`.
    Arrays { first: u32, count: u32, instance_count: u32, base_instance: u32 },
}

/// The outcome of a decoding as a mathematical value.
pub open spec fn outcome(r: Result<(), LoadError>) -> Result<(), LoadErrorModel> {
    match r {
        Ok(()) => Ok(()),
        Err(e) => Err(e@),
    }
}

/// Whether decoding the file `bytes` into a mesh that was `before` may
/// leave the mesh `after` and the outcome `r`: on success the mesh is the
/// one that the file describes, on a fault it is the one it was.
pub open spec fn loaded(
    before: ObjectModel,
    bytes: Seq<u8>,
    after: ObjectModel,
    r: Result<(), LoadErrorModel>,
) -> bool {
    match r {
        Ok(()) => spec_load(bytes) == Ok::<_, LoadErrorModel>(after),
        Err(e) => spec_load(bytes) == Err::<ObjectModel, _>(e) && after == before,
    }
}

/// A decoded mesh: what its chunks declare, and the file that the declared
/// regions point into.
///
/// The vertex region, and the index region where there is one, always lie
/// within the file.
#[derive(Debug)]
pub struct Object {
    attributes: Vec<VertexAttribDecl>,
    vertex: VertexData,
    index: Option<IndexData>,
    sub_objects: Vec<SubObjectDecl>,
    comments: Vec<Option<String>>,
    data: Vec<u8>,
}

impl View for Object {
    type V = ObjectModel;

    closed spec fn view(&self) -> ObjectModel {
        ObjectModel {
            attributes: self.attributes@,
            vertex: self.vertex,
            index: self.index,
            sub_objects: self.sub_objects@,
            comments: self.comments.deep_view(),
            data: self.data@,
        }
    }
}

impl Object {
    #[verifier::type_invariant]
    spec fn regions_in_data(self) -> bool {
        self@.regions_fit()
    }

    /// A mesh with nothing in it.
    pub fn new() -> (r: Object)
        ensures
            r@ == ObjectModel::empty(),
    {
        let r = Object {
            attributes: Vec::new(),
            vertex: VertexData { data_size: 0, data_offset: 0, total_vertices: 0 },
            index: None,
            sub_objects: Vec::new(),
            comments: Vec::new(),
            data: Vec::new(),
        };
        assert(r.comments.deep_view() =~= Seq::empty());
        r
    }

    /// Decodes the mesh file `bytes` into `self`.
    ///
    /// Decoding is all or nothing: on any fault `self` stays as it was.
    /// What was in `self` before has no influence on the outcome.
    ///
    /// The faults, in the order in which they are found:
    /// - the file does not start with `SB6M`: [`LoadError::MagicError`];
    /// - the file ends within its header, or within a chunk:
    ///   [`LoadError::BufferOverrun`];
    /// - a chunk has an unknown tag: [`LoadError::ChunkTypeError`];
    /// - after a chunk, the sizes declared by the header and the chunks
    ///   so far do not sum to the bytes read so far:
    ///   [`LoadError::ChunkSizeError`];
    /// - no chunk describes the vertex data, or none declares the
    ///   attributes: [`LoadError::VertexDataError`],
    ///   [`LoadError::VertexAttribDataError`];
    /// - the vertex data or the index data lie partly outside the file:
    ///   [`LoadError::BufferOverrun`].
    ///
    /// A comment that is not UTF-8 is no fault: it is kept as `None`. Of
    /// two chunks of one kind the later one counts. The list of
    /// sub-objects may be of any length.
    pub fn load(&mut self, bytes: Vec<u8>) -> (r: Result<(), LoadError>)
        ensures
            loaded(old(self)@, bytes@, final(self)@, outcome(r)),
    {
        let ghost file = bytes@;
        let mut reader = BufferReader::new(bytes);

        let magic = match reader.pop_slice::<u8>(4) {
            Ok(m) => m,
            Err(_) => {
                return Err(LoadError::MagicError(None));
            },
        };
        assert(magic@ =~= file.subrange(0, 4));
        if magic[0] != 0x53 || magic[1] != 0x42 || magic[2] != 0x36 || magic[3] != 0x4d {
            return Err(LoadError::MagicError(decode_text(magic.as_slice())));
        }
        assert(magic@ =~= self::magic());

        let header = match reader.pop_value::<MeshHeader>() {
            Ok(h) => h,
            Err(e) => {
                return Err(LoadError::from(e));
            },
        };

        let chunks = match read_chunks(&mut reader, header.num_chunks, header.size) {
            Ok(c) => c,
            Err(e) => {
                return Err(e);
            },
        };
        let Chunks { attribs, vertex, index, sub_objects, comments } = chunks;
        let vertex = match vertex {
            Some(v) => v,
            None => {
                return Err(LoadError::VertexDataError);
            },
        };
        let attributes = match attribs {
            Some(a) => a,
            None => {
                return Err(LoadError::VertexAttribDataError);
            },
        };
        let sub_objects = match sub_objects {
            Some(list) => list,
            None => {
                let mut list: Vec<SubObjectDecl> = Vec::new();
                list.push(SubObjectDecl { first: 0, count: vertex.total_vertices });
                assert(list@ =~= seq![SubObjectDecl { first: 0, count: vertex.total_vertices }]);
                list
            },
        };

        let len: u64 = reader.len() as u64;
        if vertex.data_offset as u64 + vertex.data_size as u64 > len {
            return Err(LoadError::BufferOverrun);
        }
        match index {
            Some(ix) => {
                let each: u64 = if ix.index_type == UNSIGNED_SHORT {
                    2
                } else {
                    1
                };
                if ix.index_data_offset as u64 + ix.index_count as u64 * each > len {
                    return Err(LoadError::BufferOverrun);
                }
            },
            None => {},
        }
        *self = Object {
            attributes,
            vertex,
            index,
            sub_objects,
            comments,
            data: reader.into_inner(),
        };
        Ok(())
    }
}

impl Object {
    /// The vertex attributes; the position in the slice is the
    /// attribute's slot.
    pub fn attributes(&self) -> (r: &[VertexAttribDecl])
        ensures
            r@ == self@.attributes,
    {
        self.attributes.as_slice()
    }

    /// Where the vertex data lie, and how many vertices there are.
    pub fn vertex(&self) -> (r: VertexData)
        ensures
            r == self@.vertex,
    {
        self.vertex
    }

    /// Where the index data lie, if the mesh is indexed.
    pub fn index(&self) -> (r: Option<IndexData>)
        ensures
            r == self@.index,
    {
        self.index
    }

    /// The sub-objects.
    pub fn sub_objects(&self) -> (r: &[SubObjectDecl])
        ensures
            r@ == self@.sub_objects,
    {
        self.sub_objects.as_slice()
    }

    /// The number of sub-objects.
    pub fn num_sub_objects(&self) -> (n: usize)
        ensures
            n == self@.sub_objects.len(),
    {
        self.sub_objects.len()
    }

    /// The number of elements a draw of the whole mesh covers: the number
    /// of indices of an indexed mesh, else the number of vertices.
    pub fn num_indices(&self) -> (n: u32)
        ensures
            n == self@.num_indices(),
    {
        match self.index {
            Some(ix) => ix.index_count,
            None => self.vertex.total_vertices,
        }
    }

    /// The type of the indices; 0 for a mesh without indices.
    pub fn index_type(&self) -> (t: u32)
        ensures
            t == self@.index_type(),
    {
        match self.index {
            Some(ix) => ix.index_type,
            None => 0,
        }
    }

    /// The comments of the file, in file order; `None` stands for a
    /// comment that is not UTF-8.
    pub fn comments(&self) -> (r: &Vec<Option<String>>)
        ensures
            r.deep_view() == self@.comments,
    {
        &self.comments
    }

    /// The file.
    pub fn data(&self) -> (r: &[u8])
        ensures
            r@ == self@.data,
    {
        self.data.as_slice()
    }

    /// The vertex data: the region of the file that the mesh names.
    pub fn vertex_data(&self) -> (r: &[u8])
        ensures
            self@.vertex.end() <= self@.data.len(),
            r@ == self@.data.subrange(self@.vertex.data_offset as int, self@.vertex.end()),
    {
        proof {
            use_type_invariant(self);
        }
        let data = self.data.as_slice();
        let len = data.len();
        assert(self.vertex.end() <= len);
        let start = self.vertex.data_offset as usize;
        let end = start + self.vertex.data_size as usize;
        vstd::slice::slice_subrange(data, start, end)
    }

    /// The index data: the region of the file that the mesh names, if it
    /// is indexed.
    pub fn index_data(&self) -> (r: Option<&[u8]>)
        ensures
            match self@.index {
                Some(ix) => {
                    &&& ix.end() <= self@.data.len()
                    &&& r matches Some(s) && s@ == self@.data.subrange(
                        ix.index_data_offset as int,
                        ix.end(),
                    )
                },
                None => r is None,
            },
    {
        proof {
            use_type_invariant(self);
        }
        match self.index {
            Some(ix) => {
                let each: usize = if ix.index_type == UNSIGNED_SHORT {
                    2
                } else {
                    1
                };
                let data = self.data.as_slice();
                let len = data.len();
                assert(ix.index_count * each <= ix.end() <= len);
                let start = ix.index_data_offset as usize;
                let end = start + ix.index_count as usize * each;
                Some(vstd::slice::slice_subrange(data, start, end))
            },
            None => None,
        }
    }

    /// Forgets the mesh: afterwards `self` is as [`Object::new`] makes it.
    pub fn free(&mut self)
        ensures
            final(self)@ == ObjectModel::empty(),
    {
        *self = Object::new();
    }

    /// The draw that renders the whole mesh once.
    pub fn render(&self) -> (r: Option<DrawCall>)
        ensures
            r == self@.draw(0, 1, 0),
    {
        self.render_instances(1, 0)
    }

    /// The draw that renders `instance_count` instances of the mesh.
    pub fn render_instances(&self, instance_count: u32, base_instance: u32) -> (r: Option<
        DrawCall,
    >)
        ensures
            r == self@.draw(0, instance_count, base_instance),
    {
        self.render_sub_object(0, instance_count, base_instance)
    }

    /// The draw that renders `instance_count` instances of sub-object
    /// `object_index`; `None` where the mesh has no indices and no such
    /// sub-object.
    pub fn render_sub_object(
        &self,
        object_index: u32,
        instance_count: u32,
        base_instance: u32,
    ) -> (r: Option<DrawCall>)
        ensures
            r == self@.draw(object_index, instance_count, base_instance),
    {
        match self.index {
            Some(ix) => Some(
                DrawCall::Elements {
                    count: ix.index_count,
                    index_type: ix.index_type,
                    instance_count,
                    base_instance,
                },
            ),
            None => {
                if (object_index as usize) < self.sub_objects.len() {
                    let sub_object = self.sub_objects[object_index as usize];
                    Some(
                        DrawCall::Arrays {
                            first: sub_object.first,
                            count: sub_object.count,
                            instance_count,
                            base_instance,
                        },
                    )
                } else {
                    None
                }
            },
        }
    }
}

} // verus!
