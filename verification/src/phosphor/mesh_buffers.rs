use vstd::prelude::*;

use super::assemblage::{
    line_instances, line_mesh_instance_offsets, pad_align_triangle_list,
    triangle_mesh_instance_offset, padded_triangle_indices, LINE_MESH_INSTANCE_SIZE, MAX_TRIANGLE_MESH_INSTANCES,
    TRIANGLE_INDEX_SIZE, TRIANGLE_MESH_INSTANCE_SIZE,
};
use super::components::{LineInstanceData, LineMeshData, TriangleMeshData};
use crate::expression::variables::Variables;
use crate::text::str_concat;

verus! {

/// Bytes in one mesh vertex (`VertexData`: twelve `f32`s)
pub const VERTEX_SIZE: u64 = 48;

/// Bytes in one line index (`u32`)
pub const LINE_INDEX_SIZE: u64 = 4;

/// Bytes in one line mesh record (`LineMeshData`)
pub const LINE_MESH_SIZE: u64 = 16;

/// Bytes in one line instance (`LineInstanceData`)
pub const LINE_INSTANCE_SIZE: u64 = 8;

/// Bytes in one triangle mesh record (`TriangleMeshData`)
pub const TRIANGLE_MESH_SIZE: u64 = 20;

/// The GPU buffers that mesh assembly appends to
#[derive(Debug, Clone, Copy, PartialEq, Eq, Structural)]
pub enum MeshBuffer {
    Vertices,
    TriangleIndices,
    TriangleMeshes,
    TriangleMeshInstances,
    LineIndices,
    LineMeshes,
    LineMeshInstances,
    LineInstances,
}

/// A write of `count` elements at byte `offset` of a buffer
#[derive(Debug, Clone, Copy, PartialEq, Eq, Structural)]
pub struct BufferWrite {
    pub buffer: MeshBuffer,
    pub offset: u64,
    pub count: u64,
}

/// How many elements each buffer holds so far (its head: where the next write
/// goes). Triangle mesh instances are counted per triangle mesh.
pub struct MeshBufferHeads {
    pub vertices: u64,
    pub triangle_indices: u64,
    pub triangle_meshes: u64,
    pub triangle_mesh_instances: Vec<u64>,
    pub line_indices: u64,
    pub line_meshes: u64,
    pub line_mesh_instances: u64,
    pub line_instances: u64,
}

/// The write of `count` elements of `size` bytes at the head of a buffer
pub open spec fn write_at(buffer: MeshBuffer, size: u64, head: u64, count: u64) -> BufferWrite {
    BufferWrite { buffer, offset: (size * head) as u64, count }
}

/// A head moved past `count` more elements; heads are atomic counters, which wrap
pub open spec fn advanced(head: u64, count: u64) -> u64 {
    head.wrapping_add(count)
}

impl MeshBufferHeads {
    /// All buffers empty
    pub fn new() -> (res: Self)
        ensures
            res.vertices == 0,
            res.triangle_indices == 0,
            res.triangle_meshes == 0,
            res.triangle_mesh_instances@ == Seq::<u64>::empty(),
            res.line_indices == 0,
            res.line_meshes == 0,
            res.line_mesh_instances == 0,
            res.line_instances == 0,
    {
        MeshBufferHeads {
            vertices: 0,
            triangle_indices: 0,
            triangle_meshes: 0,
            triangle_mesh_instances: Vec::new(),
            line_indices: 0,
            line_meshes: 0,
            line_mesh_instances: 0,
            line_instances: 0,
        }
    }

    /// Every head but those named is that of `other`
    pub open spec fn same_except(self, other: Self, changed: Set<MeshBuffer>) -> bool {
        &&& !changed.contains(MeshBuffer::Vertices) ==> self.vertices == other.vertices
        &&& !changed.contains(MeshBuffer::TriangleIndices) ==> self.triangle_indices
            == other.triangle_indices
        &&& !changed.contains(MeshBuffer::TriangleMeshes) ==> self.triangle_meshes
            == other.triangle_meshes
        &&& !changed.contains(MeshBuffer::TriangleMeshInstances) ==> self.triangle_mesh_instances@
            == other.triangle_mesh_instances@
        &&& !changed.contains(MeshBuffer::LineIndices) ==> self.line_indices == other.line_indices
        &&& !changed.contains(MeshBuffer::LineMeshes) ==> self.line_meshes == other.line_meshes
        &&& !changed.contains(MeshBuffer::LineMeshInstances) ==> self.line_mesh_instances
            == other.line_mesh_instances
        &&& !changed.contains(MeshBuffer::LineInstances) ==> self.line_instances
            == other.line_instances
    }
}

/// Appends mesh vertices to the vertex buffer
pub enum VerticesBundle {
    Tag,
}

impl VerticesBundle {
    /// Where `vertex_count` vertices go: at the vertex head, which moves past them
    pub fn builder(heads: &mut MeshBufferHeads, vertex_count: usize) -> (res: BufferWrite)
        requires
            VERTEX_SIZE * old(heads).vertices <= u64::MAX,
        ensures
            res == write_at(MeshBuffer::Vertices, VERTEX_SIZE, old(heads).vertices, vertex_count as u64),
            final(heads).vertices == advanced(old(heads).vertices, vertex_count as u64),
            final(heads).same_except(*old(heads), set![MeshBuffer::Vertices]),
    {
        let head = heads.vertices;
        let write = BufferWrite { buffer: MeshBuffer::Vertices, offset: VERTEX_SIZE * head, count: vertex_count as u64 };
        heads.vertices = head.wrapping_add(vertex_count as u64);
        write
    }
}

/// Appends line indices to the line index buffer
pub enum LineIndicesBundle {
    Tag,
}

impl LineIndicesBundle {
    /// Where `index_count` line indices go: at the line index head, which moves past them
    pub fn builder(heads: &mut MeshBufferHeads, index_count: usize) -> (res: BufferWrite)
        requires
            LINE_INDEX_SIZE * old(heads).line_indices <= u64::MAX,
        ensures
            res == write_at(MeshBuffer::LineIndices, LINE_INDEX_SIZE, old(heads).line_indices, index_count as u64),
            final(heads).line_indices == advanced(old(heads).line_indices, index_count as u64),
            final(heads).same_except(*old(heads), set![MeshBuffer::LineIndices]),
    {
        let head = heads.line_indices;
        let write = BufferWrite {
            buffer: MeshBuffer::LineIndices,
            offset: LINE_INDEX_SIZE * head,
            count: index_count as u64,
        };
        heads.line_indices = head.wrapping_add(index_count as u64);
        write
    }
}

/// Appends a line mesh record to the line mesh buffer
pub enum LineMeshDataBundle {
    Tag,
}

impl LineMeshDataBundle {
    /// The record of a line mesh and where it goes: at the line mesh head, which
    /// moves past it
    pub fn builder(
        heads: &mut MeshBufferHeads,
        vertex_offset: u32,
        vertex_count: u32,
        index_offset: u32,
        index_count: u32,
    ) -> (res: (LineMeshData, BufferWrite))
        requires
            LINE_MESH_SIZE * old(heads).line_meshes <= u64::MAX,
        ensures
            res.0 == (LineMeshData { vertex_offset, vertex_count, index_offset, index_count }),
            res.1 == write_at(MeshBuffer::LineMeshes, LINE_MESH_SIZE, old(heads).line_meshes, 1),
            final(heads).line_meshes == advanced(old(heads).line_meshes, 1),
            final(heads).same_except(*old(heads), set![MeshBuffer::LineMeshes]),
    {
        let head = heads.line_meshes;
        let data = LineMeshData::new(vertex_offset, vertex_count, index_offset, index_count);
        let write = BufferWrite { buffer: MeshBuffer::LineMeshes, offset: LINE_MESH_SIZE * head, count: 1 };
        heads.line_meshes = head.wrapping_add(1);
        (data, write)
    }
}


/// What assembling a line mesh writes: its vertices, its indices and its record
pub struct LineMeshWrites {
    pub vertices: BufferWrite,
    pub indices: BufferWrite,
    pub mesh: LineMeshData,
    pub mesh_write: BufferWrite,
}

/// The writes of a line mesh of `vertex_count` vertices and `index_count` indices
/// appended at the heads `h`: the record names where its vertices and indices start
pub open spec fn line_mesh_writes(h: MeshBufferHeads, vertex_count: usize, index_count: usize) -> (
    BufferWrite,
    BufferWrite,
    LineMeshData,
    BufferWrite,
) {
    (
        write_at(MeshBuffer::Vertices, VERTEX_SIZE, h.vertices, vertex_count as u64),
        write_at(MeshBuffer::LineIndices, LINE_INDEX_SIZE, h.line_indices, index_count as u64),
        LineMeshData {
            vertex_offset: h.vertices as u32,
            vertex_count: vertex_count as u32,
            index_offset: h.line_indices as u32,
            index_count: index_count as u32,
        },
        write_at(MeshBuffer::LineMeshes, LINE_MESH_SIZE, h.line_meshes, 1),
    )
}

/// The heads that a line mesh append needs to be addressable in bytes
pub open spec fn line_mesh_fits(h: MeshBufferHeads) -> bool {
    &&& VERTEX_SIZE * h.vertices <= u64::MAX
    &&& LINE_INDEX_SIZE * h.line_indices <= u64::MAX
    &&& LINE_MESH_SIZE * h.line_meshes <= u64::MAX
}

/// The heads after a line mesh append
pub open spec fn after_line_mesh(
    h: MeshBufferHeads,
    h2: MeshBufferHeads,
    vertex_count: usize,
    index_count: usize,
) -> bool {
    &&& h2.vertices == advanced(h.vertices, vertex_count as u64)
    &&& h2.line_indices == advanced(h.line_indices, index_count as u64)
    &&& h2.line_meshes == advanced(h.line_meshes, 1)
    &&& h2.same_except(
        h,
        set![MeshBuffer::Vertices, MeshBuffer::LineIndices, MeshBuffer::LineMeshes],
    )
}

pub open spec fn line_mesh_writes_view(w: LineMeshWrites) -> (BufferWrite, BufferWrite, LineMeshData, BufferWrite) {
    (w.vertices, w.indices, w.mesh, w.mesh_write)
}

/// Appends a line mesh: vertices, line indices and the mesh record
pub enum LineMeshBundle {
    Tag,
}

impl LineMeshBundle {
    /// Where a line mesh goes: its vertices at the vertex head, its indices at the
    /// line index head, and a record of both at the line mesh head
    pub fn builder(heads: &mut MeshBufferHeads, vertex_count: usize, index_count: usize) -> (res: LineMeshWrites)
        requires
            line_mesh_fits(*old(heads)),
        ensures
            line_mesh_writes_view(res) == line_mesh_writes(*old(heads), vertex_count, index_count),
            after_line_mesh(*old(heads), *final(heads), vertex_count, index_count),
    {
        let vertex_offset = heads.vertices;
        let index_offset = heads.line_indices;
        let vertices = VerticesBundle::builder(heads, vertex_count);
        let indices = LineIndicesBundle::builder(heads, index_count);
        let (mesh, mesh_write) = LineMeshDataBundle::builder(
            heads,
            vertex_offset as u32,
            vertex_count as u32,
            index_offset as u32,
            index_count as u32,
        );
        LineMeshWrites { vertices, indices, mesh, mesh_write }
    }
}

/// Appends a line mesh whose vertices come in pairs, one line per pair
pub enum LineListMeshBundle {
    Tag,
}

impl LineListMeshBundle {
    /// The line indices of a line list (see `line_list_indices`) and where the mesh goes
    pub fn builder(heads: &mut MeshBufferHeads, vertex_count: usize) -> (res: (Vec<u32>, LineMeshWrites))
        requires
            vertex_count + 1 <= u32::MAX,
            line_mesh_fits(*old(heads)),
        ensures
            res.0@.len() == 2 * ((vertex_count + 1) / 2),
            forall|i: int| 0 <= i < res.0@.len() ==> #[trigger] res.0@[i] == i,
            line_mesh_writes_view(res.1) == line_mesh_writes(*old(heads), vertex_count, res.0@.len() as usize),
            after_line_mesh(*old(heads), *final(heads), vertex_count, res.0@.len() as usize),
    {
        let indices = super::assemblage::line_list_indices(vertex_count);
        let writes = LineMeshBundle::builder(heads, vertex_count, indices.len());
        (indices, writes)
    }
}

/// Appends a line mesh whose vertices form a strip, one line from each to the next
pub enum LineStripMeshBundle {
    Tag,
}

impl LineStripMeshBundle {
    /// The line indices of a line strip (see `line_strip_indices`) and where the mesh goes
    pub fn builder(heads: &mut MeshBufferHeads, vertex_count: usize) -> (res: (Vec<u32>, LineMeshWrites))
        requires
            2 <= vertex_count <= u32::MAX,
            line_mesh_fits(*old(heads)),
        ensures
            res.0@.len() == 2 * (vertex_count - 1),
            forall|j: int| 0 <= j < res.0@.len() ==> #[trigger] res.0@[j] == (j + 1) / 2,
            line_mesh_writes_view(res.1) == line_mesh_writes(*old(heads), vertex_count, res.0@.len() as usize),
            after_line_mesh(*old(heads), *final(heads), vertex_count, res.0@.len() as usize),
    {
        let indices = super::assemblage::line_strip_indices(vertex_count);
        let writes = LineMeshBundle::builder(heads, vertex_count, indices.len());
        (indices, writes)
    }
}

/// The start of the mesh name of an oscilloscope
pub open spec fn oscilloscope_prefix() -> Seq<char> {
    seq!['o', 's', 'c', 'i', 'l', 'l', 'o', 's', 'c', 'o', 'p', 'e', '_']
}

/// The mesh name of the box bot
pub open spec fn box_bot_key() -> Seq<char> {
    seq!['b', 'o', 'x', '_', 'b', 'o', 't']
}

/// Appends the two-vertex line mesh of an oscilloscope
pub enum OscilloscopeMeshBundle {
    Tag,
}

impl OscilloscopeMeshBundle {
    /// The line mesh id of the oscilloscope (the line mesh head, as 32 bits, with
    /// one line), registered under `oscilloscope_<name>`, its indices `[0, 1]`, and
    /// where its mesh goes
    pub fn builder(
        heads: &mut MeshBufferHeads,
        mesh_ids: &mut Variables<MeshIdEntry>,
        name: &str,
    ) -> (res: ((u32, u32), Vec<u32>, LineMeshWrites))
        requires
            line_mesh_fits(*old(heads)),
        ensures
            res.0 == (old(heads).line_meshes as u32, 1u32),
            final(mesh_ids).map() == old(mesh_ids).map().insert(
                oscilloscope_prefix() + name@,
                (None, Some((old(heads).line_meshes as u32, 1u32))),
            ),
            res.1@ == seq![0u32, 1u32],
            line_mesh_writes_view(res.2) == line_mesh_writes(*old(heads), 2, 2),
            after_line_mesh(*old(heads), *final(heads), 2, 2),
    {
        let line_mesh = heads.line_meshes as u32;
        proof {
            reveal_strlit("oscilloscope_");
            assert("oscilloscope_"@ =~= oscilloscope_prefix());
        }
        let key = str_concat("oscilloscope_", name);
        register_mesh_ids(mesh_ids, key, None, Some((line_mesh, 1)));
        let mut indices: Vec<u32> = Vec::new();
        indices.push(0);
        indices.push(1);
        let writes = LineMeshBundle::builder(heads, 2, 2);
        ((line_mesh, 1), indices, writes)
    }
}

/// What placing a line mesh instance writes
pub struct LineMeshInstanceWrites {
    pub position: BufferWrite,
    pub mesh: BufferWrite,
    pub rotation: BufferWrite,
    pub scale: BufferWrite,
    /// The index of the instance among line mesh instances
    pub mesh_instance: u32,
    /// One record per line of the mesh
    pub lines: Vec<LineInstanceData>,
    pub lines_write: BufferWrite,
}

/// The writes of an instance of a line mesh of `line_count` lines placed at the
/// heads `h`: position, mesh id, rotation and scale in the instance record at the
/// line mesh instance head, and one line instance per line at the line instance head
pub open spec fn line_mesh_instance_placed(h: MeshBufferHeads, line_count: u32, res: LineMeshInstanceWrites) -> bool {
    let base = LINE_MESH_INSTANCE_SIZE * h.line_mesh_instances;
    &&& res.position == (BufferWrite { buffer: MeshBuffer::LineMeshInstances, offset: base as u64, count: 1 })
    &&& res.mesh == (BufferWrite { buffer: MeshBuffer::LineMeshInstances, offset: (base + 12) as u64, count: 1 })
    &&& res.rotation == (BufferWrite { buffer: MeshBuffer::LineMeshInstances, offset: (base + 16) as u64, count: 1 })
    &&& res.scale == (BufferWrite { buffer: MeshBuffer::LineMeshInstances, offset: (base + 32) as u64, count: 1 })
    &&& res.mesh_instance == h.line_mesh_instances as u32
    &&& res.lines@.len() == line_count
    &&& forall|i: int|
        0 <= i < line_count ==> #[trigger] res.lines@[i] == (LineInstanceData {
            mesh_instance: h.line_mesh_instances as u32,
            line_index: i as u32,
        })
    &&& res.lines_write == write_at(
        MeshBuffer::LineInstances,
        LINE_INSTANCE_SIZE,
        h.line_instances,
        line_count as u64,
    )
}

/// Places an instance of a line mesh
pub enum LineMeshInstanceBundle {
    Tag,
}

impl LineMeshInstanceBundle {
    /// Where an instance of a line mesh of `line_count` lines goes: its position,
    /// mesh id, rotation and scale in the instance record at the line mesh instance
    /// head, and one line instance per line at the line instance head
    pub fn builder(heads: &mut MeshBufferHeads, line_count: u32) -> (res: LineMeshInstanceWrites)
        requires
            LINE_MESH_INSTANCE_SIZE * old(heads).line_mesh_instances + 32 <= u64::MAX,
            LINE_INSTANCE_SIZE * old(heads).line_instances <= u64::MAX,
        ensures
            line_mesh_instance_placed(*old(heads), line_count, res),
            final(heads).line_mesh_instances == advanced(old(heads).line_mesh_instances, 1),
            final(heads).line_instances == advanced(old(heads).line_instances, line_count as u64),
            final(heads).same_except(
                *old(heads),
                set![MeshBuffer::LineMeshInstances, MeshBuffer::LineInstances],
            ),
    {
        let head = heads.line_mesh_instances;
        let (p, m, r, s) = line_mesh_instance_offsets(head);
        let position = BufferWrite { buffer: MeshBuffer::LineMeshInstances, offset: p, count: 1 };
        let mesh = BufferWrite { buffer: MeshBuffer::LineMeshInstances, offset: m, count: 1 };
        let rotation = BufferWrite { buffer: MeshBuffer::LineMeshInstances, offset: r, count: 1 };
        let scale = BufferWrite { buffer: MeshBuffer::LineMeshInstances, offset: s, count: 1 };
        let mesh_instance = head as u32;
        heads.line_mesh_instances = head.wrapping_add(1);
        let line_head = heads.line_instances;
        let lines = line_instances(mesh_instance, line_count);
        let lines_write = BufferWrite {
            buffer: MeshBuffer::LineInstances,
            offset: LINE_INSTANCE_SIZE * line_head,
            count: line_count as u64,
        };
        heads.line_instances = line_head.wrapping_add(line_count as u64);
        LineMeshInstanceWrites { position, mesh, rotation, scale, mesh_instance, lines, lines_write }
    }
}


/// What assembling a triangle mesh writes: its vertices and its padded indices
pub struct TriangleMeshWrites {
    pub indices: Vec<u16>,
    pub vertices: BufferWrite,
    pub indices_write: BufferWrite,
}

/// The heads that a triangle mesh append needs to be addressable in bytes
pub open spec fn triangle_mesh_fits(h: MeshBufferHeads, index_count: nat) -> bool {
    &&& VERTEX_SIZE * h.vertices <= u64::MAX
    &&& TRIANGLE_INDEX_SIZE * h.triangle_indices <= u64::MAX
    &&& index_count + 3 <= 0x1000_0000_0000_0000
}

/// The writes and heads of a triangle mesh append: the vertices at the vertex head,
/// the padded indices at the triangle index head
pub open spec fn triangle_mesh_appended(
    h: MeshBufferHeads,
    h2: MeshBufferHeads,
    vertex_count: usize,
    indices: Seq<u16>,
    res: TriangleMeshWrites,
) -> bool {
    let padded = padded_triangle_indices(indices);
    &&& res.indices@ == padded
    &&& res.vertices == write_at(MeshBuffer::Vertices, VERTEX_SIZE, h.vertices, vertex_count as u64)
    &&& res.indices_write == write_at(
        MeshBuffer::TriangleIndices,
        TRIANGLE_INDEX_SIZE,
        h.triangle_indices,
        padded.len() as u64,
    )
    &&& h2.vertices == advanced(h.vertices, vertex_count as u64)
    &&& h2.triangle_indices == advanced(h.triangle_indices, padded.len() as u64)
    &&& h2.same_except(h, set![MeshBuffer::Vertices, MeshBuffer::TriangleIndices])
}

/// Appends a triangle mesh: vertices and triangle indices
pub enum TriangleMeshBundle {
    Tag,
}

impl TriangleMeshBundle {
    /// Where a triangle mesh goes: its vertices at the vertex head, its indices,
    /// padded for buffer copies, at the triangle index head
    pub fn builder(heads: &mut MeshBufferHeads, vertex_count: usize, indices: Vec<u16>) -> (res: TriangleMeshWrites)
        requires
            triangle_mesh_fits(*old(heads), indices@.len()),
        ensures
            triangle_mesh_appended(*old(heads), *final(heads), vertex_count, indices@, res),
    {
        let vertices = VerticesBundle::builder(heads, vertex_count);
        let mut indices = indices;
        pad_align_triangle_list(&mut indices);
        let head = heads.triangle_indices;
        let indices_write = BufferWrite {
            buffer: MeshBuffer::TriangleIndices,
            offset: TRIANGLE_INDEX_SIZE * head,
            count: indices.len() as u64,
        };
        heads.triangle_indices = head.wrapping_add(indices.len() as u64);
        TriangleMeshWrites { indices, vertices, indices_write }
    }
}

/// Appends a triangle mesh record, and opens a block of instances for the mesh
pub enum TriangleMeshDataBundle {
    Tag,
}

impl TriangleMeshDataBundle {
    /// The record of a triangle mesh, where it goes (the triangle mesh head, which
    /// is also the index of the mesh's indirect draw), and a new, empty instance
    /// count for the mesh
    pub fn builder(
        heads: &mut MeshBufferHeads,
        vertex_count: u32,
        instance_count: u32,
        index_offset: u32,
        vertex_offset: u32,
    ) -> (res: (TriangleMeshData, BufferWrite, u64))
        requires
            TRIANGLE_MESH_SIZE * old(heads).triangle_meshes <= u64::MAX,
        ensures
            res.0 == (TriangleMeshData { vertex_count, instance_count, index_offset, vertex_offset, _pad: 0 }),
            res.1 == write_at(MeshBuffer::TriangleMeshes, TRIANGLE_MESH_SIZE, old(heads).triangle_meshes, 1),
            res.2 == old(heads).triangle_meshes,
            final(heads).triangle_meshes == advanced(old(heads).triangle_meshes, 1),
            final(heads).triangle_mesh_instances@ == old(heads).triangle_mesh_instances@.push(0),
            final(heads).same_except(
                *old(heads),
                set![MeshBuffer::TriangleMeshes, MeshBuffer::TriangleMeshInstances],
            ),
    {
        let head = heads.triangle_meshes;
        let data = TriangleMeshData::new(vertex_count, instance_count, index_offset, vertex_offset);
        let write = BufferWrite {
            buffer: MeshBuffer::TriangleMeshes,
            offset: TRIANGLE_MESH_SIZE * head,
            count: 1,
        };
        heads.triangle_meshes = head.wrapping_add(1);
        heads.triangle_mesh_instances.push(0);
        (data, write, head)
    }
}

/// The writes of the next instance of triangle mesh `mesh` placed at the heads `h`:
/// position, rotation and scale in the record after the mesh's instances so far,
/// inside the mesh's block of `MAX_TRIANGLE_MESH_INSTANCES` records
pub open spec fn triangle_mesh_instance_placed(
    h: MeshBufferHeads,
    mesh: u32,
    res: (BufferWrite, BufferWrite, BufferWrite),
) -> bool {
    let count = h.triangle_mesh_instances@[mesh as int];
    let base = TRIANGLE_MESH_INSTANCE_SIZE * (count + mesh * MAX_TRIANGLE_MESH_INSTANCES);
    &&& res.0 == (BufferWrite { buffer: MeshBuffer::TriangleMeshInstances, offset: base as u64, count: 1 })
    &&& res.1 == (BufferWrite { buffer: MeshBuffer::TriangleMeshInstances, offset: (base + 16) as u64, count: 1 })
    &&& res.2 == (BufferWrite { buffer: MeshBuffer::TriangleMeshInstances, offset: (base + 32) as u64, count: 1 })
}

/// Places an instance of a triangle mesh
pub enum TriangleMeshInstanceDataBundle {
    Tag,
}

impl TriangleMeshInstanceDataBundle {
    /// Where the next instance of triangle mesh `mesh` goes: its position, rotation
    /// and scale in the instance record after the mesh's instances so far, inside
    /// the mesh's block of `MAX_TRIANGLE_MESH_INSTANCES` records
    pub fn builder(heads: &mut MeshBufferHeads, mesh: u32) -> (res: (BufferWrite, BufferWrite, BufferWrite))
        requires
            mesh < old(heads).triangle_mesh_instances@.len(),
            mesh * MAX_TRIANGLE_MESH_INSTANCES <= u32::MAX,
            TRIANGLE_MESH_INSTANCE_SIZE * (old(heads).triangle_mesh_instances@[mesh as int] + mesh
                * MAX_TRIANGLE_MESH_INSTANCES) + 32 <= u64::MAX,
            old(heads).triangle_mesh_instances@[mesh as int] < u64::MAX,
        ensures
            triangle_mesh_instance_placed(*old(heads), mesh, res),
            final(heads).triangle_mesh_instances@ == old(heads).triangle_mesh_instances@.update(
                mesh as int,
                (old(heads).triangle_mesh_instances@[mesh as int] + 1) as u64,
            ),
            final(heads).same_except(*old(heads), set![MeshBuffer::TriangleMeshInstances]),
    {
        let i = mesh as usize;
        let count = heads.triangle_mesh_instances[i];
        let base = triangle_mesh_instance_offset(count, mesh);
        let position = BufferWrite { buffer: MeshBuffer::TriangleMeshInstances, offset: base, count: 1 };
        let rotation = BufferWrite { buffer: MeshBuffer::TriangleMeshInstances, offset: base + 16, count: 1 };
        let scale = BufferWrite { buffer: MeshBuffer::TriangleMeshInstances, offset: base + 32, count: 1 };
        heads.triangle_mesh_instances.set(i, count + 1);
        (position, rotation, scale)
    }
}

/// Appends a triangle mesh whose vertices come in threes, one triangle per three
pub enum TriangleListMeshBundle {
    Tag,
}

impl TriangleListMeshBundle {
    /// The triangle indices of a triangle list from `base_index` (see
    /// `triangle_list_indices`) and where the mesh goes
    pub fn builder(heads: &mut MeshBufferHeads, base_index: u16, vertex_count: usize) -> (res: TriangleMeshWrites)
        requires
            base_index + 3 * ((vertex_count + 2) / 3) <= u16::MAX,
            VERTEX_SIZE * old(heads).vertices <= u64::MAX,
            TRIANGLE_INDEX_SIZE * old(heads).triangle_indices <= u64::MAX,
        ensures
            exists|indices: Seq<u16>|
                {
                    &&& indices.len() == 3 * ((vertex_count + 2) / 3)
                    &&& forall|i: int| 0 <= i < indices.len() ==> #[trigger] indices[i] == base_index + i
                    &&& triangle_mesh_appended(*old(heads), *final(heads), vertex_count, indices, res)
                },
    {
        let indices = super::assemblage::triangle_list_indices(base_index, vertex_count);
        let ghost iv = indices@;
        let res = TriangleMeshBundle::builder(heads, vertex_count, indices);
        assert(triangle_mesh_appended(*old(heads), *heads, vertex_count, iv, res));
        res
    }
}

/// Appends a triangle mesh whose vertices form a fan around the first
pub enum TriangleFanMeshBundle {
    Tag,
}

impl TriangleFanMeshBundle {
    /// The triangle indices of a triangle fan from `base_index` (see
    /// `triangle_fan_indices`) and where the mesh goes
    pub fn builder(heads: &mut MeshBufferHeads, base_index: u16, vertex_count: usize) -> (res: TriangleMeshWrites)
        requires
            vertex_count >= 2,
            vertex_count == 2 || base_index + vertex_count - 1 <= u16::MAX,
            VERTEX_SIZE * old(heads).vertices <= u64::MAX,
            TRIANGLE_INDEX_SIZE * old(heads).triangle_indices <= u64::MAX,
        ensures
            exists|indices: Seq<u16>|
                {
                    &&& indices.len() == 3 * (vertex_count - 2)
                    &&& forall|t: int| 0 <= t < vertex_count - 2 ==> #[trigger] indices[3 * t] == base_index
                    &&& forall|t: int| 0 <= t < vertex_count - 2 ==> #[trigger] indices[3 * t + 1] == base_index + t + 1
                    &&& forall|t: int| 0 <= t < vertex_count - 2 ==> #[trigger] indices[3 * t + 2] == base_index + t + 2
                    &&& triangle_mesh_appended(*old(heads), *final(heads), vertex_count, indices, res)
                },
    {
        let indices = super::assemblage::triangle_fan_indices(base_index, vertex_count);
        let ghost iv = indices@;
        let res = TriangleMeshBundle::builder(heads, vertex_count, indices);
        assert(triangle_mesh_appended(*old(heads), *heads, vertex_count, iv, res));
        res
    }
}


/// The triangle indices of the box bot: a body cube of eight vertices and a
/// second, smaller cube of eight more, twelve triangles each
pub open spec fn box_bot_indices() -> Seq<u16> {
    let cube = seq![
        0u16, 1, 2, 0, 2, 3, 4, 7, 5, 7, 6, 5, 3, 2, 6, 3, 6, 7, 0, 5, 1, 0, 4, 5, 0, 3, 7, 0,
        7, 4, 1, 5, 6, 1, 6, 2,
    ];
    cube + cube.map_values(|i: u16| (i + 8) as u16)
}

fn box_bot_index_list() -> (res: Vec<u16>)
    ensures
        res@ == box_bot_indices(),
{
    let cube: Vec<u16> = vec![
        0, 1, 2, 0, 2, 3, 4, 7, 5, 7, 6, 5, 3, 2, 6, 3, 6, 7, 0, 5, 1, 0, 4, 5, 0, 3, 7, 0, 7, 4,
        1, 5, 6, 1, 6, 2,
    ];
    let mut res: Vec<u16> = Vec::new();
    let mut i: usize = 0;
    while i < cube.len()
        invariant
            i <= cube@.len(),
            res@ == cube@.take(i as int),
        decreases cube.len() - i,
    {
        res.push(cube[i]);
        assert(res@ =~= cube@.take(i + 1));
        i += 1;
    }
    let mut j: usize = 0;
    while j < cube.len()
        invariant
            j <= cube@.len(),
            cube@.len() == 36,
            forall|k: int| 0 <= k < 36 ==> #[trigger] cube@[k] < 8,
            res@ == cube@ + cube@.take(j as int).map_values(|x: u16| (x + 8) as u16),
        decreases cube.len() - j,
    {
        let v = cube[j];
        res.push(v + 8);
        assert(res@ =~= cube@ + cube@.take(j + 1).map_values(|x: u16| (x + 8) as u16));
        j += 1;
    }
    assert(cube@.take(36) =~= cube@);
    res
}

/// What assembling the box bot writes
pub struct BoxBotWrites {
    /// The triangle mesh id registered for the box bot
    pub triangle_mesh: u32,
    /// The line mesh id registered for the box bot, with its number of lines
    pub line_mesh: (u32, u32),
    pub body: TriangleMeshWrites,
    pub body_mesh: TriangleMeshData,
    pub body_mesh_write: BufferWrite,
    /// The index of the body's indirect draw
    pub indirect: u64,
    pub line_indices: Vec<u32>,
    pub lines: LineMeshWrites,
}

/// Appends the box bot: a triangle mesh of two cubes and a line mesh of the
/// outline of the body cube
pub enum BoxBotMeshBundle {
    Tag,
}

impl BoxBotMeshBundle {
    /// The mesh ids of the box bot, registered under `box_bot`, and where its meshes go: sixteen vertices and
    /// seventy-two triangle indices with their record, then a line list of
    /// twenty-four vertices
    pub fn builders(heads: &mut MeshBufferHeads, mesh_ids: &mut Variables<MeshIdEntry>) -> (res: BoxBotWrites)
        requires
            old(heads).vertices + 16 <= u64::MAX,
            VERTEX_SIZE * (old(heads).vertices + 16) <= u64::MAX,
            TRIANGLE_INDEX_SIZE * old(heads).triangle_indices <= u64::MAX,
            TRIANGLE_MESH_SIZE * old(heads).triangle_meshes <= u64::MAX,
            line_mesh_fits(*old(heads)),
        ensures
            ({
                let h = *old(heads);
                let line_vertices = (h.vertices + 16) as u64;
                &&& res.triangle_mesh == h.triangle_meshes as u32
                &&& res.line_mesh == (h.line_meshes as u32, 12u32)
                &&& final(mesh_ids).map() == old(mesh_ids).map().insert(
                    box_bot_key(),
                    (Some(h.triangle_meshes as u32), Some((h.line_meshes as u32, 12u32))),
                )
                &&& res.body.indices@ == box_bot_indices()
                &&& res.body.vertices == write_at(MeshBuffer::Vertices, VERTEX_SIZE, h.vertices, 16)
                &&& res.body.indices_write == write_at(
                    MeshBuffer::TriangleIndices,
                    TRIANGLE_INDEX_SIZE,
                    h.triangle_indices,
                    72,
                )
                &&& res.body_mesh == (TriangleMeshData {
                    vertex_count: 72,
                    instance_count: 0,
                    index_offset: h.triangle_indices as u32,
                    vertex_offset: h.vertices as u32,
                    _pad: 0,
                })
                &&& res.body_mesh_write == write_at(
                    MeshBuffer::TriangleMeshes,
                    TRIANGLE_MESH_SIZE,
                    h.triangle_meshes,
                    1,
                )
                &&& res.indirect == h.triangle_meshes
                &&& res.line_indices@.len() == 24
                &&& forall|i: int| 0 <= i < 24 ==> #[trigger] res.line_indices@[i] == i
                &&& res.lines.vertices == write_at(MeshBuffer::Vertices, VERTEX_SIZE, line_vertices, 24)
                &&& res.lines.indices == write_at(
                    MeshBuffer::LineIndices,
                    LINE_INDEX_SIZE,
                    h.line_indices,
                    24,
                )
                &&& res.lines.mesh == (LineMeshData {
                    vertex_offset: line_vertices as u32,
                    vertex_count: 24,
                    index_offset: h.line_indices as u32,
                    index_count: 24,
                })
                &&& res.lines.mesh_write == write_at(MeshBuffer::LineMeshes, LINE_MESH_SIZE, h.line_meshes, 1)
                &&& final(heads).vertices == advanced(line_vertices, 24)
                &&& final(heads).triangle_indices == advanced(h.triangle_indices, 72)
                &&& final(heads).triangle_meshes == advanced(h.triangle_meshes, 1)
                &&& final(heads).triangle_mesh_instances@ == h.triangle_mesh_instances@.push(0)
                &&& final(heads).line_indices == advanced(h.line_indices, 24)
                &&& final(heads).line_meshes == advanced(h.line_meshes, 1)
                &&& final(heads).line_mesh_instances == h.line_mesh_instances
                &&& final(heads).line_instances == h.line_instances
            }),
    {
        let triangle_mesh = heads.triangle_meshes as u32;
        let line_mesh = (heads.line_meshes as u32, 12u32);
        proof {
            reveal_strlit("box_bot");
            assert("box_bot"@ =~= box_bot_key());
        }
        register_mesh_ids(mesh_ids, "box_bot".to_owned(), Some(triangle_mesh), Some(line_mesh));
        let base_vertex = heads.vertices as u32;
        let base_triangle_index = heads.triangle_indices as u32;
        let indices = box_bot_index_list();
        let body = TriangleMeshBundle::builder(heads, 16, indices);
        assert(box_bot_indices().len() % 2 == 0);
        let (body_mesh, body_mesh_write, indirect) = TriangleMeshDataBundle::builder(
            heads,
            36 * 2,
            0,
            base_triangle_index,
            base_vertex,
        );
        let (line_indices, lines) = LineListMeshBundle::builder(heads, 24);
        BoxBotWrites {
            triangle_mesh,
            line_mesh,
            body,
            body_mesh,
            body_mesh_write,
            indirect,
            line_indices,
            lines,
        }
    }
}


/// Two line meshes appended one after the other lie side by side in every buffer:
/// the second's vertices, indices and record start where the first's end, so no
/// appended data overlaps or leaves a gap (where no head wraps around).
pub proof fn lemma_line_meshes_adjacent(
    h0: MeshBufferHeads,
    h1: MeshBufferHeads,
    vertex_count1: usize,
    index_count1: usize,
    vertex_count2: usize,
    index_count2: usize,
)
    requires
        after_line_mesh(h0, h1, vertex_count1, index_count1),
        h0.vertices + vertex_count1 <= u64::MAX,
        h0.line_indices + index_count1 <= u64::MAX,
        h0.line_meshes + 1 <= u64::MAX,
        line_mesh_fits(h0),
        line_mesh_fits(h1),
    ensures
        ({
            let first = line_mesh_writes(h0, vertex_count1, index_count1);
            let second = line_mesh_writes(h1, vertex_count2, index_count2);
            &&& second.0.offset == first.0.offset + VERTEX_SIZE * vertex_count1
            &&& second.1.offset == first.1.offset + LINE_INDEX_SIZE * index_count1
            &&& second.3.offset == first.3.offset + LINE_MESH_SIZE
        }),
{
    assert(h1.vertices == h0.vertices + vertex_count1);
    assert(h1.line_indices == h0.line_indices + index_count1);
    assert(h1.line_meshes == h0.line_meshes + 1);
    assert(VERTEX_SIZE * h1.vertices == VERTEX_SIZE * h0.vertices + VERTEX_SIZE * vertex_count1)
        by (nonlinear_arith)
        requires
            h1.vertices == h0.vertices + vertex_count1,
    ;
    assert(LINE_INDEX_SIZE * h1.line_indices == LINE_INDEX_SIZE * h0.line_indices + LINE_INDEX_SIZE
        * index_count1) by (nonlinear_arith)
        requires
            h1.line_indices == h0.line_indices + index_count1,
    ;
}

/// The record of a line mesh locates the mesh's own data: its vertex and index
/// offsets, scaled to bytes, are where its vertices and indices were written
/// (where the heads fit in the record's 32 bits).
pub proof fn lemma_line_mesh_record_locates_data(h: MeshBufferHeads, vertex_count: usize, index_count: usize)
    requires
        h.vertices <= u32::MAX,
        h.line_indices <= u32::MAX,
    ensures
        ({
            let w = line_mesh_writes(h, vertex_count, index_count);
            &&& VERTEX_SIZE * w.2.vertex_offset == w.0.offset
            &&& LINE_INDEX_SIZE * w.2.index_offset == w.1.offset
        }),
{
    assert(VERTEX_SIZE * h.vertices <= u64::MAX) by (nonlinear_arith)
        requires
            h.vertices <= u32::MAX,
    ;
    assert(LINE_INDEX_SIZE * h.line_indices <= u64::MAX) by (nonlinear_arith)
        requires
            h.line_indices <= u32::MAX,
    ;
}


/// The meshes registered under a name: a triangle mesh id, and a line mesh id with
/// its number of lines
pub type MeshIdEntry = (Option<u32>, Option<(u32, u32)>);

/// What placing an instance of a named mesh writes: a triangle mesh instance where
/// the name has a triangle mesh, a line mesh instance where it has a line mesh
pub struct MeshInstanceWrites {
    pub triangle: Option<(BufferWrite, BufferWrite, BufferWrite)>,
    pub line: Option<LineMeshInstanceWrites>,
}

/// The heads allow an instance of the meshes `ids`
pub open spec fn mesh_instance_fits(h: MeshBufferHeads, ids: MeshIdEntry) -> bool {
    &&& ids.0 matches Some(t) ==> {
        &&& t < h.triangle_mesh_instances@.len()
        &&& t * MAX_TRIANGLE_MESH_INSTANCES <= u32::MAX
        &&& TRIANGLE_MESH_INSTANCE_SIZE * (h.triangle_mesh_instances@[t as int] + t
            * MAX_TRIANGLE_MESH_INSTANCES) + 32 <= u64::MAX
        &&& h.triangle_mesh_instances@[t as int] < u64::MAX
    }
    &&& ids.1 is Some ==> {
        &&& LINE_MESH_INSTANCE_SIZE * h.line_mesh_instances + 32 <= u64::MAX
        &&& LINE_INSTANCE_SIZE * h.line_instances <= u64::MAX
    }
}

/// Place an instance of the mesh registered under `mesh`: first its triangle mesh,
/// if any, then its line mesh, if any
pub fn mesh_instance_builders(
    heads: &mut MeshBufferHeads,
    mesh_ids: &Variables<MeshIdEntry>,
    mesh: &String,
) -> (res: MeshInstanceWrites)
    requires
        mesh_ids.map().contains_key(mesh@),
        mesh_instance_fits(*old(heads), mesh_ids.map()[mesh@]),
    ensures
        ({
            let ids = mesh_ids.map()[mesh@];
            &&& res.triangle is Some <==> ids.0 is Some
            &&& res.line is Some <==> ids.1 is Some
            &&& ids.0 matches Some(t) ==> {
                &&& triangle_mesh_instance_placed(*old(heads), t, res.triangle.unwrap())
                &&& final(heads).triangle_mesh_instances@ == old(heads).triangle_mesh_instances@.update(
                    t as int,
                    (old(heads).triangle_mesh_instances@[t as int] + 1) as u64,
                )
            }
            &&& ids.0 is None ==> final(heads).triangle_mesh_instances@ == old(
                heads,
            ).triangle_mesh_instances@
            &&& ids.1 matches Some((_, line_count)) ==> {
                &&& line_mesh_instance_placed(*old(heads), line_count, res.line.unwrap())
                &&& final(heads).line_mesh_instances == advanced(old(heads).line_mesh_instances, 1)
                &&& final(heads).line_instances == advanced(
                    old(heads).line_instances,
                    line_count as u64,
                )
            }
            &&& ids.1 is None ==> final(heads).line_mesh_instances == old(heads).line_mesh_instances
                && final(heads).line_instances == old(heads).line_instances
        }),
        final(heads).same_except(
            *old(heads),
            set![
                MeshBuffer::TriangleMeshInstances,
                MeshBuffer::LineMeshInstances,
                MeshBuffer::LineInstances,
            ],
        ),
{
    let ids = *mesh_ids.get(mesh).unwrap();
    let triangle = match ids.0 {
        Some(t) => Some(TriangleMeshInstanceDataBundle::builder(heads, t)),
        None => None,
    };
    let line = match ids.1 {
        Some((_, line_count)) => Some(LineMeshInstanceBundle::builder(heads, line_count)),
        None => None,
    };
    MeshInstanceWrites { triangle, line }
}


/// Register the meshes of a name, replacing what was registered under it
pub fn register_mesh_ids(
    mesh_ids: &mut Variables<MeshIdEntry>,
    key: String,
    triangle_mesh: Option<u32>,
    line_mesh: Option<(u32, u32)>,
)
    ensures
        final(mesh_ids).map() == old(mesh_ids).map().insert(key@, (triangle_mesh, line_mesh)),
{
    mesh_ids.insert(key, (triangle_mesh, line_mesh));
}

} // verus!
