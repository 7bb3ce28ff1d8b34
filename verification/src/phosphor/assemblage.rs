use vstd::prelude::*;

use super::components::{LineInstanceData, LineMeshData, TriangleMeshData};

verus! {

/// Alignment, in bytes, of buffer copies (`wgpu::COPY_BUFFER_ALIGNMENT`)
pub const COPY_BUFFER_ALIGNMENT: u64 = 4;

/// Bytes in a `u16` triangle index
pub const TRIANGLE_INDEX_SIZE: u64 = 2;

/// Instances each triangle mesh has room for in the instance buffer
pub const MAX_TRIANGLE_MESH_INSTANCES: u32 = 256;

/// Bytes in one triangle mesh instance (position, pad, rotation, scale, pad)
pub const TRIANGLE_MESH_INSTANCE_SIZE: u64 = 48;

/// Bytes in one line mesh instance (position, mesh, rotation, scale, pad)
pub const LINE_MESH_INSTANCE_SIZE: u64 = 48;

/// Pad a list of triangle indices with zeros, three at a time, until its size in
/// bytes is a multiple of `COPY_BUFFER_ALIGNMENT`
pub fn pad_align_triangle_list(indices: &mut Vec<u16>)
    requires
        old(indices)@.len() + 3 <= 0x1000_0000_0000_0000,
    ensures
        final(indices)@ == padded_triangle_indices(old(indices)@),
        (final(indices)@.len() * TRIANGLE_INDEX_SIZE) % COPY_BUFFER_ALIGNMENT as int == 0,
{
    let ghost start = indices@;
    while (TRIANGLE_INDEX_SIZE * indices.len() as u64) % COPY_BUFFER_ALIGNMENT > 0
        invariant
            start.len() + 3 <= 0x1000_0000_0000_0000,
            indices@ == start || (start.len() % 2 == 1 && indices@ == start + seq![
                0u16,
                0u16,
                0u16,
            ]),
        decreases (if indices@ == start {
            1int
        } else {
            0int
        }),
    {
        proof {
            if indices@ != start {
                assert(indices@.len() == start.len() + 3);
                assert((2 * (start.len() + 3)) % 4 == 0);
            }
            if start.len() % 2 == 0 {
                assert((2 * start.len()) % 4 == 0);
            }
        }
        indices.push(0);
        indices.push(0);
        indices.push(0);
        assert(indices@ =~= start + seq![0u16, 0u16, 0u16]);
    }
    proof {
        if start.len() % 2 == 1 && indices@ == start {
            assert((2 * start.len()) % 4 == 2);
        }
    }
}

/// Line indices for vertices in line-list form: one line per pair of vertices
/// (a last, unpaired vertex makes a line to the next index)
pub fn line_list_indices(vertex_count: usize) -> (res: Vec<u32>)
    requires
        vertex_count + 1 <= u32::MAX,
    ensures
        res@.len() == 2 * ((vertex_count + 1) / 2),
        forall|i: int| 0 <= i < res@.len() ==> #[trigger] res@[i] == i,
{
    let mut res: Vec<u32> = Vec::new();
    let mut vs: u32 = 0;
    let mut chunk: usize = 0;
    let chunks = (vertex_count + 1) / 2;
    while chunk < chunks
        invariant
            chunks == (vertex_count + 1) / 2,
            vertex_count + 1 <= u32::MAX,
            chunk <= chunks,
            vs == 2 * chunk,
            res@.len() == 2 * chunk,
            forall|i: int| 0 <= i < res@.len() ==> #[trigger] res@[i] == i,
        decreases chunks - chunk,
    {
        res.push(vs);
        res.push(vs + 1);
        vs += 2;
        chunk += 1;
    }
    res
}

/// Line indices for vertices in line-strip form: a line from each vertex to the
/// next, so the list reads 0, 1, 1, 2, 2, ..., n - 2, n - 1
pub fn line_strip_indices(vertex_count: usize) -> (res: Vec<u32>)
    requires
        2 <= vertex_count <= u32::MAX,
    ensures
        res@.len() == 2 * (vertex_count - 1),
        forall|j: int| 0 <= j < res@.len() ==> #[trigger] res@[j] == (j + 1) / 2,
{
    let mut out: Vec<u32> = Vec::new();
    out.push(0);
    let mut i: u32 = 1;
    let last = (vertex_count - 1) as u32;
    while i < last
        invariant
            2 <= vertex_count <= u32::MAX,
            last == vertex_count - 1,
            1 <= i <= last,
            out@.len() == 2 * i - 1,
            forall|j: int| 0 <= j < out@.len() ==> #[trigger] out@[j] == (j + 1) / 2,
        decreases last - i,
    {
        let ghost before = out@;
        out.push(i);
        out.push(i);
        assert forall|j: int| 0 <= j < out@.len() implies #[trigger] out@[j] == (j + 1) / 2 by {
            if j < before.len() {
                assert(out@[j] == before[j]);
            }
        }
        i += 1;
    }
    let ghost before = out@;
    out.push(last);
    assert forall|j: int| 0 <= j < out@.len() implies #[trigger] out@[j] == (j + 1) / 2 by {
        if j < before.len() {
            assert(out@[j] == before[j]);
        }
    }
    out
}

/// Triangle indices for vertices in triangle-list form, starting at `base_index`:
/// one triangle per three vertices (a last, partial group makes a whole triangle)
pub fn triangle_list_indices(base_index: u16, vertex_count: usize) -> (res: Vec<u16>)
    requires
        base_index + 3 * ((vertex_count + 2) / 3) <= u16::MAX,
    ensures
        res@.len() == 3 * ((vertex_count + 2) / 3),
        forall|i: int| 0 <= i < res@.len() ==> #[trigger] res@[i] == base_index + i,
{
    let mut res: Vec<u16> = Vec::new();
    let mut b: u16 = base_index;
    let chunks = vertex_count / 3 + if vertex_count % 3 == 0 {
        0
    } else {
        1
    };
    let mut chunk: usize = 0;
    while chunk < chunks
        invariant
            chunks == (vertex_count + 2) / 3,
            base_index + 3 * chunks <= u16::MAX,
            chunk <= chunks,
            b == base_index + 3 * chunk,
            res@.len() == 3 * chunk,
            forall|i: int| 0 <= i < res@.len() ==> #[trigger] res@[i] == base_index + i,
        decreases chunks - chunk,
    {
        res.push(b);
        res.push(b + 1);
        res.push(b + 2);
        b += 3;
        chunk += 1;
    }
    res
}

/// Triangle indices for vertices in triangle-fan form: each triangle joins the
/// first vertex to two consecutive others
pub fn triangle_fan_indices(base_index: u16, vertex_count: usize) -> (res: Vec<u16>)
    requires
        vertex_count >= 2,
        vertex_count == 2 || base_index + vertex_count - 1 <= u16::MAX,
    ensures
        res@.len() == 3 * (vertex_count - 2),
        forall|t: int| 0 <= t < vertex_count - 2 ==> #[trigger] res@[3 * t] == base_index,
        forall|t: int| 0 <= t < vertex_count - 2 ==> #[trigger] res@[3 * t + 1] == base_index + t + 1,
        forall|t: int| 0 <= t < vertex_count - 2 ==> #[trigger] res@[3 * t + 2] == base_index + t + 2,
{
    let mut res: Vec<u16> = Vec::new();
    let mut current: u16 = base_index;
    let n = vertex_count - 2;
    let mut k: usize = 0;
    while k < n
        invariant
            n == vertex_count - 2,
            n == 0 || base_index + vertex_count - 1 <= u16::MAX,
            k <= n,
            current == base_index + k,
            res@.len() == 3 * k,
            forall|j: int|
                0 <= j < k ==> {
                    &&& #[trigger] res@[3 * j] == base_index
                    &&& res@[3 * j + 1] == base_index + j + 1
                    &&& res@[3 * j + 2] == base_index + j + 2
                },
        decreases n - k,
    {
        let ghost before = res@;
        res.push(base_index);
        res.push(current + 1);
        res.push(current + 2);
        proof {
            assert forall|j: int| 0 <= j < k + 1 implies {
                &&& #[trigger] res@[3 * j] == base_index
                &&& res@[3 * j + 1] == base_index + j + 1
                &&& res@[3 * j + 2] == base_index + j + 2
            } by {
                if j < k {
                    assert(res@[3 * j] == before[3 * j]);
                    assert(res@[3 * j + 1] == before[3 * j + 1]);
                    assert(res@[3 * j + 2] == before[3 * j + 2]);
                }
            }
        }
        current += 1;
        k += 1;
    }
    assert forall|m: int| 0 <= m < vertex_count - 2 implies #[trigger] res@[3 * m + 1] == base_index + m + 1 by {
        assert(m < k);
        assert(res@[3 * m] == base_index);
    }
    assert forall|m: int| 0 <= m < vertex_count - 2 implies #[trigger] res@[3 * m + 2] == base_index + m + 2 by {
        assert(m < k);
        assert(res@[3 * m] == base_index);
    }
    res
}

/// One line instance per line of a mesh instance
pub fn line_instances(mesh_instance: u32, line_count: u32) -> (res: Vec<LineInstanceData>)
    ensures
        res@.len() == line_count,
        forall|i: int|
            0 <= i < line_count ==> #[trigger] res@[i] == (LineInstanceData {
                mesh_instance,
                line_index: i as u32,
            }),
{
    let mut res: Vec<LineInstanceData> = Vec::new();
    let mut i: u32 = 0;
    while i < line_count
        invariant
            i <= line_count,
            res@.len() == i,
            forall|j: int|
                0 <= j < i ==> #[trigger] res@[j] == (LineInstanceData {
                    mesh_instance,
                    line_index: j as u32,
                }),
        decreases line_count - i,
    {
        res.push(LineInstanceData { mesh_instance, line_index: i });
        i += 1;
    }
    res
}

impl LineMeshData {
    /// Where a line mesh sits in the vertex and index buffers
    pub fn new(vertex_offset: u32, vertex_count: u32, index_offset: u32, index_count: u32) -> (res: Self)
        ensures
            res == (LineMeshData { vertex_offset, vertex_count, index_offset, index_count }),
    {
        LineMeshData { vertex_offset, vertex_count, index_offset, index_count }
    }
}

impl TriangleMeshData {
    /// Draw parameters of a triangle mesh
    pub fn new(vertex_count: u32, instance_count: u32, index_offset: u32, vertex_offset: u32) -> (res: Self)
        ensures
            res == (TriangleMeshData { vertex_count, instance_count, index_offset, vertex_offset, _pad: 0 }),
    {
        TriangleMeshData { vertex_count, instance_count, index_offset, vertex_offset, _pad: 0 }
    }
}

/// Byte offsets of the position, mesh id, rotation and scale of the line mesh
/// instance at `head` in the instance buffer
pub fn line_mesh_instance_offsets(head: u64) -> (res: (u64, u64, u64, u64))
    requires
        LINE_MESH_INSTANCE_SIZE * head + 32 <= u64::MAX,
    ensures
        res.0 == LINE_MESH_INSTANCE_SIZE * head,
        res.1 == res.0 + 12,
        res.2 == res.0 + 16,
        res.3 == res.0 + 32,
{
    let base = LINE_MESH_INSTANCE_SIZE * head;
    (base, base + 12, base + 16, base + 32)
}

/// Byte offset of the next instance of triangle mesh `mesh`, whose instances so far
/// number `head`: each mesh has a block of `MAX_TRIANGLE_MESH_INSTANCES` instances
pub fn triangle_mesh_instance_offset(head: u64, mesh: u32) -> (res: u64)
    requires
        mesh * MAX_TRIANGLE_MESH_INSTANCES <= u32::MAX,
        TRIANGLE_MESH_INSTANCE_SIZE * (head + mesh * MAX_TRIANGLE_MESH_INSTANCES) <= u64::MAX,
    ensures
        res == TRIANGLE_MESH_INSTANCE_SIZE * (head + mesh * MAX_TRIANGLE_MESH_INSTANCES),
{
    let block = (mesh * MAX_TRIANGLE_MESH_INSTANCES) as u64;
    TRIANGLE_MESH_INSTANCE_SIZE * (head + block)
}

/// The indices of a triangle list as padded for a buffer copy: three zeros more
/// where the list has an odd length
pub open spec fn padded_triangle_indices(s: Seq<u16>) -> Seq<u16> {
    if s.len() % 2 == 1 {
        s + seq![0u16, 0u16, 0u16]
    } else {
        s
    }
}

/// Padding is idempotent: a padded list is padded already.
pub proof fn lemma_pad_idempotent(s: Seq<u16>)
    ensures
        padded_triangle_indices(padded_triangle_indices(s)) == padded_triangle_indices(s),
{
}

} // verus!
