use antigen::expression::variables::Variables;
use antigen::phosphor::assemblage::line_strip_indices;
use antigen::phosphor::mesh_buffers::{
    mesh_instance_builders, register_mesh_ids, BoxBotMeshBundle, BufferWrite, LineIndicesBundle,
    LineListMeshBundle, LineMeshBundle, LineMeshDataBundle, LineMeshInstanceBundle,
    LineStripMeshBundle, MeshBuffer, MeshBufferHeads, MeshIdEntry, OscilloscopeMeshBundle,
    TriangleFanMeshBundle, TriangleListMeshBundle, TriangleMeshBundle, TriangleMeshDataBundle,
    TriangleMeshInstanceDataBundle, VerticesBundle,
};

fn w(buffer: MeshBuffer, offset: u64, count: u64) -> BufferWrite {
    BufferWrite { buffer, offset, count }
}

#[test]
fn vertices_append_at_head() {
    let mut h = MeshBufferHeads::new();
    assert_eq!(VerticesBundle::builder(&mut h, 3), w(MeshBuffer::Vertices, 0, 3));
    assert_eq!(VerticesBundle::builder(&mut h, 2), w(MeshBuffer::Vertices, 144, 2));
    assert_eq!(h.vertices, 5);
    assert_eq!(LineIndicesBundle::builder(&mut h, 4), w(MeshBuffer::LineIndices, 0, 4));
    assert_eq!(LineIndicesBundle::builder(&mut h, 4), w(MeshBuffer::LineIndices, 16, 4));
    assert_eq!(h.line_indices, 8);
}

#[test]
fn line_mesh_records_its_data() {
    let mut h = MeshBufferHeads::new();
    h.vertices = 10;
    h.line_indices = 6;
    h.line_meshes = 2;
    let m = LineMeshBundle::builder(&mut h, 4, 8);
    assert_eq!(m.vertices, w(MeshBuffer::Vertices, 480, 4));
    assert_eq!(m.indices, w(MeshBuffer::LineIndices, 24, 8));
    assert_eq!(
        (m.mesh.vertex_offset, m.mesh.vertex_count, m.mesh.index_offset, m.mesh.index_count),
        (10, 4, 6, 8)
    );
    assert_eq!(m.mesh_write, w(MeshBuffer::LineMeshes, 32, 1));
    assert_eq!((h.vertices, h.line_indices, h.line_meshes), (14, 14, 3));
    // The next mesh starts where this one ended
    let n = LineMeshBundle::builder(&mut h, 1, 2);
    assert_eq!(n.vertices.offset, m.vertices.offset + 48 * 4);
    assert_eq!(n.indices.offset, m.indices.offset + 4 * 8);
    assert_eq!(n.mesh_write.offset, m.mesh_write.offset + 16);
}

#[test]
fn line_mesh_record_direct() {
    let mut h = MeshBufferHeads::new();
    let (d, write) = LineMeshDataBundle::builder(&mut h, 1, 2, 3, 4);
    assert_eq!((d.vertex_offset, d.vertex_count, d.index_offset, d.index_count), (1, 2, 3, 4));
    assert_eq!(write, w(MeshBuffer::LineMeshes, 0, 1));
    assert_eq!(h.line_meshes, 1);
}

#[test]
fn line_list_and_strip() {
    let mut h = MeshBufferHeads::new();
    let (indices, m) = LineListMeshBundle::builder(&mut h, 4);
    assert_eq!(indices, vec![0, 1, 2, 3]);
    assert_eq!(m.indices.count, 4);
    let (indices, m) = LineStripMeshBundle::builder(&mut h, 3);
    assert_eq!(line_strip_indices(3), indices);
    assert_eq!(indices, vec![0, 1, 1, 2]);
    assert_eq!(m.vertices, w(MeshBuffer::Vertices, 4 * 48, 3));
    assert_eq!(m.mesh.vertex_offset, 4);
    assert_eq!((h.vertices, h.line_indices, h.line_meshes), (7, 8, 2));
}

#[test]
fn oscilloscope_mesh() {
    let mut h = MeshBufferHeads::new();
    h.line_meshes = 5;
    let mut ids: Variables<MeshIdEntry> = Variables::new();
    let (id, indices, m) = OscilloscopeMeshBundle::builder(&mut h, &mut ids, "sine");
    assert_eq!(ids.get(&"oscilloscope_sine".to_string()), Some(&(None, Some((5, 1)))));
    assert_eq!(id, (5, 1));
    assert_eq!(indices, vec![0, 1]);
    assert_eq!(m.mesh.vertex_count, 2);
    assert_eq!(h.line_meshes, 6);
}

#[test]
fn line_mesh_instances() {
    let mut h = MeshBufferHeads::new();
    h.line_mesh_instances = 2;
    h.line_instances = 3;
    let i = LineMeshInstanceBundle::builder(&mut h, 2);
    assert_eq!(i.position, w(MeshBuffer::LineMeshInstances, 96, 1));
    assert_eq!(i.mesh, w(MeshBuffer::LineMeshInstances, 108, 1));
    assert_eq!(i.rotation, w(MeshBuffer::LineMeshInstances, 112, 1));
    assert_eq!(i.scale, w(MeshBuffer::LineMeshInstances, 128, 1));
    assert_eq!(i.mesh_instance, 2);
    assert_eq!(i.lines.len(), 2);
    assert_eq!((i.lines[1].mesh_instance, i.lines[1].line_index), (2, 1));
    assert_eq!(i.lines_write, w(MeshBuffer::LineInstances, 24, 2));
    assert_eq!((h.line_mesh_instances, h.line_instances), (3, 5));
}

#[test]
fn triangle_mesh_pads_indices() {
    let mut h = MeshBufferHeads::new();
    h.triangle_indices = 3;
    let t = TriangleMeshBundle::builder(&mut h, 3, vec![0, 1, 2]);
    assert_eq!(t.indices, vec![0, 1, 2, 0, 0, 0]);
    assert_eq!(t.vertices, w(MeshBuffer::Vertices, 0, 3));
    assert_eq!(t.indices_write, w(MeshBuffer::TriangleIndices, 6, 6));
    assert_eq!((h.vertices, h.triangle_indices), (3, 9));
}

#[test]
fn triangle_list_and_fan() {
    let mut h = MeshBufferHeads::new();
    let t = TriangleListMeshBundle::builder(&mut h, 4, 6);
    assert_eq!(t.indices, vec![4, 5, 6, 7, 8, 9]);
    let f = TriangleFanMeshBundle::builder(&mut h, 0, 4);
    assert_eq!(f.indices, vec![0, 1, 2, 0, 2, 3]);
    assert_eq!(f.vertices, w(MeshBuffer::Vertices, 6 * 48, 4));
    assert_eq!(f.indices_write, w(MeshBuffer::TriangleIndices, 12, 6));
}

#[test]
fn triangle_mesh_records_and_instances() {
    let mut h = MeshBufferHeads::new();
    let (d, write, indirect) = TriangleMeshDataBundle::builder(&mut h, 6, 0, 12, 30);
    assert_eq!(
        (d.vertex_count, d.instance_count, d.index_offset, d.vertex_offset, d._pad),
        (6, 0, 12, 30, 0)
    );
    assert_eq!(write, w(MeshBuffer::TriangleMeshes, 0, 1));
    assert_eq!(indirect, 0);
    let (_, write, indirect) = TriangleMeshDataBundle::builder(&mut h, 3, 0, 18, 36);
    assert_eq!(write, w(MeshBuffer::TriangleMeshes, 20, 1));
    assert_eq!(indirect, 1);
    assert_eq!(h.triangle_mesh_instances, vec![0, 0]);

    let (p, r, s) = TriangleMeshInstanceDataBundle::builder(&mut h, 1);
    assert_eq!(p, w(MeshBuffer::TriangleMeshInstances, 48 * 256, 1));
    assert_eq!(r.offset, 48 * 256 + 16);
    assert_eq!(s.offset, 48 * 256 + 32);
    let (p, _, _) = TriangleMeshInstanceDataBundle::builder(&mut h, 1);
    assert_eq!(p.offset, 48 * 257);
    assert_eq!(h.triangle_mesh_instances, vec![0, 2]);
}

#[test]
fn box_bot() {
    let mut h = MeshBufferHeads::new();
    h.vertices = 2;
    h.triangle_meshes = 1;
    h.triangle_mesh_instances = vec![0];
    let mut ids: Variables<MeshIdEntry> = Variables::new();
    let b = BoxBotMeshBundle::builders(&mut h, &mut ids);
    assert_eq!(ids.get(&"box_bot".to_string()), Some(&(Some(1), Some((0, 12)))));
    assert_eq!(b.triangle_mesh, 1);
    assert_eq!(b.line_mesh, (0, 12));
    assert_eq!(b.body.indices.len(), 72);
    assert_eq!(&b.body.indices[..6], &[0, 1, 2, 0, 2, 3]);
    assert_eq!(&b.body.indices[36..42], &[8, 9, 10, 8, 10, 11]);
    assert_eq!(b.body.vertices, w(MeshBuffer::Vertices, 96, 16));
    assert_eq!((b.body_mesh.vertex_count, b.body_mesh.index_offset, b.body_mesh.vertex_offset), (72, 0, 2));
    assert_eq!(b.indirect, 1);
    assert_eq!(b.line_indices, (0..24).collect::<Vec<u32>>());
    assert_eq!(b.lines.vertices, w(MeshBuffer::Vertices, 18 * 48, 24));
    assert_eq!(b.lines.mesh.vertex_offset, 18);
    assert_eq!(h.vertices, 42);
    assert_eq!(h.triangle_indices, 72);
    assert_eq!(h.triangle_mesh_instances, vec![0, 0]);
    assert_eq!((h.line_indices, h.line_meshes), (24, 1));
}

#[test]
fn named_mesh_instances() {
    let mut ids: Variables<MeshIdEntry> = Variables::new();
    register_mesh_ids(&mut ids, "both".to_string(), Some(0), Some((3, 4)));
    register_mesh_ids(&mut ids, "lines".to_string(), None, Some((1, 2)));
    let mut h = MeshBufferHeads::new();
    h.triangle_mesh_instances = vec![5];
    let r = mesh_instance_builders(&mut h, &ids, &"both".to_string());
    assert_eq!(r.triangle.unwrap().0, w(MeshBuffer::TriangleMeshInstances, 5 * 48, 1));
    let line = r.line.unwrap();
    assert_eq!(line.mesh_instance, 0);
    assert_eq!(line.lines.len(), 4);
    let r = mesh_instance_builders(&mut h, &ids, &"lines".to_string());
    assert!(r.triangle.is_none());
    assert_eq!(r.line.unwrap().mesh_instance, 1);
    assert_eq!(h.triangle_mesh_instances, vec![6]);
    assert_eq!((h.line_mesh_instances, h.line_instances), (2, 6));
}
