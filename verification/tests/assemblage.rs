use antigen::phosphor::assemblage::{
    line_instances, line_list_indices, line_mesh_instance_offsets, line_strip_indices,
    pad_align_triangle_list, triangle_fan_indices, triangle_list_indices,
    triangle_mesh_instance_offset,
};
use antigen::phosphor::components::{LineMeshData, TriangleMeshData};

#[test]
fn pad_odd_list() {
    let mut v: Vec<u16> = vec![0, 1, 2];
    pad_align_triangle_list(&mut v);
    assert_eq!(v, vec![0, 1, 2, 0, 0, 0]);
}

#[test]
fn pad_even_list_unchanged() {
    let mut v: Vec<u16> = vec![0, 1, 2, 2, 3, 0];
    pad_align_triangle_list(&mut v);
    assert_eq!(v, vec![0, 1, 2, 2, 3, 0]);
    let mut e: Vec<u16> = vec![];
    pad_align_triangle_list(&mut e);
    assert!(e.is_empty());
}

#[test]
fn pad_twice_is_pad_once() {
    let mut v: Vec<u16> = vec![5, 6, 7];
    pad_align_triangle_list(&mut v);
    let once = v.clone();
    pad_align_triangle_list(&mut v);
    assert_eq!(v, once);
    assert_eq!((v.len() * 2) % 4, 0);
}

#[test]
fn line_list() {
    assert_eq!(line_list_indices(4), vec![0, 1, 2, 3]);
    assert_eq!(line_list_indices(3), vec![0, 1, 2, 3]);
    assert_eq!(line_list_indices(0), Vec::<u32>::new());
}

#[test]
fn line_strip() {
    assert_eq!(line_strip_indices(2), vec![0, 1]);
    assert_eq!(line_strip_indices(4), vec![0, 1, 1, 2, 2, 3]);
}

#[test]
fn triangle_list() {
    assert_eq!(triangle_list_indices(0, 6), vec![0, 1, 2, 3, 4, 5]);
    assert_eq!(triangle_list_indices(10, 4), vec![10, 11, 12, 13, 14, 15]);
    assert_eq!(triangle_list_indices(3, 0), Vec::<u16>::new());
}

#[test]
fn triangle_fan() {
    assert_eq!(triangle_fan_indices(0, 5), vec![0, 1, 2, 0, 2, 3, 0, 3, 4]);
    assert_eq!(triangle_fan_indices(7, 3), vec![7, 8, 9]);
    assert_eq!(triangle_fan_indices(7, 2), Vec::<u16>::new());
}

#[test]
fn instances_of_lines() {
    let v = line_instances(3, 2);
    assert_eq!(v.len(), 2);
    assert_eq!((v[0].mesh_instance, v[0].line_index), (3, 0));
    assert_eq!((v[1].mesh_instance, v[1].line_index), (3, 1));
    assert!(line_instances(3, 0).is_empty());
}

#[test]
fn mesh_data_constructors() {
    let l = LineMeshData::new(1, 2, 3, 4);
    assert_eq!((l.vertex_offset, l.vertex_count, l.index_offset, l.index_count), (1, 2, 3, 4));
    let t = TriangleMeshData::new(5, 6, 7, 8);
    assert_eq!(
        (t.vertex_count, t.instance_count, t.index_offset, t.vertex_offset, t._pad),
        (5, 6, 7, 8, 0)
    );
}

#[test]
fn instance_offsets() {
    assert_eq!(line_mesh_instance_offsets(0), (0, 12, 16, 32));
    assert_eq!(line_mesh_instance_offsets(2), (96, 108, 112, 128));
    assert_eq!(triangle_mesh_instance_offset(0, 0), 0);
    assert_eq!(triangle_mesh_instance_offset(3, 1), 48 * (3 + 256));
}
