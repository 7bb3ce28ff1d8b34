use std::collections::BTreeMap;

use antigen::phosphor::collider::{
    collider_plan, shared_shape_plan, ColliderPlan, ColliderShape, HullKind, SharedShapePlan,
};
use antigen::phosphor::map_build::{culling_brush_face_containment, unculled_lines};
use antigen::phosphor::map_data::{
    contains_text, ends_with_text, face_color, face_intensity, property_bool, property_string,
    property_target, property_targetname, property_usize, FaceColor, FaceIntensity, Line, MapData,
    Properties, Property, PropertyError,
};

fn prop(k: &str, v: &str) -> Property {
    Property { key: k.to_string(), value: v.to_string() }
}

fn brush_props() -> Properties {
    Properties(vec![
        prop("classname", "brush"),
        prop("mesh.visual", "true"),
        prop("mesh.visual.cull.faces", "1"),
        prop("mesh.visual.cull.lines", "2"),
        prop("mesh.visual.name.use_targetname", "true"),
        prop("targetname", "door"),
        prop("target", "hinge"),
        prop("bad", "x1"),
        prop("classname", "second"),
    ])
}

fn line(i0: usize, i1: usize) -> Line {
    Line { i0, i1 }
}

fn map() -> MapData {
    let mut entity_properties = BTreeMap::new();
    entity_properties.insert(0, Properties(vec![prop("classname", "worldspawn")]));
    entity_properties.insert(1, brush_props());
    entity_properties.insert(
        2,
        Properties(vec![prop("classname", "brush"), prop("mesh.visual.cull.faces", "24")]),
    );
    let mut face_textures = BTreeMap::new();
    face_textures.insert(100, 0);
    face_textures.insert(101, 1);
    face_textures.insert(102, 0);
    let mut textures = BTreeMap::new();
    textures.insert(0, "blood_wall3".to_string());
    textures.insert(1, "green2".to_string());
    let mut face_triangle_indices = BTreeMap::new();
    face_triangle_indices.insert(100, vec![0, 1, 2, 0, 2, 3]);
    face_triangle_indices.insert(101, vec![0, 1, 2]);
    face_triangle_indices.insert(102, vec![0, 1, 2]);
    let mut face_lines = BTreeMap::new();
    face_lines.insert(100, vec![1000, 1001, 1002, 1003]);
    face_lines.insert(101, vec![1010, 1011, 1012]);
    face_lines.insert(102, vec![1020, 1021, 1022]);
    let mut face_vertex_counts = BTreeMap::new();
    face_vertex_counts.insert(100, 4);
    face_vertex_counts.insert(101, 3);
    face_vertex_counts.insert(102, 3);
    let mut lines = BTreeMap::new();
    lines.insert(1000, line(0, 1));
    lines.insert(1001, line(1, 2));
    lines.insert(1002, line(2, 3));
    lines.insert(1003, line(3, 0));
    lines.insert(1010, line(0, 1));
    lines.insert(1011, line(1, 2));
    lines.insert(1012, line(2, 0));
    lines.insert(1020, line(0, 1));
    lines.insert(1021, line(1, 2));
    lines.insert(1022, line(2, 0));
    MapData {
        entity_properties,
        entity_brushes: vec![(0, vec![]), (1, vec![10, 11]), (2, vec![11])],
        brush_faces: vec![(10, vec![100, 101]), (11, vec![102])],
        face_textures,
        textures,
        face_triangle_indices,
        face_lines,
        face_vertex_counts,
        lines,
        face_duplicates: vec![(100, 101)],
        face_face_containment: vec![],
        brush_face_containment: vec![],
        interior_faces: vec![102],
        manifold_lines: vec![],
        non_manifold_lines: vec![1001],
    }
}

#[test]
fn property_reads() {
    let p = brush_props();
    assert_eq!(property_string("classname", &p), Ok("brush"));
    assert_eq!(property_string("nothing", &p), Err(PropertyError::KeyNotFound));
    assert_eq!(property_usize("mesh.visual.cull.faces", &p), Ok(1));
    assert_eq!(property_usize("bad", &p), Err(PropertyError::InvalidNumber));
    assert_eq!(property_usize("nothing", &p), Err(PropertyError::KeyNotFound));
    assert_eq!(property_bool("mesh.visual", &p), Ok(true));
    assert_eq!(property_bool("nothing", &p), Err(PropertyError::KeyNotFound));
}

#[test]
fn property_indirection() {
    let p = brush_props();
    assert_eq!(property_targetname("mesh.visual.name", &p), Ok("door".to_string()));
    assert_eq!(property_targetname("classname", &p), Ok("brush".to_string()));
    assert_eq!(property_target("mesh.visual.name", &p), Err(PropertyError::NoSuchProperty));
    let q = Properties(vec![prop("mesh.use_target", "true"), prop("target", "hinge")]);
    assert_eq!(property_target("mesh", &q), Ok("hinge".to_string()));
    let r = Properties(vec![prop("mesh.use_target", "true")]);
    assert_eq!(property_target("mesh", &r), Err(PropertyError::KeyNotFound));
    let s = Properties(vec![prop("mesh.use_target", "false"), prop("target", "hinge")]);
    assert_eq!(property_target("mesh", &s), Err(PropertyError::NoSuchProperty));
}

#[test]
fn texture_classes() {
    assert_eq!(face_color("blood_wall3"), FaceColor::Red);
    assert_eq!(face_color("greenblue"), FaceColor::Green);
    assert_eq!(face_color("sky_blue1"), FaceColor::Blue);
    assert_eq!(face_color("stone"), FaceColor::White);
    assert_eq!(face_intensity("blood_wall3"), FaceIntensity::Low);
    assert_eq!(face_intensity("green2"), FaceIntensity::Medium);
    assert_eq!(face_intensity("x1"), FaceIntensity::High);
    assert_eq!(face_intensity("stone"), FaceIntensity::Dim);
    assert_eq!(face_intensity(""), FaceIntensity::Dim);
    assert!(contains_text("abcde", "cd"));
    assert!(contains_text("abc", ""));
    assert!(!contains_text("ab", "abc"));
    assert!(ends_with_text("abc", "bc"));
    assert!(!ends_with_text("abc", "ab"));
}

#[test]
fn entity_lookups() {
    let m = map();
    assert_eq!(MapData::default_entity_name(12), "entity_12".to_string());
    assert_eq!(m.classname_brushes("brush"), vec![1, 2]);
    assert_eq!(m.classname_brushes("worldspawn"), vec![0]);
    assert_eq!(m.classname_brushes("second"), vec![1]);
    assert_eq!(m.entity_property(1, "targetname"), Some(&prop("targetname", "door")));
    assert_eq!(m.entity_property(1, "classname"), Some(&prop("classname", "brush")));
    assert_eq!(m.entity_property(0, "targetname"), None);
    assert_eq!(m.entity_faces(&vec![10, 11]), vec![100, 101, 102]);
    assert_eq!(m.entity_faces(&vec![11]), vec![102]);
    assert_eq!(m.entity_brush_list(1), Some(&vec![10, 11]));
    assert_eq!(m.entity_brush_list(5), None);
    assert_eq!(m.face_texture(101), "green2");
}

#[test]
fn face_index_lists() {
    let m = map();
    assert_eq!(m.face_triangle_indices(100, 5), vec![5, 6, 7, 5, 7, 8]);
    assert_eq!(m.face_line_indices(100, 10), vec![10, 11, 11, 12, 12, 13, 13, 10]);
}

#[test]
fn culling_predicates() {
    let m = map();
    assert!(m.face_cull_predicate(1, "mesh.visual", 100));
    assert!(!m.face_cull_predicate(1, "mesh.visual", 101));
    assert!(m.face_cull_predicate(1, "mesh.collision", 101));
    assert!(m.line_cull_predicate(1, "mesh.visual", 1000));
    assert!(!m.line_cull_predicate(1, "mesh.visual", 1001));
    assert!(m.line_cull_predicate(0, "mesh.visual", 1001));
}

#[test]
fn culling_interior_and_exterior_drops_everything() {
    let m = map();
    for face in [100, 101, 102] {
        assert!(!m.face_cull_predicate(2, "mesh.visual", face));
    }
}

#[test]
fn culling_with_no_mask_keeps_everything() {
    let m = map();
    for face in [100, 101, 102] {
        assert!(m.face_cull_predicate(0, "mesh.visual", face));
    }
    for l in [1000, 1001, 1022] {
        assert!(m.line_cull_predicate(0, "mesh.visual", l));
    }
}

#[test]
fn brush_mesh_visual() {
    let m = map();
    let (faces, tris, lines) = m.assemble_brush_entity_triangle_mesh(1, "mesh.visual", Some("mesh.visual"));
    assert_eq!(faces, vec![100, 102]);
    assert_eq!(tris, vec![0, 1, 2, 0, 2, 3, 4, 5, 6]);
    assert_eq!(lines, vec![0, 1, 2, 3, 3, 0, 4, 5, 5, 6, 6, 4]);
}

#[test]
fn brush_mesh_collision_has_no_lines() {
    let m = map();
    let (faces, tris, lines) = m.assemble_brush_entity_triangle_mesh(1, "mesh.collision", None);
    assert_eq!(faces, vec![100, 101, 102]);
    assert_eq!(tris, vec![0, 1, 2, 0, 2, 3, 4, 5, 6, 7, 8, 9]);
    assert!(lines.is_empty());
}

#[test]
fn brush_mesh_indices_name_mesh_vertices() {
    let m = map();
    let (faces, tris, lines) = m.assemble_brush_entity_triangle_mesh(1, "mesh.collision", Some("mesh.collision"));
    let vertex_count: usize = faces.iter().map(|f| m.face_vertex_counts[f]).sum();
    assert_eq!(vertex_count, 10);
    assert!(tris.iter().all(|i| (*i as usize) < vertex_count));
    assert!(lines.iter().all(|i| (*i as usize) < vertex_count));
    assert_eq!(lines.len(), 2 * 10);
}

#[test]
fn containment_kept_for_culling() {
    let mut brush_entities = BTreeMap::new();
    brush_entities.insert(10, 1);
    brush_entities.insert(11, 0);
    let m = map();
    let containment = vec![(10, vec![100]), (11, vec![102])];
    let kept = culling_brush_face_containment(containment, &brush_entities, &m.entity_properties);
    assert_eq!(kept, vec![(10, vec![100])]);
}

#[test]
fn lines_left_by_culling() {
    let m = map();
    let mut line_faces = BTreeMap::new();
    for (face, ls) in m.face_lines.iter() {
        for l in ls {
            line_faces.insert(*l, *face);
        }
    }
    let containment = vec![(10, vec![100, 101])];
    let left = unculled_lines(&m.lines, &line_faces, &containment);
    assert_eq!(left.keys().copied().collect::<Vec<_>>(), vec![1020, 1021, 1022]);
    assert_eq!(left[&1021], line(1, 2));
    let none_culled = unculled_lines(&m.lines, &line_faces, &vec![]);
    assert_eq!(none_culled, m.lines);
}

#[test]
fn brush_mesh_checked() {
    let m = map();
    let (faces, tris, _) = m.try_assemble_brush_entity_triangle_mesh(1, "mesh.visual", Some("mesh.visual")).unwrap();
    assert_eq!(faces, vec![100, 102]);
    assert_eq!(tris, vec![0, 1, 2, 0, 2, 3, 4, 5, 6]);
    let mut broken = map();
    broken.face_vertex_counts.remove(&102);
    assert!(broken.try_assemble_brush_entity_triangle_mesh(1, "mesh.visual", None).is_none());
    let mut unknown_line = map();
    unknown_line.lines.remove(&1020);
    assert!(unknown_line.try_assemble_brush_entity_triangle_mesh(1, "mesh.visual", Some("mesh.visual")).is_none());
    assert!(unknown_line.try_assemble_brush_entity_triangle_mesh(1, "mesh.visual", None).is_some());
    let mut no_brushes = map();
    no_brushes.entity_brushes.retain(|(e, _)| *e != 1);
    assert!(no_brushes.try_assemble_brush_entity_triangle_mesh(1, "mesh.visual", None).is_none());
    let mut big = map();
    big.face_vertex_counts.insert(100, 65535);
    assert!(big.try_assemble_brush_entity_triangle_mesh(1, "mesh.collision", None).is_none());
}

#[test]
fn collider_plans() {
    let p = Properties(vec![
        prop("collider", "true"),
        prop("collider.shape", "trimesh"),
        prop("collider.type", "sensor"),
        prop("collider.events.active", "3"),
        prop("collider.events.target", "door"),
    ]);
    assert_eq!(
        collider_plan(7, &p),
        Some(ColliderPlan {
            shape: ColliderShape::Trimesh("entity_7".to_string()),
            sensor: true,
            contact_events: true,
            intersection_events: true,
            event_output: true,
            event_target: Some("door".to_string()),
        })
    );
    let q = Properties(vec![
        prop("collider", "true"),
        prop("collider.shape", "convex_hull"),
        prop("collider.convex_hull.mesh.use_target", "true"),
        prop("target", "hull"),
        prop("collider.events.active", "2"),
    ]);
    let plan = collider_plan(1, &q).unwrap();
    assert_eq!(plan.shape, ColliderShape::ConvexHull("hull".to_string()));
    assert!(!plan.sensor && !plan.contact_events && plan.intersection_events && plan.event_output);
    assert_eq!(plan.event_target, None);
    let r = Properties(vec![prop("collider", "true"), prop("collider.shape", "ball")]);
    let plan = collider_plan(1, &r).unwrap();
    assert_eq!(plan.shape, ColliderShape::Ball);
    assert!(!plan.event_output && !plan.contact_events);
    assert_eq!(collider_plan(1, &Properties(vec![prop("collider", "false")])), None);
    assert_eq!(collider_plan(1, &Properties(vec![prop("collider", "true")])), None);
    assert_eq!(collider_plan(1, &Properties(vec![])), None);
}

#[test]
fn flags_never_read_may_hold_anything() {
    let p = Properties(vec![
        prop("mesh", "gear"),
        prop("mesh.use_target", "maybe"),
        prop("mesh.use_targetname", "perhaps"),
    ]);
    assert_eq!(property_target("mesh", &p), Ok("gear".to_string()));
    assert_eq!(property_targetname("mesh", &p), Ok("gear".to_string()));
    let q = Properties(vec![
        prop("collider", "true"),
        prop("collider.shape", "trimesh"),
        prop("collider.trimesh.mesh", "rock"),
        prop("collider.trimesh.mesh.use_target", "neither"),
        prop("collider.events.active", "0"),
        prop("collider.events.target.use_target", "neither"),
    ]);
    let plan = collider_plan(3, &q).unwrap();
    assert_eq!(plan.shape, ColliderShape::Trimesh("rock".to_string()));
    assert!(!plan.event_output && !plan.contact_events && !plan.intersection_events);
    assert_eq!(plan.event_target, None);
    let r = Properties(vec![
        prop("collider", "true"),
        prop("collider.shape", "cuboid"),
        prop("collider.events.active", "1"),
        prop("collider.events.target", "bell"),
        prop("collider.events.target.use_target", "neither"),
    ]);
    let plan = collider_plan(3, &r).unwrap();
    assert!(plan.contact_events && !plan.intersection_events && plan.event_output);
    assert_eq!(plan.event_target, Some("bell".to_string()));
}

#[test]
fn shared_shape_plans() {
    let p = Properties(vec![
        prop("convex_hull", "true"),
        prop("convex_hull.type", "compound"),
        prop("convex_hull.name.use_targetname", "true"),
        prop("targetname", "crate"),
        prop("mesh.collision", "true"),
    ]);
    assert_eq!(
        shared_shape_plan(4, &p),
        SharedShapePlan {
            hull: Some(("crate".to_string(), HullKind::Compound)),
            collision_mesh: Some("entity_4".to_string()),
        }
    );
    let q = Properties(vec![
        prop("convex_hull", "true"),
        prop("convex_hull.type", "single"),
        prop("convex_hull.name", "pillar"),
        prop("convex_hull.name.use_targetname", "unread"),
        prop("mesh.collision", "false"),
        prop("mesh.collision.name.use_targetname", "unread"),
    ]);
    assert_eq!(
        shared_shape_plan(2, &q),
        SharedShapePlan { hull: Some(("pillar".to_string(), HullKind::Single)), collision_mesh: None }
    );
    assert_eq!(
        shared_shape_plan(2, &Properties(vec![])),
        SharedShapePlan { hull: None, collision_mesh: None }
    );
}
