use antigen::phosphor::entity_plans::{
    event_plan, line_mesh_instance, mover_plan, rigid_body_plan, text_glyphs,
    triangle_mesh_instance, EventPlan, MoverPlan, RigidBodyKind, TextGlyph,
};
use antigen::phosphor::map_data::{Properties, Property};

fn prop(k: &str, v: &str) -> Property {
    Property { key: k.to_string(), value: v.to_string() }
}

#[test]
fn mesh_instances() {
    let p = Properties(vec![
        prop("mesh_instance.line", "true"),
        prop("mesh_instance.line.mesh", "rail"),
        prop("mesh_instance.triangle", "true"),
    ]);
    assert_eq!(line_mesh_instance(9, &p), Some("rail".to_string()));
    assert_eq!(triangle_mesh_instance(9, &p), Some("entity_9".to_string()));
    let q = Properties(vec![
        prop("mesh_instance.triangle", "true"),
        prop("mesh_instance.triangle.mesh.use_target", "true"),
        prop("target", "lamp"),
    ]);
    assert_eq!(triangle_mesh_instance(2, &q), Some("lamp".to_string()));
    assert_eq!(line_mesh_instance(2, &q), None);
    let r = Properties(vec![prop("mesh_instance.line", "false")]);
    assert_eq!(line_mesh_instance(2, &r), None);
}

#[test]
fn rigid_bodies() {
    let p = Properties(vec![
        prop("rigid_body", "true"),
        prop("rigid_body.type", "kinematic_position_based"),
    ]);
    assert_eq!(rigid_body_plan(&p), Some(Some(RigidBodyKind::KinematicPositionBased)));
    let q = Properties(vec![prop("rigid_body", "true"), prop("rigid_body.type", "static")]);
    assert_eq!(rigid_body_plan(&q), Some(Some(RigidBodyKind::Static)));
    let r = Properties(vec![prop("rigid_body", "true")]);
    assert_eq!(rigid_body_plan(&r), Some(None));
    let s = Properties(vec![prop("rigid_body", "false"), prop("rigid_body.type", "anything")]);
    assert_eq!(rigid_body_plan(&s), None);
}

#[test]
fn movers() {
    let p = Properties(vec![
        prop("mover", "true"),
        prop("mover.open", "false"),
        prop("mover.events", "true"),
        prop("mover.name.use_targetname", "true"),
        prop("targetname", "gate"),
    ]);
    assert_eq!(
        mover_plan(&p),
        Some(MoverPlan { open: Some(false), event_name: Some("gate".to_string()) })
    );
    let q = Properties(vec![prop("mover", "true"), prop("mover.events", "false")]);
    assert_eq!(mover_plan(&q), Some(MoverPlan { open: None, event_name: None }));
    assert_eq!(mover_plan(&Properties(vec![prop("mover.open", "true")])), None);
}

#[test]
fn events() {
    let p = Properties(vec![
        prop("event", "true"),
        prop("event.in", "collider.intersection.enter"),
        prop("event.out", "mover.open"),
        prop("event.target", "gate"),
        prop("event.name", "plate"),
    ]);
    assert_eq!(
        event_plan(&p),
        Some(EventPlan { target: "gate".to_string(), name: "plate".to_string() })
    );
    assert_eq!(event_plan(&Properties(vec![prop("event", "false")])), None);
}

#[test]
fn text_glyph_grid() {
    let p = Properties(vec![prop("text", "true"), prop("text.string", "a b\\ncd")]);
    assert_eq!(
        text_glyphs(&p),
        vec![
            TextGlyph { column: 0, row: 0, mesh: "char_a".to_string() },
            TextGlyph { column: 2, row: 0, mesh: "char_b".to_string() },
            TextGlyph { column: 0, row: 1, mesh: "char_c".to_string() },
            TextGlyph { column: 1, row: 1, mesh: "char_d".to_string() },
        ]
    );
    let q = Properties(vec![prop("text", "true"), prop("text.string", "x\\y")]);
    assert_eq!(
        text_glyphs(&q),
        vec![
            TextGlyph { column: 0, row: 0, mesh: "char_x".to_string() },
            TextGlyph { column: 1, row: 0, mesh: "char_\\".to_string() },
            TextGlyph { column: 2, row: 0, mesh: "char_y".to_string() },
        ]
    );
    assert_eq!(text_glyphs(&Properties(vec![prop("text", "false")])), vec![]);
}
