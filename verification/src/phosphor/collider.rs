use vstd::prelude::*;

use crate::phosphor::map_data::{
    bool_property_readable, property_bool, property_string, property_target, property_targetname,
    property_usize, property_value, spec_property_bool, spec_property_indirect, spec_property_usize,
    target_key, targetname_key, use_target_suffix, use_targetname_suffix, MapData, Properties,
    Property, PropertyError,
};
use crate::text::{decimal_digits, str_eq};

verus! {

/// The shape of a map entity's collider; the meshes of hull and triangle-mesh
/// shapes are named
#[derive(Debug, Clone, PartialEq)]
pub enum ColliderShape {
    Ball,
    Cuboid,
    ConvexHull(String),
    Trimesh(String),
}

/// The model of a [`ColliderShape`]
pub enum ColliderShapeView {
    Ball,
    Cuboid,
    ConvexHull(Seq<char>),
    Trimesh(Seq<char>),
}

impl View for ColliderShape {
    type V = ColliderShapeView;

    open spec fn view(&self) -> ColliderShapeView {
        match self {
            ColliderShape::Ball => ColliderShapeView::Ball,
            ColliderShape::Cuboid => ColliderShapeView::Cuboid,
            ColliderShape::ConvexHull(m) => ColliderShapeView::ConvexHull(m@),
            ColliderShape::Trimesh(m) => ColliderShapeView::Trimesh(m@),
        }
    }
}

/// What a map entity's collider is made of, apart from its sizes: its shape, whether
/// it only senses, the events it reports (contacts, intersections), whether it has
/// an event output, and the name its events are sent to
#[derive(Debug, Clone, PartialEq)]
pub struct ColliderPlan {
    pub shape: ColliderShape,
    pub sensor: bool,
    pub contact_events: bool,
    pub intersection_events: bool,
    pub event_output: bool,
    pub event_target: Option<String>,
}

/// The model of a [`ColliderPlan`]
pub struct ColliderPlanView {
    pub shape: ColliderShapeView,
    pub sensor: bool,
    pub contact_events: bool,
    pub intersection_events: bool,
    pub event_output: bool,
    pub event_target: Option<Seq<char>>,
}

impl View for ColliderPlan {
    type V = ColliderPlanView;

    open spec fn view(&self) -> ColliderPlanView {
        ColliderPlanView {
            shape: self.shape@,
            sensor: self.sensor,
            contact_events: self.contact_events,
            intersection_events: self.intersection_events,
            event_output: self.event_output,
            event_target: match self.event_target {
                Some(t) => Some(t@),
                None => None,
            },
        }
    }
}

/// The mesh a hull or triangle-mesh collider uses: the property `key`, or the
/// entity's target where `<key>.use_target` is set, or else the entity's default name
pub open spec fn collider_mesh(props: Seq<Property>, key: Seq<char>, entity: usize) -> Seq<char> {
    match spec_property_indirect(props, key, use_target_suffix(), target_key()) {
        Ok(m) => m,
        Err(_) => seq!['e', 'n', 't', 'i', 't', 'y', '_'] + decimal_digits(entity as nat),
    }
}

/// The collider of a map entity, if it has one: `collider` must be `true` and
/// `collider.shape` set. The shape is `ball`, `cuboid`, `convex_hull` (mesh
/// `collider.convex_hull.mesh`) or `trimesh` (mesh `collider.trimesh.mesh`);
/// `collider.type` `sensor` makes it a sensor; the number `collider.events.active`
/// asks for contact events (bit 1) and intersection events (bit 2), and where it is
/// not zero the collider gets an event output and the target
/// `collider.events.target`, where one is given
pub open spec fn spec_collider_plan(entity: usize, props: Seq<Property>) -> Option<ColliderPlanView> {
    if spec_property_bool(props, "collider"@) != Ok::<bool, PropertyError>(true) {
        None
    } else {
        match property_value(props, "collider.shape"@) {
            None => None,
            Some(shape) => {
                let shape = if shape == "ball"@ {
                    ColliderShapeView::Ball
                } else if shape == "cuboid"@ {
                    ColliderShapeView::Cuboid
                } else if shape == "convex_hull"@ {
                    ColliderShapeView::ConvexHull(
                        collider_mesh(props, "collider.convex_hull.mesh"@, entity),
                    )
                } else {
                    ColliderShapeView::Trimesh(collider_mesh(props, "collider.trimesh.mesh"@, entity))
                };
                let sensor = property_value(props, "collider.type"@) == Some("sensor"@);
                let events = spec_property_usize(props, "collider.events.active"@);
                let active: usize = match events {
                    Ok(n) => n,
                    Err(_) => 0,
                };
                Some(
                    ColliderPlanView {
                        shape,
                        sensor,
                        contact_events: active & 1 > 0,
                        intersection_events: active & 2 > 0,
                        event_output: active > 0,
                        event_target: if active > 0 {
                            match spec_property_indirect(
                                props,
                                "collider.events.target"@,
                                use_target_suffix(),
                                target_key(),
                            ) {
                                Ok(t) => Some(t),
                                Err(_) => None,
                            }
                        } else {
                            None
                        },
                    },
                )
            },
        }
    }
}

/// The properties of a collider read without failing: the flags that are read say
/// `true` or `false`, the shape and type are ones the collider knows. A mesh's
/// `.use_target` flag is read only where the mesh key itself is absent, and the
/// event target's only where events are asked for and the target key is absent.
pub open spec fn collider_readable(props: Seq<Property>) -> bool {
    &&& bool_property_readable(props, "collider"@)
    &&& spec_property_bool(props, "collider"@) == Ok::<bool, PropertyError>(true) ==> {
        &&& property_value(props, "collider.shape"@) matches Some(shape) ==> {
            &&& (shape == "ball"@ || shape == "cuboid"@ || shape == "convex_hull"@ || shape
                == "trimesh"@)
            &&& (shape == "convex_hull"@ && property_value(props, "collider.convex_hull.mesh"@)
                is None) ==> bool_property_readable(
                props,
                "collider.convex_hull.mesh"@ + use_target_suffix(),
            )
            &&& (shape == "trimesh"@ && property_value(props, "collider.trimesh.mesh"@) is None)
                ==> bool_property_readable(props, "collider.trimesh.mesh"@ + use_target_suffix())
            &&& property_value(props, "collider.type"@) matches Some(t) ==> (t == "solid"@ || t
                == "sensor"@)
            &&& (spec_property_usize(props, "collider.events.active"@) matches Ok(n) && n > 0
                && property_value(props, "collider.events.target"@) is None)
                ==> bool_property_readable(props, "collider.events.target"@ + use_target_suffix())
        }
    }
}

fn collider_mesh_name(properties: &Properties, key: &str, entity: usize) -> (res: String)
    requires
        property_value(properties.0@, key@) is None ==> bool_property_readable(
            properties.0@,
            key@ + use_target_suffix(),
        ),
    ensures
        res@ == collider_mesh(properties.0@, key@, entity),
{
    match property_target(key, properties) {
        Ok(m) => m,
        Err(_) => MapData::default_entity_name(entity),
    }
}

/// The collider of a map entity (see [`spec_collider_plan`]); its sizes are read by
/// the caller
pub fn collider_plan(entity: usize, properties: &Properties) -> (res: Option<ColliderPlan>)
    requires
        collider_readable(properties.0@),
    ensures
        match res {
            Some(p) => spec_collider_plan(entity, properties.0@) == Some(p@),
            None => spec_collider_plan(entity, properties.0@) is None,
        },
{
    match property_bool("collider", properties) {
        Ok(true) => {},
        _ => {
            return None;
        },
    }
    let shape_text = match property_string("collider.shape", properties) {
        Ok(s) => s,
        Err(_) => {
            return None;
        },
    };
    let shape = if str_eq(shape_text, "ball") {
        ColliderShape::Ball
    } else if str_eq(shape_text, "cuboid") {
        ColliderShape::Cuboid
    } else if str_eq(shape_text, "convex_hull") {
        ColliderShape::ConvexHull(collider_mesh_name(properties, "collider.convex_hull.mesh", entity))
    } else {
        ColliderShape::Trimesh(collider_mesh_name(properties, "collider.trimesh.mesh", entity))
    };
    let sensor = match property_string("collider.type", properties) {
        Ok(t) => str_eq(t, "sensor"),
        Err(_) => false,
    };
    let active: usize = match property_usize("collider.events.active", properties) {
        Ok(n) => n,
        Err(_) => 0,
    };
    let event_target = if active > 0 {
        match property_target("collider.events.target", properties) {
            Ok(t) => Some(t),
            Err(_) => None,
        }
    } else {
        None
    };
    Some(
        ColliderPlan {
            shape,
            sensor,
            contact_events: active & 1 > 0,
            intersection_events: active & 2 > 0,
            event_output: active > 0,
            event_target,
        },
    )
}

// ---------------------------------------------------------------------------
// Shared shapes of brush entities
// ---------------------------------------------------------------------------

/// How a brush entity's convex hull is made: one hull around all its brushes, or
/// one hull per brush, put together
#[derive(Debug, Clone, Copy, PartialEq, Eq)]
pub enum HullKind {
    Single,
    Compound,
}

/// The shapes a brush entity shares with colliders, apart from their geometry: a
/// convex hull and a collision triangle mesh, each under its name
#[derive(Debug, Clone, PartialEq)]
pub struct SharedShapePlan {
    pub hull: Option<(String, HullKind)>,
    pub collision_mesh: Option<String>,
}

/// The model of a [`SharedShapePlan`]
pub struct SharedShapePlanView {
    pub hull: Option<(Seq<char>, HullKind)>,
    pub collision_mesh: Option<Seq<char>>,
}

impl View for SharedShapePlan {
    type V = SharedShapePlanView;

    open spec fn view(&self) -> SharedShapePlanView {
        SharedShapePlanView {
            hull: match self.hull {
                Some((name, kind)) => Some((name@, kind)),
                None => None,
            },
            collision_mesh: match self.collision_mesh {
                Some(name) => Some(name@),
                None => None,
            },
        }
    }
}

/// The name a shared shape is registered under: the property `key`, or the
/// entity's target name where `<key>.use_targetname` is set, or else the entity's
/// default name
pub open spec fn shared_shape_name(props: Seq<Property>, key: Seq<char>, entity: usize) -> Seq<char> {
    match spec_property_indirect(props, key, use_targetname_suffix(), targetname_key()) {
        Ok(m) => m,
        Err(_) => seq!['e', 'n', 't', 'i', 't', 'y', '_'] + decimal_digits(entity as nat),
    }
}

/// The properties of a brush entity's shared shapes read without failing: the flags
/// that are read say `true` or `false`, and a hull has a type, `single` or
/// `compound`. A name's `.use_targetname` flag is read only where the name is absent.
pub open spec fn shared_shapes_readable(props: Seq<Property>) -> bool {
    &&& bool_property_readable(props, "convex_hull"@)
    &&& spec_property_bool(props, "convex_hull"@) == Ok::<bool, PropertyError>(true) ==> {
        &&& property_value(props, "convex_hull.name"@) is None ==> bool_property_readable(
            props,
            "convex_hull.name"@ + use_targetname_suffix(),
        )
        &&& property_value(props, "convex_hull.type"@) matches Some(t) && (t == "single"@ || t
            == "compound"@)
    }
    &&& bool_property_readable(props, "mesh.collision"@)
    &&& (spec_property_bool(props, "mesh.collision"@) == Ok::<bool, PropertyError>(true)
        && property_value(props, "mesh.collision.name"@) is None) ==> bool_property_readable(
        props,
        "mesh.collision.name"@ + use_targetname_suffix(),
    )
}

/// The shared shapes of a brush entity: where `convex_hull` is `true`, a hull named
/// by `convex_hull.name` of the type `convex_hull.type`; where `mesh.collision` is
/// `true`, a collision mesh named by `mesh.collision.name`
pub open spec fn spec_shared_shape_plan(entity: usize, props: Seq<Property>) -> SharedShapePlanView {
    SharedShapePlanView {
        hull: if spec_property_bool(props, "convex_hull"@) == Ok::<bool, PropertyError>(true) {
            Some(
                (
                    shared_shape_name(props, "convex_hull.name"@, entity),
                    if property_value(props, "convex_hull.type"@) == Some("single"@) {
                        HullKind::Single
                    } else {
                        HullKind::Compound
                    },
                ),
            )
        } else {
            None
        },
        collision_mesh: if spec_property_bool(props, "mesh.collision"@) == Ok::<
            bool,
            PropertyError,
        >(true) {
            Some(shared_shape_name(props, "mesh.collision.name"@, entity))
        } else {
            None
        },
    }
}

fn shared_shape_name_of(properties: &Properties, key: &str, entity: usize) -> (res: String)
    requires
        property_value(properties.0@, key@) is None ==> bool_property_readable(
            properties.0@,
            key@ + use_targetname_suffix(),
        ),
    ensures
        res@ == shared_shape_name(properties.0@, key@, entity),
{
    match property_targetname(key, properties) {
        Ok(m) => m,
        Err(_) => MapData::default_entity_name(entity),
    }
}

/// The shared shapes of a brush entity (see [`spec_shared_shape_plan`]); their
/// geometry is built by the caller
pub fn shared_shape_plan(entity: usize, properties: &Properties) -> (res: SharedShapePlan)
    requires
        shared_shapes_readable(properties.0@),
    ensures
        res@ == spec_shared_shape_plan(entity, properties.0@),
{
    let hull = match property_bool("convex_hull", properties) {
        Ok(true) => {
            let name = shared_shape_name_of(properties, "convex_hull.name", entity);
            let kind = match property_string("convex_hull.type", properties) {
                Ok(t) => if str_eq(t, "single") {
                    HullKind::Single
                } else {
                    HullKind::Compound
                },
                Err(_) => HullKind::Compound,
            };
            Some((name, kind))
        },
        _ => None,
    };
    let collision_mesh = match property_bool("mesh.collision", properties) {
        Ok(true) => Some(shared_shape_name_of(properties, "mesh.collision.name", entity)),
        _ => None,
    };
    SharedShapePlan { hull, collision_mesh }
}

// ---------------------------------------------------------------------------
// Laws of colliders and shared shapes
// ---------------------------------------------------------------------------

/// The `collider.shape` text of a shape
pub open spec fn shape_text(shape: ColliderShapeView) -> Seq<char> {
    match shape {
        ColliderShapeView::Ball => "ball"@,
        ColliderShapeView::Cuboid => "cuboid"@,
        ColliderShapeView::ConvexHull(_) => "convex_hull"@,
        ColliderShapeView::Trimesh(_) => "trimesh"@,
    }
}

proof fn lemma_collider_shape(entity: usize, props: Seq<Property>)
    ensures
        spec_collider_plan(entity, props) matches Some(p) ==> {
            &&& property_value(props, "collider.shape"@) == Some("convex_hull"@) ==> (property_value(
                props,
                "collider.convex_hull.mesh"@,
            ) matches Some(m) ==> p.shape == ColliderShapeView::ConvexHull(m))
            &&& property_value(props, "collider.shape"@) == Some("trimesh"@) ==> (property_value(
                props,
                "collider.trimesh.mesh"@,
            ) matches Some(m) ==> p.shape == ColliderShapeView::Trimesh(m))
        },
{
    reveal_strlit("ball");
    reveal_strlit("cuboid");
    reveal_strlit("convex_hull");
    reveal_strlit("trimesh");
    assert("ball"@.len() == 4 && "cuboid"@.len() == 6 && "convex_hull"@.len() == 11
        && "trimesh"@.len() == 7);
    if let Some(p) = spec_collider_plan(entity, props) {
        let shape = property_value(props, "collider.shape"@).unwrap();
        if shape == "convex_hull"@ {
            assert(shape != "ball"@ && shape != "cuboid"@);
            if let Some(m) = property_value(props, "collider.convex_hull.mesh"@) {
                assert(collider_mesh(props, "collider.convex_hull.mesh"@, entity) == m);
            }
        }
        if shape == "trimesh"@ {
            assert(shape != "ball"@ && shape != "cuboid"@ && shape != "convex_hull"@);
            if let Some(m) = property_value(props, "collider.trimesh.mesh"@) {
                assert(collider_mesh(props, "collider.trimesh.mesh"@, entity) == m);
            }
        }
    }
}

/// A map entity has a collider exactly when `collider` reads `true` and
/// `collider.shape` is given. Its shape is the one `collider.shape` names, a hull or
/// triangle mesh using the mesh `collider.<shape>.mesh` where that is given; it is a
/// sensor exactly when `collider.type` reads `sensor`; where
/// `collider.events.active` reads a number `n`, it reports contacts when bit 1 of
/// `n` is set, intersections when bit 2 is, and has an event output when `n` is not
/// zero, and otherwise it reports nothing; only a collider with an event output has
/// an event target, the value of `collider.events.target` where that is given.
pub proof fn lemma_collider_from_properties(entity: usize, props: Seq<Property>)
    ensures
        spec_collider_plan(entity, props) is Some <==> (spec_property_bool(props, "collider"@)
            == Ok::<bool, PropertyError>(true) && property_value(props, "collider.shape"@) is Some),
        spec_collider_plan(entity, props) matches Some(p) ==> {
            &&& collider_readable(props) ==> property_value(props, "collider.shape"@) == Some(
                shape_text(p.shape),
            )
            &&& property_value(props, "collider.shape"@) == Some("convex_hull"@) ==> (property_value(
                props,
                "collider.convex_hull.mesh"@,
            ) matches Some(m) ==> p.shape == ColliderShapeView::ConvexHull(m))
            &&& property_value(props, "collider.shape"@) == Some("trimesh"@) ==> (property_value(
                props,
                "collider.trimesh.mesh"@,
            ) matches Some(m) ==> p.shape == ColliderShapeView::Trimesh(m))
            &&& (p.sensor <==> property_value(props, "collider.type"@) == Some("sensor"@))
            &&& spec_property_usize(props, "collider.events.active"@) matches Ok(n) ==> {
                &&& p.contact_events == (n & 1 != 0)
                &&& p.intersection_events == (n & 2 != 0)
                &&& p.event_output == (n != 0)
            }
            &&& spec_property_usize(props, "collider.events.active"@) is Err ==> !p.contact_events
                && !p.intersection_events && !p.event_output
            &&& p.event_target is Some ==> p.event_output
            &&& p.event_output ==> (property_value(props, "collider.events.target"@) matches Some(t)
                ==> p.event_target == Some(t))
        },
{
    reveal_strlit("ball");
    reveal_strlit("cuboid");
    reveal_strlit("convex_hull");
    reveal_strlit("trimesh");
    assert(0usize & 1 == 0 && 0usize & 2 == 0) by (bit_vector);
    lemma_collider_shape(entity, props);
}

/// A brush entity shares a convex hull exactly when `convex_hull` reads `true`, a
/// single hull exactly when `convex_hull.type` reads `single`, under the name
/// `convex_hull.name` where that is given; it shares a collision mesh exactly when
/// `mesh.collision` reads `true`, under the name `mesh.collision.name` where given
pub proof fn lemma_shared_shapes_from_properties(entity: usize, props: Seq<Property>)
    ensures
        spec_shared_shape_plan(entity, props).hull is Some <==> spec_property_bool(
            props,
            "convex_hull"@,
        ) == Ok::<bool, PropertyError>(true),
        spec_shared_shape_plan(entity, props).hull matches Some((name, kind)) ==> {
            &&& (kind == HullKind::Single <==> property_value(props, "convex_hull.type"@) == Some(
                "single"@,
            ))
            &&& property_value(props, "convex_hull.name"@) matches Some(n) ==> name == n
        },
        spec_shared_shape_plan(entity, props).collision_mesh is Some <==> spec_property_bool(
            props,
            "mesh.collision"@,
        ) == Ok::<bool, PropertyError>(true),
        spec_shared_shape_plan(entity, props).collision_mesh matches Some(name) ==> (property_value(
            props,
            "mesh.collision.name"@,
        ) matches Some(n) ==> name == n),
{
}

} // verus!
