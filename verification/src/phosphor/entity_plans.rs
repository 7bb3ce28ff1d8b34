use vstd::prelude::*;

use crate::phosphor::map_data::{
    bool_property_readable, property_bool, property_string, property_target, property_targetname,
    property_value, spec_property_bool, spec_property_indirect, target_key, targetname_key,
    use_target_suffix, use_targetname_suffix, MapData, Properties, Property, PropertyError,
};
use crate::text::{chars_of, decimal_digits, str_eq, string_of_range};

verus! {

// ---------------------------------------------------------------------------
// What a map entity's properties make of it, apart from floating-point values
// ---------------------------------------------------------------------------

/// The flag `key` is `true`
pub open spec fn flag_set(props: Seq<Property>, key: Seq<char>) -> bool {
    spec_property_bool(props, key) == Ok::<bool, PropertyError>(true)
}

/// The value of `key`, or where it is absent and `<key>.use_target` is `true`, the
/// value of `target`
pub open spec fn target_of(props: Seq<Property>, key: Seq<char>) -> Result<Seq<char>, PropertyError> {
    spec_property_indirect(props, key, use_target_suffix(), target_key())
}

/// The value of `key`, or where it is absent and `<key>.use_targetname` is `true`,
/// the value of `targetname`
pub open spec fn targetname_of(props: Seq<Property>, key: Seq<char>) -> Result<Seq<char>, PropertyError> {
    spec_property_indirect(props, key, use_targetname_suffix(), targetname_key())
}

/// A lookup through `<key>.use_target` reads that flag only where `key` is absent
pub open spec fn target_readable(props: Seq<Property>, key: Seq<char>) -> bool {
    property_value(props, key) is None ==> bool_property_readable(props, key + use_target_suffix())
}

/// A lookup through `<key>.use_targetname` reads that flag only where `key` is absent
pub open spec fn targetname_readable(props: Seq<Property>, key: Seq<char>) -> bool {
    property_value(props, key) is None ==> bool_property_readable(
        props,
        key + use_targetname_suffix(),
    )
}

/// The default name of an entity: `entity_<id>`
pub open spec fn default_name(entity: usize) -> Seq<char> {
    seq!['e', 'n', 't', 'i', 't', 'y', '_'] + decimal_digits(entity as nat)
}

/// The mesh an instance shows where the flag `flag` is set: the target of `key`,
/// or else the entity's default name
pub open spec fn spec_mesh_instance(
    entity: usize,
    props: Seq<Property>,
    flag: Seq<char>,
    key: Seq<char>,
) -> Option<Seq<char>> {
    if flag_set(props, flag) {
        match target_of(props, key) {
            Ok(m) => Some(m),
            Err(_) => Some(default_name(entity)),
        }
    } else {
        None
    }
}

fn mesh_instance(
    entity: usize,
    properties: &Properties,
    flag: &str,
    key: &str,
) -> (res: Option<String>)
    requires
        bool_property_readable(properties.0@, flag@),
        flag_set(properties.0@, flag@) ==> target_readable(properties.0@, key@),
    ensures
        res matches Some(m) ==> spec_mesh_instance(entity, properties.0@, flag@, key@) == Some(
            m@,
        ),
        res is None ==> spec_mesh_instance(entity, properties.0@, flag@, key@) is None,
{
    match property_bool(flag, properties) {
        Ok(true) => match property_target(key, properties) {
            Ok(m) => Some(m),
            Err(_) => Some(MapData::default_entity_name(entity)),
        },
        _ => None,
    }
}

/// The line mesh a map entity shows an instance of, where `mesh_instance.line` is
/// `true`: `mesh_instance.line.mesh` (or the entity's target), else its default name
pub fn line_mesh_instance(entity: usize, properties: &Properties) -> (res: Option<String>)
    requires
        bool_property_readable(properties.0@, "mesh_instance.line"@),
        flag_set(properties.0@, "mesh_instance.line"@) ==> target_readable(
            properties.0@,
            "mesh_instance.line.mesh"@,
        ),
    ensures
        res matches Some(m) ==> spec_mesh_instance(
            entity,
            properties.0@,
            "mesh_instance.line"@,
            "mesh_instance.line.mesh"@,
        ) == Some(m@),
        res is None ==> spec_mesh_instance(
            entity,
            properties.0@,
            "mesh_instance.line"@,
            "mesh_instance.line.mesh"@,
        ) is None,
{
    mesh_instance(entity, properties, "mesh_instance.line", "mesh_instance.line.mesh")
}

/// The triangle mesh a map entity shows an instance of, where
/// `mesh_instance.triangle` is `true`: `mesh_instance.triangle.mesh` (or the
/// entity's target), else its default name
pub fn triangle_mesh_instance(entity: usize, properties: &Properties) -> (res: Option<String>)
    requires
        bool_property_readable(properties.0@, "mesh_instance.triangle"@),
        flag_set(properties.0@, "mesh_instance.triangle"@) ==> target_readable(
            properties.0@,
            "mesh_instance.triangle.mesh"@,
        ),
    ensures
        res matches Some(m) ==> spec_mesh_instance(
            entity,
            properties.0@,
            "mesh_instance.triangle"@,
            "mesh_instance.triangle.mesh"@,
        ) == Some(m@),
        res is None ==> spec_mesh_instance(
            entity,
            properties.0@,
            "mesh_instance.triangle"@,
            "mesh_instance.triangle.mesh"@,
        ) is None,
{
    mesh_instance(entity, properties, "mesh_instance.triangle", "mesh_instance.triangle.mesh")
}

/// An entity shows an instance of a mesh exactly when its flag reads `true`: the
/// mesh named by its key where that is given, the target where the key is absent
/// and `<key>.use_target` reads `true`, and otherwise the entity's default name
pub proof fn lemma_mesh_instance_choice(
    entity: usize,
    props: Seq<Property>,
    flag: Seq<char>,
    key: Seq<char>,
)
    ensures
        spec_mesh_instance(entity, props, flag, key) is Some <==> flag_set(props, flag),
        flag_set(props, flag) ==> (property_value(props, key) matches Some(m) ==> spec_mesh_instance(
            entity,
            props,
            flag,
            key,
        ) == Some(m)),
        flag_set(props, flag) && property_value(props, key) is None && spec_property_bool(
            props,
            key + use_target_suffix(),
        ) != Ok::<bool, PropertyError>(true) ==> spec_mesh_instance(entity, props, flag, key)
            == Some(seq!['e', 'n', 't', 'i', 't', 'y', '_'] + decimal_digits(entity as nat)),
        flag_set(props, flag) && property_value(props, key) is None && spec_property_bool(
            props,
            key + use_target_suffix(),
        ) == Ok::<bool, PropertyError>(true) ==> (property_value(props, target_key()) matches Some(
            t,
        ) ==> spec_mesh_instance(entity, props, flag, key) == Some(t)),
{
}

// ---------------------------------------------------------------------------
// Rigid bodies
// ---------------------------------------------------------------------------

/// The kind of a rigid body
#[derive(Debug, Clone, Copy, PartialEq, Eq)]
pub enum RigidBodyKind {
    Dynamic,
    KinematicPositionBased,
    KinematicVelocityBased,
    Static,
}

/// The rigid body kind that a `rigid_body.type` text names
pub open spec fn rigid_body_kind_of(t: Seq<char>) -> Option<RigidBodyKind> {
    if t == "dynamic"@ {
        Some(RigidBodyKind::Dynamic)
    } else if t == "kinematic_position_based"@ {
        Some(RigidBodyKind::KinematicPositionBased)
    } else if t == "kinematic_velocity_based"@ {
        Some(RigidBodyKind::KinematicVelocityBased)
    } else if t == "static"@ {
        Some(RigidBodyKind::Static)
    } else {
        None
    }
}

/// The properties of a rigid body read without failing: the flag says `true` or
/// `false`, and a type, where there is one, is one of the four kinds
pub open spec fn rigid_body_readable(props: Seq<Property>) -> bool {
    &&& bool_property_readable(props, "rigid_body"@)
    &&& flag_set(props, "rigid_body"@) ==> (property_value(props, "rigid_body.type"@) matches Some(
        t,
    ) ==> rigid_body_kind_of(t) is Some)
}

/// What `rigid_body` asks for: `None` where it is not `true`; else the kind named
/// by `rigid_body.type`, where there is one (the body itself is built only then)
pub open spec fn spec_rigid_body_plan(props: Seq<Property>) -> Option<Option<RigidBodyKind>> {
    if flag_set(props, "rigid_body"@) {
        match property_value(props, "rigid_body.type"@) {
            Some(t) => Some(rigid_body_kind_of(t)),
            None => Some(None),
        }
    } else {
        None
    }
}

/// The rigid body of a map entity (see [`spec_rigid_body_plan`]); its velocities
/// are read by the caller
pub fn rigid_body_plan(properties: &Properties) -> (res: Option<Option<RigidBodyKind>>)
    requires
        rigid_body_readable(properties.0@),
    ensures
        res == spec_rigid_body_plan(properties.0@),
{
    match property_bool("rigid_body", properties) {
        Ok(true) => {},
        _ => {
            return None;
        },
    }
    match property_string("rigid_body.type", properties) {
        Ok(t) => {
            let kind = if str_eq(t, "dynamic") {
                RigidBodyKind::Dynamic
            } else if str_eq(t, "kinematic_position_based") {
                RigidBodyKind::KinematicPositionBased
            } else if str_eq(t, "kinematic_velocity_based") {
                RigidBodyKind::KinematicVelocityBased
            } else {
                RigidBodyKind::Static
            };
            Some(Some(kind))
        },
        Err(_) => Some(None),
    }
}

/// The `rigid_body.type` text of a kind
pub open spec fn rigid_body_type_text(k: RigidBodyKind) -> Seq<char> {
    match k {
        RigidBodyKind::Dynamic => "dynamic"@,
        RigidBodyKind::KinematicPositionBased => "kinematic_position_based"@,
        RigidBodyKind::KinematicVelocityBased => "kinematic_velocity_based"@,
        RigidBodyKind::Static => "static"@,
    }
}

/// A map entity has a rigid body plan exactly when `rigid_body` reads `true`; it
/// names a kind exactly when `rigid_body.type` is given, and the kind is the one
/// whose text `rigid_body.type` is, so the four texts give four different kinds
pub proof fn lemma_rigid_body_from_properties(props: Seq<Property>)
    ensures
        spec_rigid_body_plan(props) is Some <==> flag_set(props, "rigid_body"@),
        rigid_body_readable(props) ==> (spec_rigid_body_plan(props) == Some(None::<RigidBodyKind>)
            <==> (flag_set(props, "rigid_body"@) && property_value(props, "rigid_body.type"@) is None)),
        rigid_body_readable(props) ==> (spec_rigid_body_plan(props) matches Some(Some(k))
            ==> property_value(props, "rigid_body.type"@) == Some(rigid_body_type_text(k))),
{
}

/// Each kind is read back from its own text
pub proof fn lemma_rigid_body_kind_texts(k: RigidBodyKind)
    ensures
        rigid_body_kind_of(rigid_body_type_text(k)) == Some(k),
{
    reveal_strlit("dynamic");
    reveal_strlit("kinematic_position_based");
    reveal_strlit("kinematic_velocity_based");
    reveal_strlit("static");
    assert("dynamic"@.len() == 7 && "static"@.len() == 6 && "kinematic_position_based"@.len() == 24
        && "kinematic_velocity_based"@.len() == 24);
    assert("kinematic_position_based"@[10] == 'p' && "kinematic_velocity_based"@[10] == 'v');
}

// ---------------------------------------------------------------------------
// Movers and events
// ---------------------------------------------------------------------------

/// What a mover is made of, apart from its offsets and speed: whether it starts
/// open (where `mover.open` says), and the name it receives events under (where
/// `mover.events` is `true`)
#[derive(Debug, Clone, PartialEq)]
pub struct MoverPlan {
    pub open: Option<bool>,
    pub event_name: Option<String>,
}

/// The model of a [`MoverPlan`]
pub struct MoverPlanView {
    pub open: Option<bool>,
    pub event_name: Option<Seq<char>>,
}

impl View for MoverPlan {
    type V = MoverPlanView;

    open spec fn view(&self) -> MoverPlanView {
        MoverPlanView {
            open: self.open,
            event_name: match self.event_name {
                Some(n) => Some(n@),
                None => None,
            },
        }
    }
}

/// The properties of a mover read without failing: its flags say `true` or
/// `false`, and one that receives events has a name (`mover.name`, or the target
/// name where `mover.name.use_targetname` is `true`)
pub open spec fn mover_readable(props: Seq<Property>) -> bool {
    &&& bool_property_readable(props, "mover"@)
    &&& flag_set(props, "mover"@) ==> {
        &&& bool_property_readable(props, "mover.open"@)
        &&& bool_property_readable(props, "mover.events"@)
        &&& flag_set(props, "mover.events"@) ==> {
            &&& targetname_readable(props, "mover.name"@)
            &&& targetname_of(props, "mover.name"@) is Ok
        }
    }
}

/// A map entity's mover, where `mover` is `true`
pub open spec fn spec_mover_plan(props: Seq<Property>) -> Option<MoverPlanView> {
    if flag_set(props, "mover"@) {
        Some(
            MoverPlanView {
                open: match spec_property_bool(props, "mover.open"@) {
                    Ok(b) => Some(b),
                    Err(_) => None,
                },
                event_name: if flag_set(props, "mover.events"@) {
                    match targetname_of(props, "mover.name"@) {
                        Ok(n) => Some(n),
                        Err(_) => None,
                    }
                } else {
                    None
                },
            },
        )
    } else {
        None
    }
}

/// The mover of a map entity (see [`spec_mover_plan`]); its offsets and speed are
/// read by the caller
pub fn mover_plan(properties: &Properties) -> (res: Option<MoverPlan>)
    requires
        mover_readable(properties.0@),
    ensures
        res matches Some(p) ==> spec_mover_plan(properties.0@) == Some(p@),
        res is None ==> spec_mover_plan(properties.0@) is None,
{
    match property_bool("mover", properties) {
        Ok(true) => {},
        _ => {
            return None;
        },
    }
    let open = match property_bool("mover.open", properties) {
        Ok(b) => Some(b),
        Err(_) => None,
    };
    let event_name = match property_bool("mover.events", properties) {
        Ok(true) => match property_targetname("mover.name", properties) {
            Ok(n) => Some(n),
            Err(_) => None,
        },
        _ => None,
    };
    Some(MoverPlan { open, event_name })
}

/// A map entity has a mover exactly when `mover` reads `true`. It starts open or
/// closed as `mover.open` reads, where that is given; it receives events exactly
/// when `mover.events` reads `true`, under the name `mover.name` where that is given
pub proof fn lemma_mover_from_properties(props: Seq<Property>)
    ensures
        spec_mover_plan(props) is Some <==> flag_set(props, "mover"@),
        spec_mover_plan(props) matches Some(p) ==> {
            &&& (p.open == Some(true) <==> property_value(props, "mover.open"@) == Some("true"@))
            &&& (p.open is None <==> property_value(props, "mover.open"@) is None)
            &&& mover_readable(props) ==> (p.event_name is Some <==> flag_set(props, "mover.events"@))
            &&& p.event_name is Some ==> (property_value(props, "mover.name"@) matches Some(n)
                ==> p.event_name == Some(n))
        },
{
    reveal_strlit("true");
    assert("true"@ =~= seq!['t', 'r', 'u', 'e']);
}

/// What an event relay is made of: it takes a collider's intersection events and
/// sends mover events to its target, under its own name
#[derive(Debug, Clone, PartialEq)]
pub struct EventPlan {
    pub target: String,
    pub name: String,
}

/// The properties of an event relay read without failing: `event.in` is
/// `collider.intersection.enter` or `collider.intersection.exit`, `event.out` is
/// `mover.open`, and it has a target and a name
pub open spec fn event_readable(props: Seq<Property>) -> bool {
    &&& bool_property_readable(props, "event"@)
    &&& flag_set(props, "event"@) ==> {
        &&& property_value(props, "event.in"@) matches Some(i) && (i
            == "collider.intersection.enter"@ || i == "collider.intersection.exit"@)
        &&& property_value(props, "event.out"@) == Some("mover.open"@)
        &&& target_readable(props, "event.target"@)
        &&& target_of(props, "event.target"@) is Ok
        &&& targetname_readable(props, "event.name"@)
        &&& targetname_of(props, "event.name"@) is Ok
    }
}

/// The event relay of a map entity, where `event` is `true` (see [`EventPlan`])
pub fn event_plan(properties: &Properties) -> (res: Option<EventPlan>)
    requires
        event_readable(properties.0@),
    ensures
        res matches Some(p) ==> flag_set(properties.0@, "event"@) && target_of(
            properties.0@,
            "event.target"@,
        ) == Ok::<Seq<char>, PropertyError>(p.target@) && targetname_of(
            properties.0@,
            "event.name"@,
        ) == Ok::<Seq<char>, PropertyError>(p.name@),
        res is None <==> !flag_set(properties.0@, "event"@),
{
    match property_bool("event", properties) {
        Ok(true) => {},
        _ => {
            return None;
        },
    }
    let target = match property_target("event.target", properties) {
        Ok(t) => t,
        Err(_) => {
            proof {
                assert(false);
            }
            return None;
        },
    };
    let name = match property_targetname("event.name", properties) {
        Ok(n) => n,
        Err(_) => {
            proof {
                assert(false);
            }
            return None;
        },
    };
    Some(EventPlan { target, name })
}

// ---------------------------------------------------------------------------
// Text
// ---------------------------------------------------------------------------

/// One character of a text entity: its column and row, and the line mesh that
/// draws it (`char_<c>`)
#[derive(Debug, Clone, PartialEq)]
pub struct TextGlyph {
    pub column: usize,
    pub row: usize,
    pub mesh: String,
}

/// The model of a [`TextGlyph`]
pub struct TextGlyphView {
    pub column: nat,
    pub row: nat,
    pub mesh: Seq<char>,
}

impl View for TextGlyph {
    type V = TextGlyphView;

    open spec fn view(&self) -> TextGlyphView {
        TextGlyphView { column: self.column as nat, row: self.row as nat, mesh: self.mesh@ }
    }
}

/// The glyphs of a text from index `i` on, the next one at `column` and `row`: the
/// two characters `\n` start the next row, a space leaves its column empty, and any
/// other character is drawn by the mesh `char_<c>`
pub open spec fn glyphs_from(s: Seq<char>, i: int, column: nat, row: nat) -> Seq<TextGlyphView>
    decreases s.len() - i,
{
    if i < 0 || i >= s.len() {
        Seq::empty()
    } else if s[i] == '\\' && i + 1 < s.len() && s[i + 1] == 'n' {
        glyphs_from(s, i + 2, 0, row + 1)
    } else if s[i] == ' ' {
        glyphs_from(s, i + 1, column + 1, row)
    } else {
        seq![TextGlyphView { column, row, mesh: seq!['c', 'h', 'a', 'r', '_', s[i]] }]
            + glyphs_from(s, i + 1, column + 1, row)
    }
}

/// The glyphs a text entity draws, where `text` is `true` (it then needs
/// `text.string`); where they are placed in space is left to the caller
pub fn text_glyphs(properties: &Properties) -> (res: Vec<TextGlyph>)
    requires
        bool_property_readable(properties.0@, "text"@),
        flag_set(properties.0@, "text"@) ==> property_value(properties.0@, "text.string"@) is Some,
    ensures
        flag_set(properties.0@, "text"@) ==> res@.map_values(|g: TextGlyph| g@) == glyphs_from(
            property_value(properties.0@, "text.string"@).unwrap(),
            0,
            0,
            0,
        ),
        !flag_set(properties.0@, "text"@) ==> res@.len() == 0,
{
    let mut glyphs: Vec<TextGlyph> = Vec::new();
    match property_bool("text", properties) {
        Ok(true) => {},
        _ => {
            return glyphs;
        },
    }
    let text = match property_string("text.string", properties) {
        Ok(t) => t,
        Err(_) => {
            return glyphs;
        },
    };
    let cs = chars_of(text);
    let ghost s = cs@;
    let mut i: usize = 0;
    let mut column: usize = 0;
    let mut row: usize = 0;
    while i < cs.len()
        invariant
            s == cs@,
            i <= cs.len(),
            column <= i,
            row <= i,
            glyphs@.map_values(|g: TextGlyph| g@) + glyphs_from(s, i as int, column as nat, row as nat)
                == glyphs_from(s, 0, 0, 0),
        decreases cs.len() - i,
    {
        let ghost before = glyphs@.map_values(|g: TextGlyph| g@);
        let ghost (i0, c0, r0) = (i as int, column as nat, row as nat);
        if cs[i] == '\\' && i + 1 < cs.len() && cs[i + 1] == 'n' {
            i = i + 2;
            column = 0;
            row = row + 1;
        } else if cs[i] == ' ' {
            i = i + 1;
            column = column + 1;
        } else {
            let mut key: Vec<char> = Vec::new();
            key.push('c');
            key.push('h');
            key.push('a');
            key.push('r');
            key.push('_');
            key.push(cs[i]);
            let mesh = string_of_range(&key, 0, 6);
            proof {
                assert(key@.subrange(0, 6) =~= seq!['c', 'h', 'a', 'r', '_', s[i0]]);
            }
            let g = TextGlyph { column, row, mesh };
            glyphs.push(g);
            proof {
                assert(glyphs@.map_values(|g: TextGlyph| g@) =~= before + seq![g@]);
                assert(glyphs_from(s, i0, c0, r0) == seq![g@] + glyphs_from(s, i0 + 1, c0 + 1, r0));
                assert(before + seq![g@] + glyphs_from(s, i0 + 1, c0 + 1, r0) =~= before + (seq![
                    g@,
                ] + glyphs_from(s, i0 + 1, c0 + 1, r0)));
            }
            i = i + 1;
            column = column + 1;
        }
    }
    proof {
        assert(glyphs_from(s, i as int, column as nat, row as nat) =~= Seq::<TextGlyphView>::empty());
    }
    glyphs
}

/// The glyphs of one line of text from place `i` on: each stands at the place of a
/// character that is not a space, in row 0, drawn by the mesh of that character;
/// they go left to right, and every such character from `i` on has one
proof fn lemma_line_glyphs_from(s: Seq<char>, i: int)
    requires
        0 <= i <= s.len(),
        forall|j: int| 0 <= j < s.len() ==> s[j] != '\\',
    ensures
        ({
            let gs = glyphs_from(s, i, i as nat, 0);
            &&& forall|k: int|
                0 <= k < gs.len() ==> {
                    &&& (#[trigger] gs[k]).row == 0
                    &&& i <= gs[k].column < s.len()
                    &&& s[gs[k].column as int] != ' '
                    &&& gs[k].mesh == seq!['c', 'h', 'a', 'r', '_', s[gs[k].column as int]]
                }
            &&& forall|k1: int, k2: int|
                0 <= k1 < k2 < gs.len() ==> (#[trigger] gs[k1]).column < (#[trigger] gs[k2]).column
            &&& forall|j: int|
                i <= j < s.len() && s[j] != ' ' ==> exists|k: int|
                    0 <= k < gs.len() && (#[trigger] gs[k]).column == j
        }),
    decreases s.len() - i,
{
    if i < s.len() {
        lemma_line_glyphs_from(s, i + 1);
        let rest = glyphs_from(s, i + 1, (i + 1) as nat, 0);
        let gs = glyphs_from(s, i, i as nat, 0);
        assert(s[i] != '\\');
        if s[i] == ' ' {
            assert(gs == rest);
        } else {
            let g = TextGlyphView {
                column: i as nat,
                row: 0,
                mesh: seq!['c', 'h', 'a', 'r', '_', s[i]],
            };
            assert(gs == seq![g] + rest);
            assert forall|j: int| i <= j < s.len() && s[j] != ' ' implies exists|k: int|
                0 <= k < gs.len() && (#[trigger] gs[k]).column == j by {
                if j == i {
                    assert(gs[0].column == j);
                } else {
                    let k = choose|k: int| 0 <= k < rest.len() && (#[trigger] rest[k]).column == j;
                    assert(gs[k + 1] == rest[k]);
                }
            }
            assert forall|k: int| 0 <= k < gs.len() implies {
                &&& (#[trigger] gs[k]).row == 0
                &&& i <= gs[k].column < s.len()
                &&& s[gs[k].column as int] != ' '
                &&& gs[k].mesh == seq!['c', 'h', 'a', 'r', '_', s[gs[k].column as int]]
            } by {
                if k > 0 {
                    assert(gs[k] == rest[k - 1]);
                }
            }
            assert forall|k1: int, k2: int| 0 <= k1 < k2 < gs.len() implies (#[trigger] gs[
                k1
            ]).column < (#[trigger] gs[k2]).column by {
                assert(gs[k2] == rest[k2 - 1]);
                if k1 > 0 {
                    assert(gs[k1] == rest[k1 - 1]);
                }
            }
        }
    }
}

/// A text of one line (without `\n`) draws each of its characters that is not a
/// space, left to right, in row 0 and in the column of its place, with the mesh
/// `char_<c>` of that character; spaces leave their columns empty
pub proof fn lemma_one_line_text(s: Seq<char>)
    requires
        forall|j: int| 0 <= j < s.len() ==> s[j] != '\\',
    ensures
        ({
            let gs = glyphs_from(s, 0, 0, 0);
            &&& forall|k: int|
                0 <= k < gs.len() ==> {
                    &&& (#[trigger] gs[k]).row == 0
                    &&& gs[k].column < s.len()
                    &&& s[gs[k].column as int] != ' '
                    &&& gs[k].mesh == seq!['c', 'h', 'a', 'r', '_', s[gs[k].column as int]]
                }
            &&& forall|k1: int, k2: int|
                0 <= k1 < k2 < gs.len() ==> (#[trigger] gs[k1]).column < (#[trigger] gs[k2]).column
            &&& forall|j: int|
                0 <= j < s.len() && s[j] != ' ' ==> exists|k: int|
                    0 <= k < gs.len() && (#[trigger] gs[k]).column == j
        }),
{
    lemma_line_glyphs_from(s, 0);
    assert((0int) as nat == 0nat);
}

/// `\n` starts a new row: the glyphs of `x` followed by `\n` and `y` are those of `x`,
/// then those of `y` one row further down, starting again at column 0
pub proof fn lemma_text_new_row(x: Seq<char>, y: Seq<char>, row: nat)
    requires
        forall|j: int| 0 <= j < x.len() ==> x[j] != '\\',
    ensures
        glyphs_from(x + seq!['\\', 'n'] + y, 0, 0, row) == glyphs_from(x, 0, 0, row)
            + glyphs_from(y, 0, 0, row + 1),
{
    lemma_text_new_row_from(x, y, row, 0, 0);
}

proof fn lemma_text_new_row_from(x: Seq<char>, y: Seq<char>, row: nat, i: int, column: nat)
    requires
        forall|j: int| 0 <= j < x.len() ==> x[j] != '\\',
        0 <= i <= x.len(),
    ensures
        glyphs_from(x + seq!['\\', 'n'] + y, i, column, row) == glyphs_from(x, i, column, row)
            + glyphs_from(y, 0, 0, row + 1),
    decreases x.len() - i,
{
    let s = x + seq!['\\', 'n'] + y;
    if i < x.len() {
        lemma_text_new_row_from(x, y, row, i + 1, column + 1);
        assert(s[i] == x[i]);
        if i + 1 < x.len() {
            assert(s[i + 1] == x[i + 1]);
        } else {
            assert(s[i + 1] == '\\');
        }
        if x[i] != ' ' {
            let g = TextGlyphView {
                column,
                row,
                mesh: seq!['c', 'h', 'a', 'r', '_', x[i]],
            };
            assert(seq![g] + glyphs_from(x, i + 1, column + 1, row) + glyphs_from(y, 0, 0, row + 1)
                =~= seq![g] + (glyphs_from(x, i + 1, column + 1, row) + glyphs_from(
                y,
                0,
                0,
                row + 1,
            )));
        }
    } else {
        assert(s[i] == '\\' && s[i + 1] == 'n');
        assert(glyphs_from(x, i, column, row) =~= Seq::<TextGlyphView>::empty());
        let pre = x + seq!['\\', 'n'];
        lemma_glyphs_shift(pre, y, 0, 0, row + 1);
        assert(s == pre + y);
        assert(pre.len() + 0 == i + 2);
    }
}

/// Glyphs read from a text with characters in front of it are those of the text
proof fn lemma_glyphs_shift(pre: Seq<char>, y: Seq<char>, i: int, column: nat, row: nat)
    requires
        0 <= i <= y.len(),
    ensures
        glyphs_from(pre + y, pre.len() + i, column, row) == glyphs_from(y, i, column, row),
    decreases y.len() - i,
{
    let s = pre + y;
    let p = pre.len() as int;
    assert(s.len() == p + y.len());
    if i < y.len() {
        assert(s[p + i] == y[i]);
        if i + 1 < y.len() {
            assert(s[p + i + 1] == y[i + 1]);
        }
        if y[i] == '\\' && i + 1 < y.len() && y[i + 1] == 'n' {
            lemma_glyphs_shift(pre, y, i + 2, 0, row + 1);
            assert(p + (i + 2) == p + i + 2);
        } else if y[i] == ' ' {
            lemma_glyphs_shift(pre, y, i + 1, column + 1, row);
            assert(p + (i + 1) == p + i + 1);
        } else {
            lemma_glyphs_shift(pre, y, i + 1, column + 1, row);
            assert(p + (i + 1) == p + i + 1);
        }
    }
}

} // verus!
