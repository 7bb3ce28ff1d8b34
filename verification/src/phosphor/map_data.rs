use std::collections::BTreeMap;
use vstd::prelude::*;

use crate::text::{
    chars_of, decimal_digits, parse_usize, spec_parse_usize, str_concat, str_eq, string_of_range,
    push_decimal,
};

verus! {

broadcast use vstd::std_specs::btree::group_btree_axioms;

/// A key-value pair of a map entity
#[derive(Debug, Clone, PartialEq)]
pub struct Property {
    pub key: String,
    pub value: String,
}

/// The properties of a map entity, in the order the map file lists them
#[derive(Debug, Clone, PartialEq)]
pub struct Properties(pub Vec<Property>);

/// Why a property could not be read
#[derive(PartialEq, Eq, Structural, Clone, Copy, Debug)]
pub enum PropertyError {
    /// No property has the key
    KeyNotFound,
    /// The value is not a number
    InvalidNumber,
    /// Neither the property nor its `use_target`/`use_targetname` fallback is set
    NoSuchProperty,
}

/// `i` is the first index of a property with key `key`
pub open spec fn is_first_key(s: Seq<Property>, key: Seq<char>, i: int) -> bool {
    &&& 0 <= i < s.len()
    &&& s[i].key@ == key
    &&& forall|j: int| 0 <= j < i ==> s[j].key@ != key
}

/// The value of the first property with key `key`
pub open spec fn property_value(props: Seq<Property>, key: Seq<char>) -> Option<Seq<char>> {
    if exists|i: int| is_first_key(props, key, i) {
        Some(props[choose|i: int| is_first_key(props, key, i)].value@)
    } else {
        None
    }
}

/// The boolean that a property value spells, if any
pub open spec fn bool_text(v: Seq<char>) -> Option<bool> {
    if v == seq!['t', 'r', 'u', 'e'] {
        Some(true)
    } else if v == seq!['f', 'a', 'l', 's', 'e'] {
        Some(false)
    } else {
        None
    }
}

/// What reading a number property gives
pub open spec fn spec_property_usize(props: Seq<Property>, key: Seq<char>) -> Result<usize, PropertyError> {
    match property_value(props, key) {
        None => Err(PropertyError::KeyNotFound),
        Some(v) => match spec_parse_usize(v) {
            Some(n) => Ok(n),
            None => Err(PropertyError::InvalidNumber),
        },
    }
}

/// Reading a boolean property does not fail on a malformed value
pub open spec fn bool_property_readable(props: Seq<Property>, key: Seq<char>) -> bool {
    property_value(props, key) matches Some(v) ==> bool_text(v) is Some
}

/// What reading a boolean property gives
pub open spec fn spec_property_bool(props: Seq<Property>, key: Seq<char>) -> Result<bool, PropertyError> {
    match property_value(props, key) {
        None => Err(PropertyError::KeyNotFound),
        Some(v) => Ok(bool_text(v) == Some(true)),
    }
}

/// What a property that may defer to another key gives: its own value, or, where
/// it is absent and `<key><use_suffix>` is `true`, the value of `fallback`
pub open spec fn spec_property_indirect(
    props: Seq<Property>,
    key: Seq<char>,
    use_suffix: Seq<char>,
    fallback: Seq<char>,
) -> Result<Seq<char>, PropertyError> {
    match property_value(props, key) {
        Some(v) => Ok(v),
        None => if spec_property_bool(props, key + use_suffix) == Ok::<bool, PropertyError>(true) {
            match property_value(props, fallback) {
                Some(t) => Ok(t),
                None => Err(PropertyError::KeyNotFound),
            }
        } else {
            Err(PropertyError::NoSuchProperty)
        },
    }
}

pub open spec fn use_target_suffix() -> Seq<char> {
    seq!['.', 'u', 's', 'e', '_', 't', 'a', 'r', 'g', 'e', 't']
}

pub open spec fn use_targetname_suffix() -> Seq<char> {
    seq!['.', 'u', 's', 'e', '_', 't', 'a', 'r', 'g', 'e', 't', 'n', 'a', 'm', 'e']
}

pub open spec fn target_key() -> Seq<char> {
    seq!['t', 'a', 'r', 'g', 'e', 't']
}

pub open spec fn targetname_key() -> Seq<char> {
    seq!['t', 'a', 'r', 'g', 'e', 't', 'n', 'a', 'm', 'e']
}

/// The view of a string result
pub open spec fn string_result_view(r: Result<String, PropertyError>) -> Result<Seq<char>, PropertyError> {
    match r {
        Ok(s) => Ok(s@),
        Err(e) => Err(e),
    }
}

impl Properties {
    /// Index of the first property with key `key`
    pub fn find(&self, key: &str) -> (res: Option<usize>)
        ensures
            match res {
                Some(i) => is_first_key(self.0@, key@, i as int),
                None => property_value(self.0@, key@) is None,
            },
    {
        let mut i: usize = 0;
        while i < self.0.len()
            invariant
                i <= self.0@.len(),
                forall|j: int| 0 <= j < i ==> self.0@[j].key@ != key@,
            decreases self.0.len() - i,
        {
            if str_eq(self.0[i].key.as_str(), key) {
                return Some(i);
            }
            i += 1;
        }
        None
    }
}

/// The first property is the one whose value a lookup gives
pub proof fn lemma_property_value_first(props: Seq<Property>, key: Seq<char>, i: int)
    requires
        is_first_key(props, key, i),
    ensures
        property_value(props, key) == Some(props[i].value@),
{
    let c = choose|c: int| is_first_key(props, key, c);
    if c < i {
        assert(props[c].key@ == key);
    } else if i < c {
        assert(props[i].key@ == key);
    }
}

/// The value of the property `key`
pub fn property_string<'a>(key: &str, properties: &'a Properties) -> (res: Result<&'a str, PropertyError>)
    ensures
        match res {
            Ok(v) => property_value(properties.0@, key@) == Some(v@),
            Err(e) => property_value(properties.0@, key@) is None && e == PropertyError::KeyNotFound,
        },
{
    match properties.find(key) {
        Some(i) => {
            proof {
                lemma_property_value_first(properties.0@, key@, i as int);
            }
            Ok(properties.0[i].value.as_str())
        },
        None => Err(PropertyError::KeyNotFound),
    }
}

/// The value of the property `key`, read as a decimal number
pub fn property_usize(key: &str, properties: &Properties) -> (res: Result<usize, PropertyError>)
    ensures
        res == spec_property_usize(properties.0@, key@),
{
    let value = property_string(key, properties)?;
    match parse_usize(value) {
        Some(n) => Ok(n),
        None => Err(PropertyError::InvalidNumber),
    }
}

/// The value of the property `key`, which must read `true` or `false`
pub fn property_bool(key: &str, properties: &Properties) -> (res: Result<bool, PropertyError>)
    requires
        bool_property_readable(properties.0@, key@),
    ensures
        res == spec_property_bool(properties.0@, key@),
{
    let value = property_string(key, properties)?;
    proof {
        reveal_strlit("true");
        reveal_strlit("false");
        assert("true"@ =~= seq!['t', 'r', 'u', 'e']);
        assert("false"@ =~= seq!['f', 'a', 'l', 's', 'e']);
    }
    if str_eq(value, "true") {
        Ok(true)
    } else if str_eq(value, "false") {
        Ok(false)
    } else {
        proof {
            assert(false);
        }
        vstd::pervasive::unreached()
    }
}

/// The value of `property`, or where it is absent and `<property>.use_target` is
/// `true`, the value of `target`
pub fn property_target(property: &str, properties: &Properties) -> (res: Result<String, PropertyError>)
    requires
        property_value(properties.0@, property@) is None ==> bool_property_readable(
            properties.0@,
            property@ + use_target_suffix(),
        ),
    ensures
        string_result_view(res) == spec_property_indirect(
            properties.0@,
            property@,
            use_target_suffix(),
            target_key(),
        ),
{
    proof {
        reveal_strlit(".use_target");
        reveal_strlit("target");
        assert(".use_target"@ =~= use_target_suffix());
        assert("target"@ =~= target_key());
    }
    property_indirect(property, properties, ".use_target", "target")
}

/// The value of `property`, or where it is absent and `<property>.use_targetname`
/// is `true`, the value of `targetname`
pub fn property_targetname(property: &str, properties: &Properties) -> (res: Result<String, PropertyError>)
    requires
        property_value(properties.0@, property@) is None ==> bool_property_readable(
            properties.0@,
            property@ + use_targetname_suffix(),
        ),
    ensures
        string_result_view(res) == spec_property_indirect(
            properties.0@,
            property@,
            use_targetname_suffix(),
            targetname_key(),
        ),
{
    proof {
        reveal_strlit(".use_targetname");
        reveal_strlit("targetname");
        assert(".use_targetname"@ =~= use_targetname_suffix());
        assert("targetname"@ =~= targetname_key());
    }
    property_indirect(property, properties, ".use_targetname", "targetname")
}

fn to_owned_string(s: &str) -> (res: String)
    ensures
        res@ == s@,
{
    s.to_owned()
}

fn property_indirect(
    property: &str,
    properties: &Properties,
    use_suffix: &str,
    fallback: &str,
) -> (res: Result<String, PropertyError>)
    requires
        property_value(properties.0@, property@) is None ==> bool_property_readable(
            properties.0@,
            property@ + use_suffix@,
        ),
    ensures
        string_result_view(res) == spec_property_indirect(
            properties.0@,
            property@,
            use_suffix@,
            fallback@,
        ),
{
    if let Ok(value) = property_string(property, properties) {
        return Ok(to_owned_string(value));
    }
    let use_key = str_concat(property, use_suffix);
    match property_bool(use_key.as_str(), properties) {
        Ok(true) => {
            let t = property_string(fallback, properties)?;
            Ok(to_owned_string(t))
        },
        _ => Err(PropertyError::NoSuchProperty),
    }
}


// ---------------------------------------------------------------------------
// Texture names
// ---------------------------------------------------------------------------

/// `w` occurs in `s` at index `i`
pub open spec fn occurs_at(s: Seq<char>, w: Seq<char>, i: int) -> bool {
    0 <= i && i + w.len() <= s.len() && s.subrange(i, i + w.len()) == w
}

/// `w` occurs somewhere in `s`
pub open spec fn text_contains(s: Seq<char>, w: Seq<char>) -> bool {
    exists|i: int| occurs_at(s, w, i)
}

/// `s` ends with `w`
pub open spec fn text_ends_with(s: Seq<char>, w: Seq<char>) -> bool {
    occurs_at(s, w, s.len() - w.len())
}

fn occurs_at_exec(s: &Vec<char>, w: &Vec<char>, i: usize) -> (res: bool)
    requires
        i + w.len() <= s.len(),
    ensures
        res == occurs_at(s@, w@, i as int),
{
    let mut k: usize = 0;
    while k < w.len()
        invariant
            k <= w.len(),
            i + w.len() <= s.len(),
            forall|m: int| 0 <= m < k ==> s@[i + m] == w@[m],
        decreases w.len() - k,
    {
        if s[i + k] != w[k] {
            proof {
                assert(s@.subrange(i as int, i + w.len())[k as int] == s@[i + k]);
            }
            return false;
        }
        k += 1;
    }
    assert(s@.subrange(i as int, i + w.len()) =~= w@);
    true
}

/// Whether `w` occurs in `s` (as `str::contains` answers)
pub fn contains_text(s: &str, w: &str) -> (res: bool)
    ensures
        res == text_contains(s@, w@),
{
    let sc = chars_of(s);
    let wc = chars_of(w);
    if wc.len() > sc.len() {
        return false;
    }
    let n = sc.len() - wc.len();
    let mut i: usize = 0;
    loop
        invariant
            wc.len() <= sc.len(),
            n == sc.len() - wc.len(),
            i <= n,
            sc@ == s@,
            wc@ == w@,
            forall|j: int| 0 <= j < i ==> !occurs_at(s@, w@, j),
        decreases n - i,
    {
        if occurs_at_exec(&sc, &wc, i) {
            return true;
        }
        if i == n {
            return false;
        }
        i += 1;
    }
}

/// Whether `s` ends with `w` (as `str::ends_with` answers)
pub fn ends_with_text(s: &str, w: &str) -> (res: bool)
    ensures
        res == text_ends_with(s@, w@),
{
    let sc = chars_of(s);
    let wc = chars_of(w);
    if wc.len() > sc.len() {
        return false;
    }
    occurs_at_exec(&sc, &wc, sc.len() - wc.len())
}

/// The colour class of a face, chosen from its texture name
#[derive(PartialEq, Eq, Structural, Clone, Copy, Debug)]
pub enum FaceColor {
    Red,
    Green,
    Blue,
    White,
}

/// The brightness class of a face, chosen from the last character of its texture name
#[derive(PartialEq, Eq, Structural, Clone, Copy, Debug)]
pub enum FaceIntensity {
    /// Names ending in `3`
    Low,
    /// Names ending in `2`
    Medium,
    /// Names ending in `1`
    High,
    /// Any other name
    Dim,
}

pub open spec fn spec_face_color(name: Seq<char>) -> FaceColor {
    if text_contains(name, seq!['b', 'l', 'o', 'o', 'd']) {
        FaceColor::Red
    } else if text_contains(name, seq!['g', 'r', 'e', 'e', 'n']) {
        FaceColor::Green
    } else if text_contains(name, seq!['b', 'l', 'u', 'e']) {
        FaceColor::Blue
    } else {
        FaceColor::White
    }
}

pub open spec fn spec_face_intensity(name: Seq<char>) -> FaceIntensity {
    if text_ends_with(name, seq!['3']) {
        FaceIntensity::Low
    } else if text_ends_with(name, seq!['2']) {
        FaceIntensity::Medium
    } else if text_ends_with(name, seq!['1']) {
        FaceIntensity::High
    } else {
        FaceIntensity::Dim
    }
}

/// The colour class of a texture: `blood` is red, then `green`, then `blue`, else white
pub fn face_color(texture_name: &str) -> (res: FaceColor)
    ensures
        res == spec_face_color(texture_name@),
{
    proof {
        reveal_strlit("blood");
        reveal_strlit("green");
        reveal_strlit("blue");
        assert("blood"@ =~= seq!['b', 'l', 'o', 'o', 'd']);
        assert("green"@ =~= seq!['g', 'r', 'e', 'e', 'n']);
        assert("blue"@ =~= seq!['b', 'l', 'u', 'e']);
    }
    if contains_text(texture_name, "blood") {
        FaceColor::Red
    } else if contains_text(texture_name, "green") {
        FaceColor::Green
    } else if contains_text(texture_name, "blue") {
        FaceColor::Blue
    } else {
        FaceColor::White
    }
}

/// The brightness class of a texture, by the digit its name ends with
pub fn face_intensity(texture_name: &str) -> (res: FaceIntensity)
    ensures
        res == spec_face_intensity(texture_name@),
{
    proof {
        reveal_strlit("3");
        reveal_strlit("2");
        reveal_strlit("1");
        assert("3"@ =~= seq!['3']);
        assert("2"@ =~= seq!['2']);
        assert("1"@ =~= seq!['1']);
    }
    if ends_with_text(texture_name, "3") {
        FaceIntensity::Low
    } else if ends_with_text(texture_name, "2") {
        FaceIntensity::Medium
    } else if ends_with_text(texture_name, "1") {
        FaceIntensity::High
    } else {
        FaceIntensity::Dim
    }
}

// ---------------------------------------------------------------------------
// Map geometry
// ---------------------------------------------------------------------------

/// A line between two vertices of a face
#[derive(Debug, Clone, Copy, PartialEq, Eq)]
pub struct Line {
    pub i0: usize,
    pub i1: usize,
}

/// The map data that entity assembly and culling read. Maps are keyed by entity,
/// brush, face, texture and line ids; the lists hold their entries in id order.
pub struct MapData {
    pub entity_properties: BTreeMap<usize, Properties>,
    pub entity_brushes: Vec<(usize, Vec<usize>)>,
    pub brush_faces: Vec<(usize, Vec<usize>)>,
    pub face_textures: BTreeMap<usize, usize>,
    pub textures: BTreeMap<usize, String>,
    pub face_triangle_indices: BTreeMap<usize, Vec<usize>>,
    pub face_lines: BTreeMap<usize, Vec<usize>>,
    /// The number of vertices of each face
    pub face_vertex_counts: BTreeMap<usize, usize>,
    pub lines: BTreeMap<usize, Line>,
    /// Pairs of duplicate faces; the second of each pair is the duplicate
    pub face_duplicates: Vec<(usize, usize)>,
    /// For each face, the faces it contains
    pub face_face_containment: Vec<(usize, Vec<usize>)>,
    /// For each brush, the faces it contains
    pub brush_face_containment: Vec<(usize, Vec<usize>)>,
    pub interior_faces: Vec<usize>,
    pub manifold_lines: Vec<usize>,
    pub non_manifold_lines: Vec<usize>,
}

/// The entity has a `classname` property with value `classname`
pub open spec fn has_classname(props: Seq<Property>, classname: Seq<char>) -> bool {
    exists|i: int|
        0 <= i < props.len() && props[i].key@ == classname_key() && #[trigger] props[i].value@
            == classname
}

pub open spec fn classname_key() -> Seq<char> {
    seq!['c', 'l', 'a', 's', 's', 'n', 'a', 'm', 'e']
}

/// The entities of `entries`, in order, whose class is `classname`
pub open spec fn classname_entities(
    entries: Seq<(usize, Vec<usize>)>,
    props: Map<usize, Properties>,
    classname: Seq<char>,
) -> Seq<usize>
    decreases entries.len(),
{
    if entries.len() == 0 {
        Seq::empty()
    } else {
        let rest = classname_entities(entries.drop_last(), props, classname);
        if has_classname(props[entries.last().0].0@, classname) {
            rest.push(entries.last().0)
        } else {
            rest
        }
    }
}

/// The faces, in order, of those entries of `brush_faces` whose brush is in `brushes`
pub open spec fn faces_of_brushes(brush_faces: Seq<(usize, Vec<usize>)>, brushes: Seq<usize>) -> Seq<
    usize,
>
    decreases brush_faces.len(),
{
    if brush_faces.len() == 0 {
        Seq::empty()
    } else {
        let rest = faces_of_brushes(brush_faces.drop_last(), brushes);
        if brushes.contains(brush_faces.last().0) {
            rest + brush_faces.last().1@
        } else {
            rest
        }
    }
}

/// `x` is in one of the lists of `entries`
pub open spec fn in_some_list(entries: Seq<(usize, Vec<usize>)>, x: usize) -> bool {
    exists|i: int| 0 <= i < entries.len() && #[trigger] entries[i].1@.contains(x)
}

/// `x` is the second of one of the pairs
pub open spec fn is_second_of_pair(pairs: Seq<(usize, usize)>, x: usize) -> bool {
    exists|i: int| 0 <= i < pairs.len() && #[trigger] pairs[i].1 == x
}

pub open spec fn cull_faces_suffix() -> Seq<char> {
    seq!['.', 'c', 'u', 'l', 'l', '.', 'f', 'a', 'c', 'e', 's']
}

pub open spec fn cull_lines_suffix() -> Seq<char> {
    seq!['.', 'c', 'u', 'l', 'l', '.', 'l', 'i', 'n', 'e', 's']
}

fn list_contains(v: &Vec<usize>, x: usize) -> (res: bool)
    ensures
        res == v@.contains(x),
{
    let mut i: usize = 0;
    while i < v.len()
        invariant
            i <= v.len(),
            forall|j: int| 0 <= j < i ==> v@[j] != x,
        decreases v.len() - i,
    {
        if v[i] == x {
            return true;
        }
        i += 1;
    }
    false
}

pub(crate) fn in_some_list_exec(entries: &Vec<(usize, Vec<usize>)>, x: usize) -> (res: bool)
    ensures
        res == in_some_list(entries@, x),
{
    let mut i: usize = 0;
    while i < entries.len()
        invariant
            i <= entries.len(),
            forall|j: int| 0 <= j < i ==> !(#[trigger] entries@[j].1@.contains(x)),
        decreases entries.len() - i,
    {
        if list_contains(&entries[i].1, x) {
            return true;
        }
        i += 1;
    }
    false
}

impl MapData {
    /// Whether a face is kept under the bit mask `cull`: bit 1 drops duplicate faces,
    /// 2 faces contained in faces, 4 faces contained in brushes, 8 exterior faces,
    /// 16 interior faces
    pub open spec fn face_kept_under(&self, cull: usize, face_id: usize) -> bool {
        &&& !(cull & 1 != 0 && is_second_of_pair(self.face_duplicates@, face_id))
        &&& !(cull & 2 != 0 && in_some_list(self.face_face_containment@, face_id))
        &&& !(cull & 4 != 0 && in_some_list(self.brush_face_containment@, face_id))
        &&& !(cull & 8 != 0 && !self.interior_faces@.contains(face_id))
        &&& !(cull & 16 != 0 && self.interior_faces@.contains(face_id))
    }

    /// Whether a line is kept under the bit mask `cull`: bit 1 drops manifold lines,
    /// 2 non-manifold lines
    pub open spec fn line_kept_under(&self, cull: usize, line_id: usize) -> bool {
        &&& !(cull & 1 != 0 && self.manifold_lines@.contains(line_id))
        &&& !(cull & 2 != 0 && self.non_manifold_lines@.contains(line_id))
    }

    /// Whether the culling of an entity component keeps a face: the mask is the
    /// number property `<component>.cull.faces`; where it cannot be read, every face is kept
    pub open spec fn spec_face_cull(&self, entity: usize, component: Seq<char>, face_id: usize) -> bool {
        match spec_property_usize(self.entity_properties@[entity].0@, component + cull_faces_suffix()) {
            Ok(cull) => self.face_kept_under(cull, face_id),
            Err(_) => true,
        }
    }

    /// Whether the culling of an entity component keeps a line (mask `<component>.cull.lines`)
    pub open spec fn spec_line_cull(&self, entity: usize, component: Seq<char>, line_id: usize) -> bool {
        match spec_property_usize(self.entity_properties@[entity].0@, component + cull_lines_suffix()) {
            Ok(cull) => self.line_kept_under(cull, line_id),
            Err(_) => true,
        }
    }

    fn is_duplicate(&self, face_id: usize) -> (res: bool)
        ensures
            res == is_second_of_pair(self.face_duplicates@, face_id),
    {
        let mut i: usize = 0;
        while i < self.face_duplicates.len()
            invariant
                i <= self.face_duplicates@.len(),
                forall|j: int| 0 <= j < i ==> #[trigger] self.face_duplicates@[j].1 != face_id,
            decreases self.face_duplicates.len() - i,
        {
            if self.face_duplicates[i].1 == face_id {
                assert(is_second_of_pair(self.face_duplicates@, face_id));
                return true;
            }
            i += 1;
        }
        false
    }

    /// The name given to an entity that names no mesh of its own: `entity_<id>`
    pub fn default_entity_name(entity: usize) -> (res: String)
        ensures
            res@ == seq!['e', 'n', 't', 'i', 't', 'y', '_'] + decimal_digits(entity as nat),
    {
        let mut cs: Vec<char> = Vec::new();
        cs.push('e');
        cs.push('n');
        cs.push('t');
        cs.push('i');
        cs.push('t');
        cs.push('y');
        cs.push('_');
        push_decimal(entity, &mut cs);
        assert(cs@ =~= seq!['e', 'n', 't', 'i', 't', 'y', '_'] + decimal_digits(entity as nat));
        string_of_range(&cs, 0, cs.len())
    }

    /// The entities with brushes whose class is `classname`, in id order
    pub fn classname_brushes(&self, classname: &str) -> (res: Vec<usize>)
        requires
            forall|i: int|
                0 <= i < self.entity_brushes@.len() ==> self.entity_properties@.contains_key(
                    #[trigger] self.entity_brushes@[i].0,
                ),
        ensures
            res@ == classname_entities(self.entity_brushes@, self.entity_properties@, classname@),
    {
        proof {
            reveal_strlit("classname");
            assert("classname"@ =~= classname_key());
        }
        let mut res: Vec<usize> = Vec::new();
        let mut i: usize = 0;
        while i < self.entity_brushes.len()
            invariant
                i <= self.entity_brushes@.len(),
                "classname"@ == classname_key(),
                forall|k: int|
                    0 <= k < self.entity_brushes@.len() ==> self.entity_properties@.contains_key(
                        #[trigger] self.entity_brushes@[k].0,
                    ),
                res@ == classname_entities(
                    self.entity_brushes@.subrange(0, i as int),
                    self.entity_properties@,
                    classname@,
                ),
            decreases self.entity_brushes.len() - i,
        {
            let entity = self.entity_brushes[i].0;
            let props = self.entity_properties.get(&entity).unwrap();
            let mut found = false;
            let mut k: usize = 0;
            while k < props.0.len()
                invariant
                    k <= props.0@.len(),
                    "classname"@ == classname_key(),
                    found == exists|m: int|
                        0 <= m < k && props.0@[m].key@ == classname_key()
                            && #[trigger] props.0@[m].value@ == classname@,
                decreases props.0.len() - k,
            {
                if str_eq(props.0[k].key.as_str(), "classname") && str_eq(
                    props.0[k].value.as_str(),
                    classname,
                ) {
                    found = true;
                    assert(props.0@[k as int].value@ == classname@);
                }
                proof {
                    if !found {
                        assert forall|m: int|
                            0 <= m < k + 1 && props.0@[m].key@ == classname_key()
                                implies #[trigger] props.0@[m].value@ != classname@ by {
                            if m < k {
                            }
                        }
                    }
                }
                k += 1;
            }
            proof {
                let pre = self.entity_brushes@.subrange(0, i + 1);
                assert(pre.drop_last() =~= self.entity_brushes@.subrange(0, i as int));
                assert(pre.last() == self.entity_brushes@[i as int]);
            }
            if found {
                res.push(entity);
            }
            i += 1;
        }
        assert(self.entity_brushes@.subrange(0, i as int) =~= self.entity_brushes@);
        res
    }

    /// The first property `property` of an entity
    pub fn entity_property(&self, entity: usize, property: &str) -> (res: Option<&Property>)
        requires
            self.entity_properties@.contains_key(entity),
        ensures
            match res {
                Some(p) => exists|i: int|
                    is_first_key(self.entity_properties@[entity].0@, property@, i) && *p
                        == self.entity_properties@[entity].0@[i],
                None => property_value(self.entity_properties@[entity].0@, property@) is None,
            },
    {
        let props = self.entity_properties.get(&entity).unwrap();
        match props.find(property) {
            Some(i) => Some(&props.0[i]),
            None => None,
        }
    }

    /// The faces of the given brushes, in brush id order
    pub fn entity_faces(&self, brushes: &Vec<usize>) -> (res: Vec<usize>)
        ensures
            res@ == faces_of_brushes(self.brush_faces@, brushes@),
    {
        let mut res: Vec<usize> = Vec::new();
        let mut i: usize = 0;
        while i < self.brush_faces.len()
            invariant
                i <= self.brush_faces@.len(),
                res@ == faces_of_brushes(self.brush_faces@.subrange(0, i as int), brushes@),
            decreases self.brush_faces.len() - i,
        {
            proof {
                let pre = self.brush_faces@.subrange(0, i + 1);
                assert(pre.drop_last() =~= self.brush_faces@.subrange(0, i as int));
                assert(pre.last() == self.brush_faces@[i as int]);
            }
            if list_contains(brushes, self.brush_faces[i].0) {
                let faces = &self.brush_faces[i].1;
                let ghost before = res@;
                let mut k: usize = 0;
                while k < faces.len()
                    invariant
                        k <= faces.len(),
                        res@ == before + faces@.subrange(0, k as int),
                    decreases faces.len() - k,
                {
                    res.push(faces[k]);
                    proof {
                        assert(res@ =~= before + faces@.subrange(0, k + 1));
                    }
                    k += 1;
                }
                assert(faces@.subrange(0, k as int) =~= faces@);
            }
            i += 1;
        }
        assert(self.brush_faces@.subrange(0, i as int) =~= self.brush_faces@);
        res
    }

    /// The name of a face's texture
    pub fn face_texture(&self, face_id: usize) -> (res: &str)
        requires
            self.face_textures@.contains_key(face_id),
            self.textures@.contains_key(self.face_textures@[face_id]),
        ensures
            res@ == self.textures@[self.face_textures@[face_id]]@,
    {
        let texture_id = *self.face_textures.get(&face_id).unwrap();
        self.textures.get(&texture_id).unwrap().as_str()
    }

    /// The triangle indices of a face, shifted by `offset`
    pub fn face_triangle_indices(&self, face_id: usize, offset: u16) -> (res: Vec<u16>)
        requires
            self.face_triangle_indices@.contains_key(face_id),
            forall|i: int|
                0 <= i < self.face_triangle_indices@[face_id]@.len() ==> (
                #[trigger] self.face_triangle_indices@[face_id]@[i] as u16) + offset <= u16::MAX,
        ensures
            res@.len() == self.face_triangle_indices@[face_id]@.len(),
            forall|i: int|
                0 <= i < res@.len() ==> #[trigger] res@[i] == (
                self.face_triangle_indices@[face_id]@[i] as u16) + offset,
    {
        let indices = self.face_triangle_indices.get(&face_id).unwrap();
        let mut res: Vec<u16> = Vec::new();
        let mut k: usize = 0;
        while k < indices.len()
            invariant
                k <= indices.len(),
                indices@ == self.face_triangle_indices@[face_id]@,
                forall|i: int| 0 <= i < indices@.len() ==> (#[trigger] indices@[i] as u16) + offset <= u16::MAX,
                res@.len() == k,
                forall|i: int| 0 <= i < k ==> #[trigger] res@[i] == (indices@[i] as u16) + offset,
            decreases indices.len() - k,
        {
            let v = indices[k] as u16;
            res.push(v + offset);
            k += 1;
        }
        res
    }

    /// The line indices of a face, two per line, shifted by `offset`
    pub fn face_line_indices(&self, face_id: usize, offset: u32) -> (res: Vec<u32>)
        requires
            self.face_lines@.contains_key(face_id),
            forall|i: int|
                0 <= i < self.face_lines@[face_id]@.len() ==> {
                    let l = #[trigger] self.face_lines@[face_id]@[i];
                    &&& self.lines@.contains_key(l)
                    &&& self.lines@[l].i0 + offset <= usize::MAX
                    &&& self.lines@[l].i1 + offset <= usize::MAX
                },
        ensures
            res@.len() == 2 * self.face_lines@[face_id]@.len(),
            forall|i: int|
                0 <= i < self.face_lines@[face_id]@.len() ==> {
                    let l = #[trigger] self.face_lines@[face_id]@[i];
                    &&& res@[2 * i] == (self.lines@[l].i0 + offset) as u32
                    &&& res@[2 * i + 1] == (self.lines@[l].i1 + offset) as u32
                },
    {
        let line_ids = self.face_lines.get(&face_id).unwrap();
        let mut res: Vec<u32> = Vec::new();
        let mut k: usize = 0;
        while k < line_ids.len()
            invariant
                k <= line_ids.len(),
                line_ids@ == self.face_lines@[face_id]@,
                forall|i: int|
                    0 <= i < line_ids@.len() ==> {
                        let l = #[trigger] line_ids@[i];
                        &&& self.lines@.contains_key(l)
                        &&& self.lines@[l].i0 + offset <= usize::MAX
                        &&& self.lines@[l].i1 + offset <= usize::MAX
                    },
                res@.len() == 2 * k,
                forall|i: int|
                    0 <= i < k ==> {
                        let l = #[trigger] line_ids@[i];
                        &&& res@[2 * i] == (self.lines@[l].i0 + offset) as u32
                        &&& res@[2 * i + 1] == (self.lines@[l].i1 + offset) as u32
                    },
            decreases line_ids.len() - k,
        {
            let l = line_ids[k];
            let line = *self.lines.get(&l).unwrap();
            let a = (line.i0 + offset as usize) as u32;
            let b = (line.i1 + offset as usize) as u32;
            res.push(a);
            res.push(b);
            k += 1;
        }
        res
    }

    /// Whether an entity's component keeps a face, by the mask `<component>.cull.faces`
    pub fn face_cull_predicate(&self, entity: usize, component_property: &str, face_id: usize) -> (res: bool)
        requires
            self.entity_properties@.contains_key(entity),
        ensures
            res == self.spec_face_cull(entity, component_property@, face_id),
    {
        proof {
            reveal_strlit(".cull.faces");
            assert(".cull.faces"@ =~= cull_faces_suffix());
        }
        let properties = self.entity_properties.get(&entity).unwrap();
        let key = str_concat(component_property, ".cull.faces");
        if let Ok(cull) = property_usize(key.as_str(), properties) {
            if cull & 1 != 0 && self.is_duplicate(face_id) {
                return false;
            }
            if cull & 2 != 0 && in_some_list_exec(&self.face_face_containment, face_id) {
                return false;
            }
            if cull & 4 != 0 && in_some_list_exec(&self.brush_face_containment, face_id) {
                return false;
            }
            if cull & 8 != 0 && !list_contains(&self.interior_faces, face_id) {
                return false;
            }
            if cull & 16 != 0 && list_contains(&self.interior_faces, face_id) {
                return false;
            }
        }
        true
    }

    /// Whether an entity's component keeps a line, by the mask `<component>.cull.lines`
    pub fn line_cull_predicate(&self, entity: usize, component_property: &str, line_id: usize) -> (res: bool)
        requires
            self.entity_properties@.contains_key(entity),
        ensures
            res == self.spec_line_cull(entity, component_property@, line_id),
    {
        proof {
            reveal_strlit(".cull.lines");
            assert(".cull.lines"@ =~= cull_lines_suffix());
        }
        let properties = self.entity_properties.get(&entity).unwrap();
        let key = str_concat(component_property, ".cull.lines");
        if let Ok(cull) = property_usize(key.as_str(), properties) {
            if cull & 1 != 0 && list_contains(&self.manifold_lines, line_id) {
                return false;
            }
            if cull & 2 != 0 && list_contains(&self.non_manifold_lines, line_id) {
                return false;
            }
        }
        true
    }
}

/// With no culling bits set, every face and every line is kept.
pub proof fn lemma_no_cull_keeps_all(map: &MapData, face_id: usize, line_id: usize)
    ensures
        map.face_kept_under(0, face_id),
        map.line_kept_under(0, line_id),
{
    assert(0usize & 1 == 0) by (bit_vector);
    assert(0usize & 2 == 0) by (bit_vector);
    assert(0usize & 4 == 0) by (bit_vector);
    assert(0usize & 8 == 0) by (bit_vector);
    assert(0usize & 16 == 0) by (bit_vector);
}

/// Culling exterior faces (bit 8) and interior faces (bit 16) together drops every face.
pub proof fn lemma_interior_exterior_cull_drops_all(map: &MapData, cull: usize, face_id: usize)
    requires
        cull & 24 == 24,
    ensures
        !map.face_kept_under(cull, face_id),
{
    assert(cull & 24 == 24 ==> cull & 8 != 0 && cull & 16 != 0) by (bit_vector);
}

/// `x` is one of the faces listed against some face or brush in `entries`
pub open spec fn listed_in(entries: Seq<(usize, Vec<usize>)>, x: usize) -> bool {
    exists|i: int, j: int|
        0 <= i < entries.len() && 0 <= j < entries[i].1@.len() && #[trigger] entries[i].1@[j] == x
}

/// The face culling of an entity component, under the mask `cull` that its
/// `<component>.cull.faces` property reads: a face is kept unless bit 1 is set and
/// it is the second face of a duplicate pair, bit 2 is set and it is listed as
/// contained in another face, bit 4 is set and it is listed as contained in a
/// brush, bit 8 is set and it is not an interior face, or bit 16 is set and it is
/// an interior face. Where the mask does not read as a number, every face is kept.
pub proof fn lemma_face_cull_masks(map: MapData, entity: usize, component: Seq<char>, face_id: usize)
    ensures
        spec_property_usize(map.entity_properties@[entity].0@, component + cull_faces_suffix()) is Err
            ==> map.spec_face_cull(entity, component, face_id),
        spec_property_usize(map.entity_properties@[entity].0@, component + cull_faces_suffix())
            matches Ok(cull) ==> (map.spec_face_cull(entity, component, face_id) <==> {
            &&& !(cull & 1 != 0 && exists|i: int|
                0 <= i < map.face_duplicates@.len() && #[trigger] map.face_duplicates@[i].1
                    == face_id)
            &&& !(cull & 2 != 0 && listed_in(map.face_face_containment@, face_id))
            &&& !(cull & 4 != 0 && listed_in(map.brush_face_containment@, face_id))
            &&& !(cull & 8 != 0 && !map.interior_faces@.contains(face_id))
            &&& !(cull & 16 != 0 && map.interior_faces@.contains(face_id))
        }),
{
    assert(listed_in(map.face_face_containment@, face_id) == in_some_list(
        map.face_face_containment@,
        face_id,
    )) by {
        if listed_in(map.face_face_containment@, face_id) {
            let (i, j) = choose|i: int, j: int|
                0 <= i < map.face_face_containment@.len() && 0 <= j
                    < map.face_face_containment@[i].1@.len()
                    && #[trigger] map.face_face_containment@[i].1@[j] == face_id;
            assert(map.face_face_containment@[i].1@.contains(face_id));
        }
        if in_some_list(map.face_face_containment@, face_id) {
            let i = choose|i: int|
                0 <= i < map.face_face_containment@.len()
                    && #[trigger] map.face_face_containment@[i].1@.contains(face_id);
            let j = choose|j: int|
                0 <= j < map.face_face_containment@[i].1@.len()
                    && map.face_face_containment@[i].1@[j] == face_id;
            assert(map.face_face_containment@[i].1@[j] == face_id);
        }
    }
    assert(listed_in(map.brush_face_containment@, face_id) == in_some_list(
        map.brush_face_containment@,
        face_id,
    )) by {
        if listed_in(map.brush_face_containment@, face_id) {
            let (i, j) = choose|i: int, j: int|
                0 <= i < map.brush_face_containment@.len() && 0 <= j
                    < map.brush_face_containment@[i].1@.len()
                    && #[trigger] map.brush_face_containment@[i].1@[j] == face_id;
            assert(map.brush_face_containment@[i].1@.contains(face_id));
        }
        if in_some_list(map.brush_face_containment@, face_id) {
            let i = choose|i: int|
                0 <= i < map.brush_face_containment@.len()
                    && #[trigger] map.brush_face_containment@[i].1@.contains(face_id);
            let j = choose|j: int|
                0 <= j < map.brush_face_containment@[i].1@.len()
                    && map.brush_face_containment@[i].1@[j] == face_id;
            assert(map.brush_face_containment@[i].1@[j] == face_id);
        }
    }
}

/// The line culling of an entity component, under the mask `cull` that its
/// `<component>.cull.lines` property reads: a line is kept unless bit 1 is set and
/// it is a manifold line, or bit 2 is set and it is a non-manifold line. Where the
/// mask does not read as a number, every line is kept.
pub proof fn lemma_line_cull_masks(map: MapData, entity: usize, component: Seq<char>, line_id: usize)
    ensures
        spec_property_usize(map.entity_properties@[entity].0@, component + cull_lines_suffix()) is Err
            ==> map.spec_line_cull(entity, component, line_id),
        spec_property_usize(map.entity_properties@[entity].0@, component + cull_lines_suffix())
            matches Ok(cull) ==> (map.spec_line_cull(entity, component, line_id) <==> {
            &&& !(cull & 1 != 0 && map.manifold_lines@.contains(line_id))
            &&& !(cull & 2 != 0 && map.non_manifold_lines@.contains(line_id))
        }),
{
}

} // verus!
