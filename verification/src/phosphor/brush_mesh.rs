use vstd::prelude::*;

use crate::phosphor::components::{LineIndexData, TriangleIndexData};
use crate::phosphor::map_data::{faces_of_brushes, MapData};

verus! {

broadcast use vstd::std_specs::btree::group_btree_axioms;

/// The index state of a brush entity mesh: the faces kept so far, the triangle
/// indices, the line indices, the local vertex head (16 bits) and the local index
/// head (32 bits)
pub type MeshState = (Seq<usize>, Seq<u16>, Seq<u32>, int, int);

/// The brushes of `entity`: those of its first entry
pub open spec fn brushes_of(entries: Seq<(usize, Vec<usize>)>, entity: usize) -> Option<Seq<usize>>
    decreases entries.len(),
{
    if entries.len() == 0 {
        None
    } else {
        match brushes_of(entries.drop_last(), entity) {
            Some(b) => Some(b),
            None => if entries.last().0 == entity {
                Some(entries.last().1@)
            } else {
                None
            },
        }
    }
}

/// A face's triangle indices, each taken as 16 bits and shifted by the vertex
/// head; `None` where one of them would pass 16 bits
pub open spec fn shifted_triangle_indices(idx: Seq<usize>, head: int) -> Option<Seq<u16>> {
    if forall|k: int| 0 <= k < idx.len() ==> (#[trigger] idx[k] as u16) + head <= u16::MAX {
        Some(idx.map_values(|i: usize| ((i as u16) + head) as u16))
    } else {
        None
    }
}

pub open spec fn opt_str_view(s: Option<&str>) -> Option<Seq<char>> {
    match s {
        Some(c) => Some(c@),
        None => None,
    }
}

impl MapData {
    /// Whether a mesh keeps a line: by the line culling of an entity component, or
    /// no line at all where there is no component
    pub open spec fn keeps_line(&self, entity: usize, line_component: Option<Seq<char>>, l: usize) -> bool {
        match line_component {
            Some(c) => self.spec_line_cull(entity, c, l),
            None => false,
        }
    }

    /// The line indices of the kept lines among `ls`, two per line, shifted by the
    /// index head and taken as 32 bits; `None` where a kept line is unknown or a
    /// shifted index passes `usize`
    pub open spec fn kept_line_indices(
        &self,
        ls: Seq<usize>,
        entity: usize,
        line_component: Option<Seq<char>>,
        head: int,
    ) -> Option<Seq<u32>>
        decreases ls.len(),
    {
        if ls.len() == 0 {
            Some(Seq::empty())
        } else {
            match self.kept_line_indices(ls.drop_last(), entity, line_component, head) {
                None => None,
                Some(rest) => {
                    let l = ls.last();
                    if !self.keeps_line(entity, line_component, l) {
                        Some(rest)
                    } else if !self.lines@.contains_key(l) {
                        None
                    } else {
                        let a = self.lines@[l].i0 + head;
                        let b = self.lines@[l].i1 + head;
                        if a <= usize::MAX && b <= usize::MAX {
                            Some(rest + seq![a as u32, b as u32])
                        } else {
                            None
                        }
                    }
                },
            }
        }
    }

    /// The mesh indices of an entity's faces: each face that the face culling keeps
    /// adds its triangle indices shifted by the vertex head, the indices of its kept
    /// lines shifted by the index head, and its vertex count to both heads.
    /// `None` where a kept face has no mesh data or a head or index overflows.
    pub open spec fn brush_mesh_from(
        &self,
        faces: Seq<usize>,
        entity: usize,
        face_component: Seq<char>,
        line_component: Option<Seq<char>>,
    ) -> Option<MeshState>
        decreases faces.len(),
    {
        if faces.len() == 0 {
            Some((Seq::empty(), Seq::empty(), Seq::empty(), 0, 0))
        } else {
            match self.brush_mesh_from(faces.drop_last(), entity, face_component, line_component) {
                None => None,
                Some(st) => {
                    let f = faces.last();
                    if !self.spec_face_cull(entity, face_component, f) {
                        Some(st)
                    } else if !(self.face_triangle_indices@.contains_key(f)
                        && self.face_lines@.contains_key(f)
                        && self.face_vertex_counts@.contains_key(f)) {
                        None
                    } else {
                        let count = self.face_vertex_counts@[f];
                        match (
                            shifted_triangle_indices(self.face_triangle_indices@[f]@, st.3),
                            self.kept_line_indices(self.face_lines@[f]@, entity, line_component, st.4),
                        ) {
                            (Some(t), Some(l)) => if st.3 + (count as u16) <= u16::MAX && st.4 + (
                            count as u32) <= u32::MAX {
                                Some(
                                    (
                                        st.0.push(f),
                                        st.1 + t,
                                        st.2 + l,
                                        st.3 + (count as u16),
                                        st.4 + (count as u32),
                                    ),
                                )
                            } else {
                                None
                            },
                            _ => None,
                        }
                    }
                },
            }
        }
    }

    /// The mesh indices of a brush entity, over the faces of its brushes
    pub open spec fn spec_brush_mesh(
        &self,
        entity: usize,
        face_component: Seq<char>,
        line_component: Option<Seq<char>>,
    ) -> Option<MeshState> {
        match brushes_of(self.entity_brushes@, entity) {
            Some(brushes) => self.brush_mesh_from(
                faces_of_brushes(self.brush_faces@, brushes),
                entity,
                face_component,
                line_component,
            ),
            None => None,
        }
    }
}

proof fn lemma_kept_lines_prefix(
    map: &MapData,
    ls: Seq<usize>,
    n: int,
    entity: usize,
    lc: Option<Seq<char>>,
    head: int,
)
    requires
        0 <= n <= ls.len(),
        map.kept_line_indices(ls, entity, lc, head) is Some,
    ensures
        map.kept_line_indices(ls.take(n), entity, lc, head) is Some,
    decreases ls.len() - n,
{
    if n < ls.len() {
        assert(ls.take(n + 1).drop_last() =~= ls.take(n));
        if n + 1 == ls.len() {
            assert(ls.take(n + 1) =~= ls);
        } else {
            lemma_kept_lines_prefix(map, ls, n + 1, entity, lc, head);
        }
    } else {
        assert(ls.take(n) =~= ls);
    }
}

proof fn lemma_brush_mesh_prefix(
    map: &MapData,
    faces: Seq<usize>,
    n: int,
    entity: usize,
    fc: Seq<char>,
    lc: Option<Seq<char>>,
)
    requires
        0 <= n <= faces.len(),
        map.brush_mesh_from(faces, entity, fc, lc) is Some,
    ensures
        map.brush_mesh_from(faces.take(n), entity, fc, lc) is Some,
    decreases faces.len() - n,
{
    if n < faces.len() {
        assert(faces.take(n + 1).drop_last() =~= faces.take(n));
        if n + 1 == faces.len() {
            assert(faces.take(n + 1) =~= faces);
        } else {
            lemma_brush_mesh_prefix(map, faces, n + 1, entity, fc, lc);
        }
    } else {
        assert(faces.take(n) =~= faces);
    }
}

impl MapData {
    /// The brushes of an entity: those of its first entry in `entity_brushes`
    pub fn entity_brush_list(&self, entity: usize) -> (res: Option<&Vec<usize>>)
        ensures
            match res {
                Some(b) => brushes_of(self.entity_brushes@, entity) == Some(b@),
                None => brushes_of(self.entity_brushes@, entity) is None,
            },
    {
        let mut i: usize = 0;
        while i < self.entity_brushes.len()
            invariant
                i <= self.entity_brushes@.len(),
                brushes_of(self.entity_brushes@.take(i as int), entity) is None,
            decreases self.entity_brushes.len() - i,
        {
            proof {
                assert(self.entity_brushes@.take(i + 1).drop_last() =~= self.entity_brushes@.take(
                    i as int,
                ));
            }
            if self.entity_brushes[i].0 == entity {
                proof {
                    lemma_brushes_of_extends(self.entity_brushes@, i as int + 1, entity);
                }
                return Some(&self.entity_brushes[i].1);
            }
            i += 1;
        }
        assert(self.entity_brushes@.take(i as int) =~= self.entity_brushes@);
        None
    }

    fn kept_line_indices_exec(
        &self,
        ls: &Vec<usize>,
        entity: usize,
        line_component: Option<&str>,
        head: u32,
        out: &mut Vec<u32>,
    ) -> (ok: bool)
        requires
            self.entity_properties@.contains_key(entity),
        ensures
            ok == (self.kept_line_indices(ls@, entity, opt_str_view(line_component), head as int) is Some),
            ok ==> final(out)@ == old(out)@ + self.kept_line_indices(
                ls@,
                entity,
                opt_str_view(line_component),
                head as int,
            ).unwrap(),
    {
        let ghost lc = opt_str_view(line_component);
        let ghost start = out@;
        proof {
            assert(ls@.take(0) =~= Seq::<usize>::empty());
        }
        let mut k: usize = 0;
        while k < ls.len()
            invariant
                k <= ls@.len(),
                self.entity_properties@.contains_key(entity),
                lc == opt_str_view(line_component),
                self.kept_line_indices(ls@.take(k as int), entity, lc, head as int) is Some,
                out@ == start + self.kept_line_indices(ls@.take(k as int), entity, lc, head as int).unwrap(),
            decreases ls.len() - k,
        {
            let ghost pre = ls@.take(k as int);
            let ghost next = ls@.take(k + 1);
            proof {
                assert(next.drop_last() =~= pre);
                assert(next.last() == ls@[k as int]);
                if self.kept_line_indices(ls@, entity, lc, head as int) is Some {
                    lemma_kept_lines_prefix(self, ls@, k + 1, entity, lc, head as int);
                }
            }
            let l = ls[k];
            let keep = match line_component {
                Some(c) => self.line_cull_predicate(entity, c, l),
                None => false,
            };
            if keep {
                let line = match self.lines.get(&l) {
                    Some(line) => *line,
                    None => {
                        return false;
                    },
                };
                let (a, b) = match (line.i0.checked_add(head as usize), line.i1.checked_add(head as usize)) {
                    (Some(a), Some(b)) => (a as u32, b as u32),
                    _ => {
                        return false;
                    },
                };
                out.push(a);
                out.push(b);
                proof {
                    let rest = self.kept_line_indices(pre, entity, lc, head as int).unwrap();
                    assert(out@ =~= start + (rest + seq![a, b]));
                }
            }
            k += 1;
        }
        assert(ls@.take(k as int) =~= ls@);
        true
    }

    /// The indices of a brush entity's mesh (see
    /// `assemble_brush_entity_triangle_mesh`), or `None` where the entity has no
    /// brushes, a kept face has no triangle indices, lines or vertex count, a kept
    /// line is unknown, or a head or an index overflows
    pub fn try_assemble_brush_entity_triangle_mesh(
        &self,
        entity: usize,
        face_component: &str,
        line_component: Option<&str>,
    ) -> (res: Option<(Vec<usize>, Vec<TriangleIndexData>, Vec<LineIndexData>)>)
        requires
            self.entity_properties@.contains_key(entity),
        ensures
            match res {
                Some(r) => {
                    let st = self.spec_brush_mesh(entity, face_component@, opt_str_view(line_component));
                    &&& st is Some
                    &&& r.0@ == st.unwrap().0
                    &&& r.1@ == st.unwrap().1
                    &&& r.2@ == st.unwrap().2
                },
                None => self.spec_brush_mesh(entity, face_component@, opt_str_view(line_component)) is None,
            },
    {
        let ghost lc = opt_str_view(line_component);
        let brushes = match self.entity_brush_list(entity) {
            Some(b) => b,
            None => {
                return None;
            },
        };
        let faces = self.entity_faces(brushes);
        let ghost fs = faces@;
        let mut kept: Vec<usize> = Vec::new();
        let mut triangle_indices: Vec<TriangleIndexData> = Vec::new();
        let mut line_indices: Vec<LineIndexData> = Vec::new();
        let mut vertex_head: u16 = 0;
        let mut index_head: u32 = 0;
        proof {
            assert(fs.take(0) =~= Seq::<usize>::empty());
        }
        let mut i: usize = 0;
        while i < faces.len()
            invariant
                i <= fs.len(),
                fs == faces@,
                lc == opt_str_view(line_component),
                self.entity_properties@.contains_key(entity),
                self.spec_brush_mesh(entity, face_component@, lc) == self.brush_mesh_from(
                    fs,
                    entity,
                    face_component@,
                    lc,
                ),
                self.brush_mesh_from(fs.take(i as int), entity, face_component@, lc) == Some(
                    (kept@, triangle_indices@, line_indices@, vertex_head as int, index_head as int),
                ),
            decreases faces.len() - i,
        {
            let ghost pre = fs.take(i as int);
            let ghost next = fs.take(i + 1);
            proof {
                assert(next.drop_last() =~= pre);
                assert(next.last() == fs[i as int]);
                if self.brush_mesh_from(fs, entity, face_component@, lc) is Some {
                    lemma_brush_mesh_prefix(self, fs, i + 1, entity, face_component@, lc);
                }
            }
            let f = faces[i];
            if self.face_cull_predicate(entity, face_component, f) {
                let (idx, face_lines, count) = match (
                    self.face_triangle_indices.get(&f),
                    self.face_lines.get(&f),
                    self.face_vertex_counts.get(&f),
                ) {
                    (Some(idx), Some(face_lines), Some(count)) => (idx, face_lines, *count),
                    _ => {
                        proof {
                            assert(self.brush_mesh_from(next, entity, face_component@, lc) is None);
                        }
                        return None;
                    },
                };
                let ghost tri_before = triangle_indices@;
                proof {
                    assert(idx@.take(0).map_values(|j: usize| ((j as u16) + vertex_head) as u16)
                        =~= Seq::<u16>::empty());
                    assert(tri_before + Seq::<u16>::empty() =~= tri_before);
                }
                let mut k: usize = 0;
                while k < idx.len()
                    invariant
                        k <= idx@.len(),
                        self.face_triangle_indices@.contains_key(f),
                        self.face_lines@.contains_key(f),
                        self.face_vertex_counts@.contains_key(f),
                        idx@ == self.face_triangle_indices@[f]@,
                        forall|j: int| 0 <= j < k ==> (#[trigger] idx@[j] as u16) + vertex_head <= u16::MAX,
                        self.spec_face_cull(entity, face_component@, f),
                        lc == opt_str_view(line_component),
                        next.len() > 0,
                        next.drop_last() == pre,
                        next.last() == f,
                        self.brush_mesh_from(pre, entity, face_component@, lc) == Some(
                            (kept@, tri_before, line_indices@, vertex_head as int, index_head as int),
                        ),
                        self.spec_brush_mesh(entity, face_component@, lc) == self.brush_mesh_from(
                            fs,
                            entity,
                            face_component@,
                            lc,
                        ),
                        self.brush_mesh_from(fs, entity, face_component@, lc) is Some
                            ==> self.brush_mesh_from(next, entity, face_component@, lc) is Some,
                        triangle_indices@ == tri_before + idx@.take(k as int).map_values(
                            |j: usize| ((j as u16) + vertex_head) as u16,
                        ),
                    decreases idx.len() - k,
                {
                    let v = idx[k] as u16;
                    let shifted = match v.checked_add(vertex_head) {
                        Some(x) => x,
                        None => {
                            proof {
                                assert((idx@[k as int] as u16) + vertex_head > u16::MAX);
                                assert(shifted_triangle_indices(self.face_triangle_indices@[f]@, vertex_head as int) is None);
                                lemma_step_fails_on_triangles(
                                    self,
                                    pre,
                                    next,
                                    entity,
                                    face_component@,
                                    lc,
                                );
                            }
                            return None;
                        },
                    };
                    triangle_indices.push(shifted);
                    proof {
                        assert(idx@.take(k + 1).map_values(|j: usize| ((j as u16) + vertex_head) as u16)
                            =~= idx@.take(k as int).map_values(
                            |j: usize| ((j as u16) + vertex_head) as u16,
                        ).push(((idx@[k as int] as u16) + vertex_head) as u16));
                        assert(triangle_indices@ =~= tri_before + idx@.take(k + 1).map_values(
                            |j: usize| ((j as u16) + vertex_head) as u16,
                        ));
                    }
                    k += 1;
                }
                proof {
                    assert(idx@.take(k as int) =~= idx@);
                    assert(shifted_triangle_indices(idx@, vertex_head as int) is Some);
                }
                if !self.kept_line_indices_exec(face_lines, entity, line_component, index_head, &mut line_indices) {
                    return None;
                }
                let (vh, ih) = match (vertex_head.checked_add(count as u16), index_head.checked_add(count as u32)) {
                    (Some(vh), Some(ih)) => (vh, ih),
                    _ => {
                        proof {
                            assert(self.brush_mesh_from(next, entity, face_component@, lc) is None);
                        }
                        return None;
                    },
                };
                proof {
                    assert(triangle_indices@ =~= tri_before + shifted_triangle_indices(
                        self.face_triangle_indices@[f]@,
                        vertex_head as int,
                    ).unwrap());
                }
                kept.push(f);
                vertex_head = vh;
                index_head = ih;
            }
            i += 1;
        }
        proof {
            assert(fs.take(i as int) =~= fs);
        }
        Some((kept, triangle_indices, line_indices))
    }

    /// The indices of a brush entity's mesh: the faces of its brushes that the culling
    /// of `face_component` keeps, in order; their triangle indices, each shifted by
    /// the number of vertices of the kept faces before it; and the indices of the
    /// lines of those faces that the culling of `line_component` keeps (none without
    /// one), shifted the same way. The vertices of the kept faces, in that order,
    /// make the mesh's vertex list.
    pub fn assemble_brush_entity_triangle_mesh(
        &self,
        entity: usize,
        face_component: &str,
        line_component: Option<&str>,
    ) -> (res: (Vec<usize>, Vec<TriangleIndexData>, Vec<LineIndexData>))
        requires
            self.entity_properties@.contains_key(entity),
            self.spec_brush_mesh(entity, face_component@, opt_str_view(line_component)) is Some,
        ensures
            ({
                let st = self.spec_brush_mesh(entity, face_component@, opt_str_view(line_component)).unwrap();
                &&& res.0@ == st.0
                &&& res.1@ == st.1
                &&& res.2@ == st.2
            }),
    {
        match self.try_assemble_brush_entity_triangle_mesh(entity, face_component, line_component) {
            Some(r) => r,
            None => {
                proof {
                    assert(false);
                }
                vstd::pervasive::unreached()
            },
        }
    }
}

proof fn lemma_step_fails_on_triangles(
    map: &MapData,
    pre: Seq<usize>,
    next: Seq<usize>,
    entity: usize,
    fc: Seq<char>,
    lc: Option<Seq<char>>,
)
    requires
        next.len() > 0,
        next.drop_last() == pre,
        map.brush_mesh_from(pre, entity, fc, lc) is Some,
        map.spec_face_cull(entity, fc, next.last()),
        map.face_triangle_indices@.contains_key(next.last()),
        map.face_lines@.contains_key(next.last()),
        map.face_vertex_counts@.contains_key(next.last()),
        shifted_triangle_indices(
            map.face_triangle_indices@[next.last()]@,
            map.brush_mesh_from(pre, entity, fc, lc).unwrap().3,
        ) is None,
    ensures
        map.brush_mesh_from(next, entity, fc, lc) is None,
{
}

proof fn lemma_brushes_of_extends(entries: Seq<(usize, Vec<usize>)>, n: int, entity: usize)
    requires
        0 < n <= entries.len(),
        brushes_of(entries.take(n - 1), entity) is None,
        entries[n - 1].0 == entity,
    ensures
        brushes_of(entries, entity) == Some(entries[n - 1].1@),
    decreases entries.len() - n,
{
    assert(entries.take(n).drop_last() =~= entries.take(n - 1));
    assert(brushes_of(entries.take(n), entity) == Some(entries[n - 1].1@));
    if n < entries.len() {
        lemma_brushes_of_extends_more(entries, n, entity);
    } else {
        assert(entries.take(n) =~= entries);
    }
}

proof fn lemma_brushes_of_extends_more(entries: Seq<(usize, Vec<usize>)>, n: int, entity: usize)
    requires
        0 < n <= entries.len(),
        brushes_of(entries.take(n), entity) is Some,
    ensures
        brushes_of(entries, entity) == brushes_of(entries.take(n), entity),
    decreases entries.len() - n,
{
    if n < entries.len() {
        assert(entries.take(n + 1).drop_last() =~= entries.take(n));
        lemma_brushes_of_extends_more(entries, n + 1, entity);
    } else {
        assert(entries.take(n) =~= entries);
    }
}


/// The kept line indices of a face whose lines join vertices below `bound` stay
/// below `head + bound`
proof fn lemma_kept_lines_below(
    map: &MapData,
    ls: Seq<usize>,
    entity: usize,
    lc: Option<Seq<char>>,
    head: int,
    bound: int,
)
    requires
        0 <= head,
        head + bound <= u32::MAX,
        map.kept_line_indices(ls, entity, lc, head) is Some,
        forall|k: int|
            0 <= k < ls.len() && map.lines@.contains_key(#[trigger] ls[k]) ==> map.lines@[ls[k]].i0
                < bound && map.lines@[ls[k]].i1 < bound,
    ensures
        forall|j: int|
            0 <= j < map.kept_line_indices(ls, entity, lc, head).unwrap().len() ==> #[trigger] map.kept_line_indices(
                ls,
                entity,
                lc,
                head,
            ).unwrap()[j] < head + bound,
    decreases ls.len(),
{
    if ls.len() > 0 {
        let pre = ls.drop_last();
        assert forall|k: int|
            0 <= k < pre.len() && map.lines@.contains_key(#[trigger] pre[k]) implies map.lines@[pre[k]].i0
                < bound && map.lines@[pre[k]].i1 < bound by {
            assert(pre[k] == ls[k]);
        }
        lemma_kept_lines_below(map, pre, entity, lc, head, bound);
        let l = ls.last();
        assert(ls[ls.len() - 1] == l);
        if map.keeps_line(entity, lc, l) && map.lines@.contains_key(l) {
            let a = map.lines@[l].i0 + head;
            let b = map.lines@[l].i1 + head;
            assert(a < head + bound && b < head + bound);
            assert(a as u32 == a && b as u32 == b);
        }
    }
}

/// Where every face's triangle and line indices lie below its vertex count, every
/// index of an assembled brush entity mesh lies below the number of vertices of the
/// mesh: the triangle and line indices only name the mesh's own vertices.
pub proof fn lemma_brush_mesh_indices_in_range(
    map: &MapData,
    faces: Seq<usize>,
    entity: usize,
    face_component: Seq<char>,
    line_component: Option<Seq<char>>,
)
    requires
        map.brush_mesh_from(faces, entity, face_component, line_component) is Some,
        forall|f: usize| #[trigger]
            map.face_vertex_counts@.contains_key(f) ==> map.face_vertex_counts@[f] <= u16::MAX,
        forall|f: usize, k: int|
            map.face_triangle_indices@.contains_key(f) && map.face_vertex_counts@.contains_key(f)
                && 0 <= k < map.face_triangle_indices@[f]@.len() ==> #[trigger] map.face_triangle_indices@[f]@[k]
                < map.face_vertex_counts@[f],
        forall|f: usize, k: int|
            map.face_lines@.contains_key(f) && map.face_vertex_counts@.contains_key(f) && 0 <= k
                < map.face_lines@[f]@.len() && map.lines@.contains_key(
                #[trigger] map.face_lines@[f]@[k],
            ) ==> map.lines@[map.face_lines@[f]@[k]].i0 < map.face_vertex_counts@[f]
                && map.lines@[map.face_lines@[f]@[k]].i1 < map.face_vertex_counts@[f],
    ensures
        ({
            let st = map.brush_mesh_from(faces, entity, face_component, line_component).unwrap();
            &&& st.3 == st.4
            &&& 0 <= st.3 <= u16::MAX
            &&& forall|j: int| 0 <= j < st.1.len() ==> #[trigger] st.1[j] < st.3
            &&& forall|j: int| 0 <= j < st.2.len() ==> #[trigger] st.2[j] < st.4
        }),
    decreases faces.len(),
{
    if faces.len() > 0 {
        let pre = faces.drop_last();
        lemma_brush_mesh_indices_in_range(map, pre, entity, face_component, line_component);
        let st = map.brush_mesh_from(pre, entity, face_component, line_component).unwrap();
        let f = faces.last();
        if map.spec_face_cull(entity, face_component, f) {
            let count = map.face_vertex_counts@[f];
            let idx = map.face_triangle_indices@[f]@;
            assert(count as u16 == count);
            assert(count as u32 == count);
            let t = shifted_triangle_indices(idx, st.3).unwrap();
            assert forall|j: int| 0 <= j < t.len() implies #[trigger] t[j] < st.3 + count by {
                assert(idx[j] < count);
                assert(idx[j] as u16 == idx[j]);
                assert((idx[j] as u16) + st.3 <= u16::MAX);
                assert(t[j] == ((idx[j] as u16) + st.3) as u16);
            }
            let ls = map.face_lines@[f]@;
            assert forall|k: int|
                0 <= k < ls.len() && map.lines@.contains_key(#[trigger] ls[k]) implies map.lines@[ls[k]].i0
                    < count && map.lines@[ls[k]].i1 < count by {
                assert(ls[k] == map.face_lines@[f]@[k]);
            }
            lemma_kept_lines_below(map, ls, entity, line_component, st.4, count as int);
            let l = map.kept_line_indices(ls, entity, line_component, st.4).unwrap();
            let st2 = map.brush_mesh_from(faces, entity, face_component, line_component).unwrap();
            assert forall|j: int| 0 <= j < st2.1.len() implies #[trigger] st2.1[j] < st2.3 by {
                if j < st.1.len() {
                    assert(st2.1[j] == st.1[j]);
                } else {
                    assert(st2.1[j] == t[j - st.1.len()]);
                }
            }
            assert forall|j: int| 0 <= j < st2.2.len() implies #[trigger] st2.2[j] < st2.4 by {
                if j < st.2.len() {
                    assert(st2.2[j] == st.2[j]);
                } else {
                    assert(st2.2[j] == l[j - st.2.len()]);
                }
            }
        }
    }
}

} // verus!
