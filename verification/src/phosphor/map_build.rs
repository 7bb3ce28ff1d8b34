use std::collections::BTreeMap;
use vstd::prelude::*;

use crate::phosphor::map_data::{
    in_some_list, in_some_list_exec, property_usize, spec_property_usize, Line, Properties,
};

verus! {

broadcast use vstd::std_specs::btree::group_btree_axioms;

pub open spec fn visual_cull_faces_key() -> Seq<char> {
    seq![
        'm', 'e', 's', 'h', '.', 'v', 'i', 's', 'u', 'a', 'l', '.', 'c', 'u', 'l', 'l', '.', 'f',
        'a', 'c', 'e', 's',
    ]
}

/// The brush's entity has a face culling mask (`mesh.visual.cull.faces`) that reads
/// as a number
pub open spec fn brush_culls_faces(
    brush_entities: Map<usize, usize>,
    entity_properties: Map<usize, Properties>,
    brush: usize,
) -> bool {
    spec_property_usize(entity_properties[brush_entities[brush]].0@, visual_cull_faces_key()) is Ok
}

/// The entries of a containment list whose brush's entity has a face culling mask
pub open spec fn culling_entry(
    brush_entities: Map<usize, usize>,
    entity_properties: Map<usize, Properties>,
) -> spec_fn((usize, Seq<usize>)) -> bool {
    |e: (usize, Seq<usize>)| brush_culls_faces(brush_entities, entity_properties, e.0)
}

pub open spec fn containment_view(v: Seq<(usize, Vec<usize>)>) -> Seq<(usize, Seq<usize>)> {
    v.map_values(|e: (usize, Vec<usize>)| (e.0, e.1@))
}

/// The brush-face containment that face culling reads: the entries of the brushes
/// whose entity has a face culling mask, in order
pub fn culling_brush_face_containment(
    containment: Vec<(usize, Vec<usize>)>,
    brush_entities: &BTreeMap<usize, usize>,
    entity_properties: &BTreeMap<usize, Properties>,
) -> (res: Vec<(usize, Vec<usize>)>)
    requires
        forall|i: int|
            0 <= i < containment@.len() ==> {
                let b = #[trigger] containment@[i].0;
                &&& brush_entities@.contains_key(b)
                &&& entity_properties@.contains_key(brush_entities@[b])
            },
    ensures
        containment_view(res@) == containment_view(containment@).filter(
            culling_entry(brush_entities@, entity_properties@),
        ),
{
    let ghost pred = culling_entry(brush_entities@, entity_properties@);
    let ghost all = containment_view(containment@);
    let ghost n = all.len();
    proof {
        reveal(Seq::filter);
        assert(all.take(0).filter(pred) =~= Seq::empty());
    }
    let mut rest = containment;
    let mut res: Vec<(usize, Vec<usize>)> = Vec::new();
    let ghost mut i: int = 0;
    while rest.len() > 0
        invariant
            0 <= i <= n,
            n == all.len(),
            containment_view(rest@) == all.subrange(i, n as int),
            pred == culling_entry(brush_entities@, entity_properties@),
            containment_view(res@) == all.take(i).filter(pred),
            forall|k: int|
                0 <= k < rest@.len() ==> {
                    let b = #[trigger] rest@[k].0;
                    &&& brush_entities@.contains_key(b)
                    &&& entity_properties@.contains_key(brush_entities@[b])
                },
        decreases rest.len(),
    {
        let ghost before = containment_view(rest@);
        let ghost res_before = containment_view(res@);
        let e = rest.remove(0);
        proof {
            reveal_strlit("mesh.visual.cull.faces");
            assert("mesh.visual.cull.faces"@ =~= visual_cull_faces_key());
            assert(containment_view(rest@) =~= before.drop_first());
            assert(before[0] == all[i]);
            assert(all.take(i + 1).drop_last() =~= all.take(i));
        }
        let entity = *brush_entities.get(&e.0).unwrap();
        let properties = entity_properties.get(&entity).unwrap();
        let keep = property_usize("mesh.visual.cull.faces", properties).is_ok();
        let ghost ev = (e.0, e.1@);
        if keep {
            res.push(e);
            proof {
                assert(containment_view(res@) =~= res_before.push(ev));
            }
        }
        proof {
            assert(all.take(i + 1).last() == ev);
            assert(pred(ev) == keep);
            reveal(Seq::filter);
            assert(all.take(i + 1).filter(pred) == (if pred(ev) {
                all.take(i).filter(pred).push(ev)
            } else {
                all.take(i).filter(pred)
            }));
            i = i + 1;
        }
    }
    proof {
        assert(all.take(i) =~= all);
    }
    res
}

/// Whether a line is left by culling: its face is in no brush's containment list
pub open spec fn line_left(
    line_faces: Map<usize, usize>,
    containment: Seq<(usize, Vec<usize>)>,
    l: usize,
) -> bool {
    !in_some_list(containment, line_faces[l])
}

/// The lines that culling leaves: those whose face is in no brush's containment list
pub fn unculled_lines(
    lines: &BTreeMap<usize, Line>,
    line_faces: &BTreeMap<usize, usize>,
    containment: &Vec<(usize, Vec<usize>)>,
) -> (res: BTreeMap<usize, Line>)
    requires
        forall|l: usize| lines@.contains_key(l) ==> line_faces@.contains_key(l),
    ensures
        forall|l: usize|
            #[trigger] res@.contains_key(l) <==> lines@.contains_key(l) && line_left(
                line_faces@,
                containment@,
                l,
            ),
        forall|l: usize| res@.contains_key(l) ==> res@[l] == lines@[l],
{
    let mut res = lines.clone();
    for l in it: lines.keys()
        invariant
            forall|x: usize| lines@.contains_key(x) ==> line_faces@.contains_key(x),
            forall|x: usize|
                #[trigger] res@.contains_key(x) ==> lines@.contains_key(x) && res@[x] == lines@[x],
            forall|x: usize|
                lines@.contains_key(x) && !(#[trigger] res@.contains_key(x)) ==> !line_left(
                    line_faces@,
                    containment@,
                    x,
                ),
            forall|k: int|
                0 <= k < it.index() ==> (res@.contains_key(*#[trigger] it.seq()[k]) <==> line_left(
                    line_faces@,
                    containment@,
                    *it.seq()[k],
                )),
            it.seq().unref().to_set() == lines@.dom(),
    {
        let face = *line_faces.get(l).unwrap();
        if in_some_list_exec(containment, face) {
            res.remove(l);
        }
    }
    res
}

} // verus!
