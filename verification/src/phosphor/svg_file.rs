use svg::node::element::tag::Type;
use vstd::prelude::*;

use crate::expression::variables::Variables;
use crate::phosphor::svg_lines::{draws_view, spec_svg_draw, svg_draw, SvgDraw, SvgDrawView};
use crate::text::str_eq;

verus! {

/// Whether a tag opens an element, closes it, or is a whole empty element
#[derive(Debug, Clone, Copy, PartialEq, Eq, Structural)]
pub enum SvgTagKind {
    Start,
    End,
    Empty,
}

/// An event of an SVG document: a tag, with its name, its kind, and the values of
/// some of its attributes (in the order of the keys asked for), or anything else
#[derive(Debug, Clone, PartialEq)]
pub enum SvgEvent {
    Tag { name: String, kind: SvgTagKind, values: Vec<Option<String>> },
    Other,
}

/// The model of an [`SvgEvent`]: strings taken by their characters
pub enum SvgEventView {
    Tag { name: Seq<char>, kind: SvgTagKind, values: Seq<Option<Seq<char>>> },
    Other,
}

pub open spec fn opt_string_view(o: Option<String>) -> Option<Seq<char>> {
    match o {
        Some(s) => Some(s@),
        None => None,
    }
}

impl View for SvgEvent {
    type V = SvgEventView;

    open spec fn view(&self) -> SvgEventView {
        match self {
            SvgEvent::Tag { name, kind, values } => SvgEventView::Tag {
                name: name@,
                kind: *kind,
                values: values@.map_values(|o: Option<String>| opt_string_view(o)),
            },
            SvgEvent::Other => SvgEventView::Other,
        }
    }
}

pub open spec fn events_view(v: Seq<SvgEvent>) -> Seq<SvgEventView> {
    v.map_values(|e: SvgEvent| e@)
}

pub open spec fn strings_of(v: Seq<String>) -> Seq<Seq<char>> {
    v.map_values(|s: String| s@)
}

/// The events that the `svg` crate's parser reads from a document, with the
/// values of the attributes named by `keys`
pub uninterp spec fn svg_event_seq(content: Seq<char>, keys: Seq<Seq<char>>) -> Seq<SvgEventView>;

/// Runs the `svg` crate's parser (`svg::read` and its event iterator) over a
/// document. Trusted: the events are what that parser gives for this document
/// (named by `svg_event_seq`), each tag carrying one value per key asked for:
/// the tag's attribute of that name, if it has one.
#[verifier::external_body]
pub(crate) fn svg_events(content: &str, keys: &Vec<String>) -> (res: Vec<SvgEvent>)
    ensures
        events_view(res@) == svg_event_seq(content@, strings_of(keys@)),
        forall|i: int|
            0 <= i < res@.len() ==> (#[trigger] res@[i] matches SvgEvent::Tag { values, .. } ==> values@.len()
                == keys@.len()),
{
    let parser = match svg::read(content) {
        Ok(parser) => parser,
        Err(_) => return Vec::new(),
    };
    parser.map(|event| match event {
        svg::parser::Event::Tag(name, kind, attributes) => SvgEvent::Tag {
            name: name.to_string(),
            kind: match kind { Type::Start => SvgTagKind::Start, Type::End => SvgTagKind::End, Type::Empty => SvgTagKind::Empty },
            values: keys.iter().map(|k| attributes.get(k.as_str()).map(|v| v.to_string())).collect(),
        },
        _ => SvgEvent::Other,
    }).collect()
}

/// The drawing commands of a document, by category (the label of the outer group)
/// and by glyph (the label of the group inside it)
pub type LayersView = Map<Seq<char>, Map<Seq<char>, Seq<SvgDrawView>>>;

/// Reading a document: the labels of the open groups, and the layers so far
pub type LayersState = (Seq<Seq<char>>, LayersView);

pub open spec fn label_key() -> Seq<char> {
    seq!['i', 'n', 'k', 's', 'c', 'a', 'p', 'e', ':', 'l', 'a', 'b', 'e', 'l']
}

pub open spec fn path_data_key() -> Seq<char> {
    seq!['d']
}

/// The attributes a document is read for: the group label, then the path data
pub open spec fn layer_keys() -> Seq<Seq<char>> {
    seq![label_key(), path_data_key()]
}

/// `layers` with `draws` added after the commands of glyph `glyph` of category `category`
pub open spec fn append_layer(
    layers: LayersView,
    category: Seq<char>,
    glyph: Seq<char>,
    draws: Seq<SvgDrawView>,
) -> LayersView {
    let inner = if layers.contains_key(category) {
        layers[category]
    } else {
        Map::empty()
    };
    let before = if inner.contains_key(glyph) {
        inner[glyph]
    } else {
        Seq::empty()
    };
    layers.insert(category, inner.insert(glyph, before + draws))
}

/// One event read: a `g` start tag opens a group with its label (a group without
/// a label fails), a `g` end tag closes the innermost group, a `path` adds its
/// drawing commands and an end of path to the glyph that the two outermost open
/// groups name (a path without data, with data that does not read, or outside two
/// groups fails); anything else changes nothing
pub open spec fn layer_step(st: LayersState, e: SvgEventView) -> Option<LayersState> {
    match e {
        SvgEventView::Tag { name, kind, values } => if name == seq!['g'] {
            match kind {
                SvgTagKind::Start => match values[0] {
                    Some(label) => Some((st.0.push(label), st.1)),
                    None => None,
                },
                SvgTagKind::End => Some(
                    (
                        if st.0.len() > 0 {
                            st.0.drop_last()
                        } else {
                            st.0
                        },
                        st.1,
                    ),
                ),
                SvgTagKind::Empty => Some(st),
            }
        } else if name == seq!['p', 'a', 't', 'h'] {
            match values[1] {
                None => None,
                Some(d) => match spec_svg_draw(d) {
                    None => None,
                    Some((_, draws)) => if st.0.len() < 2 {
                        None
                    } else {
                        Some(
                            (
                                st.0,
                                append_layer(st.1, st.0[0], st.0[1], draws.push(SvgDrawView::EndPath)),
                            ),
                        )
                    },
                },
            }
        } else {
            Some(st)
        },
        SvgEventView::Other => Some(st),
    }
}

/// The state after reading `events`, or `None` where one of them fails
pub open spec fn layers_state(events: Seq<SvgEventView>) -> Option<LayersState>
    decreases events.len(),
{
    if events.len() == 0 {
        Some((Seq::empty(), Map::empty()))
    } else {
        match layers_state(events.drop_last()) {
            None => None,
            Some(st) => layer_step(st, events.last()),
        }
    }
}

/// The layers of a document's events, or `None` where reading them fails
pub open spec fn spec_svg_layers(events: Seq<SvgEventView>) -> Option<LayersView> {
    match layers_state(events) {
        Some(st) => Some(st.1),
        None => None,
    }
}

pub open spec fn glyphs_view(g: Variables<Vec<SvgDraw>>) -> Map<Seq<char>, Seq<SvgDrawView>> {
    g.map().map_values(|v: Vec<SvgDraw>| draws_view(v@))
}

pub open spec fn layers_view(l: Variables<Variables<Vec<SvgDraw>>>) -> LayersView {
    l.map().map_values(|g: Variables<Vec<SvgDraw>>| glyphs_view(g))
}

pub open spec fn option_layers_view(o: Option<Variables<Variables<Vec<SvgDraw>>>>) -> Option<LayersView> {
    match o {
        Some(l) => Some(layers_view(l)),
        None => None,
    }
}

proof fn lemma_layers_none_extends(events: Seq<SvgEventView>, n: int)
    requires
        0 <= n <= events.len(),
        layers_state(events.take(n)) is None,
    ensures
        layers_state(events) is None,
    decreases events.len() - n,
{
    if n < events.len() {
        assert(events.take(n + 1).drop_last() =~= events.take(n));
        lemma_layers_none_extends(events, n + 1);
    } else {
        assert(events.take(n) =~= events);
    }
}

/// Add draws to a glyph of a category of the layers
fn add_to_layer(
    layers: &mut Variables<Variables<Vec<SvgDraw>>>,
    category: String,
    glyph: String,
    draws: Vec<SvgDraw>,
)
    ensures
        layers_view(*final(layers)) == append_layer(
            layers_view(*old(layers)),
            category@,
            glyph@,
            draws_view(draws@),
        ),
{
    let ghost l0 = layers_view(*layers);
    let mut inner = match layers.remove(&category) {
        Some(v) => v,
        None => Variables::new(),
    };
    let ghost g0 = glyphs_view(inner);
    proof {
        assert(g0 == (if l0.contains_key(category@) {
            l0[category@]
        } else {
            Map::<Seq<char>, Seq<SvgDrawView>>::empty()
        })) by {
            if !l0.contains_key(category@) {
                assert(g0 =~= Map::<Seq<char>, Seq<SvgDrawView>>::empty());
            }
        }
    }
    let mut list = match inner.remove(&glyph) {
        Some(v) => v,
        None => Vec::new(),
    };
    let ghost d0 = draws_view(list@);
    proof {
        assert(d0 == (if g0.contains_key(glyph@) {
            g0[glyph@]
        } else {
            Seq::<SvgDrawView>::empty()
        })) by {
            if !g0.contains_key(glyph@) {
                assert(d0 =~= Seq::<SvgDrawView>::empty());
            }
        }
    }
    let ghost new_view = draws_view(draws@);
    let mut draws = draws;
    list.append(&mut draws);
    proof {
        assert(draws_view(list@) =~= d0 + new_view);
    }
    inner.insert(glyph, list);
    proof {
        assert(glyphs_view(inner) =~= g0.insert(glyph@, d0 + new_view));
    }
    layers.insert(category, inner);
    proof {
        assert(layers_view(*layers) =~= l0.insert(category@, g0.insert(glyph@, d0 + new_view)));
    }
}

/// The layers of a document's events: the drawing commands of each path, with an
/// end of path after each, by category and glyph; `None` where a group has no
/// label, a path has no data or data that does not read, or a path lies outside
/// two groups
pub fn svg_layers(events: &Vec<SvgEvent>) -> (res: Option<Variables<Variables<Vec<SvgDraw>>>>)
    requires
        forall|i: int|
            0 <= i < events@.len() ==> (#[trigger] events@[i] matches SvgEvent::Tag { values, .. } ==> values@.len()
                == 2),
    ensures
        option_layers_view(res) == spec_svg_layers(events_view(events@)),
{
    let ghost ev = events_view(events@);
    let mut stack: Vec<String> = Vec::new();
    let mut layers: Variables<Variables<Vec<SvgDraw>>> = Variables::new();
    proof {
        assert(ev.take(0) =~= Seq::<SvgEventView>::empty());
        assert(layers_view(layers) =~= Map::<Seq<char>, Map<Seq<char>, Seq<SvgDrawView>>>::empty());
        assert(strings_of(stack@) =~= Seq::<Seq<char>>::empty());
    }
    let mut i: usize = 0;
    while i < events.len()
        invariant
            i <= events@.len(),
            ev == events_view(events@),
            forall|k: int|
                0 <= k < events@.len() ==> (#[trigger] events@[k] matches SvgEvent::Tag { values, .. } ==> values@.len()
                    == 2),
            layers_state(ev.take(i as int)) == Some((strings_of(stack@), layers_view(layers))),
        decreases events.len() - i,
    {
        proof {
            assert(ev.take(i + 1).drop_last() =~= ev.take(i as int));
            assert(ev.take(i + 1).last() == events@[i as int]@);
        }
        let ghost st = (strings_of(stack@), layers_view(layers));
        match &events[i] {
            SvgEvent::Tag { name, kind, values } => {
                if str_eq(name.as_str(), "g") {
                    proof {
                        reveal_strlit("g");
                        assert("g"@ =~= seq!['g']);
                    }
                    match kind {
                        SvgTagKind::Start => match &values[0] {
                            Some(label) => {
                                stack.push(label.clone());
                                proof {
                                    assert(strings_of(stack@) =~= st.0.push(label@));
                                }
                            },
                            None => {
                                proof {
                                    lemma_layers_none_extends(ev, i + 1);
                                }
                                return None;
                            },
                        },
                        SvgTagKind::End => {
                            if stack.len() > 0 {
                                stack.pop();
                                proof {
                                    assert(strings_of(stack@) =~= st.0.drop_last());
                                }
                            }
                        },
                        SvgTagKind::Empty => {},
                    }
                } else if str_eq(name.as_str(), "path") {
                    proof {
                        reveal_strlit("g");
                        reveal_strlit("path");
                        assert("g"@ =~= seq!['g']);
                        assert("path"@ =~= seq!['p', 'a', 't', 'h']);
                    }
                    match &values[1] {
                        None => {
                            proof {
                                lemma_layers_none_extends(ev, i + 1);
                            }
                            return None;
                        },
                        Some(d) => match svg_draw(d.as_str()) {
                            None => {
                                proof {
                                    lemma_layers_none_extends(ev, i + 1);
                                }
                                return None;
                            },
                            Some((_, draws)) => {
                                if stack.len() < 2 {
                                    proof {
                                        lemma_layers_none_extends(ev, i + 1);
                                    }
                                    return None;
                                }
                                let ghost dv = draws_view(draws@);
                                let mut draws = draws;
                                draws.push(SvgDraw::EndPath);
                                proof {
                                    assert(draws_view(draws@) =~= dv.push(SvgDrawView::EndPath));
                                }
                                let category = stack[0].clone();
                                let glyph = stack[1].clone();
                                add_to_layer(&mut layers, category, glyph, draws);
                            },
                        },
                    }
                } else {
                    proof {
                        reveal_strlit("g");
                        reveal_strlit("path");
                        assert("g"@ =~= seq!['g']);
                        assert("path"@ =~= seq!['p', 'a', 't', 'h']);
                    }
                }
            },
            SvgEvent::Other => {},
        }
        i += 1;
    }
    proof {
        assert(ev.take(i as int) =~= ev);
    }
    Some(layers)
}

/// The layers of an SVG document (see [`svg_layers`]), read for group labels
/// (`inkscape:label`) and path data (`d`)
pub fn parse_svg_layers(content: &str) -> (res: Option<Variables<Variables<Vec<SvgDraw>>>>)
    ensures
        option_layers_view(res) == spec_svg_layers(svg_event_seq(content@, layer_keys())),
{
    proof {
        reveal_strlit("inkscape:label");
        reveal_strlit("d");
        assert("inkscape:label"@ =~= label_key());
        assert("d"@ =~= path_data_key());
    }
    let mut keys: Vec<String> = Vec::new();
    keys.push("inkscape:label".to_owned());
    keys.push("d".to_owned());
    assert(strings_of(keys@) =~= layer_keys());
    let events = svg_events(content, &keys);
    svg_layers(&events)
}

/// The commands of glyph `glyph` of category `category`; none where there is no
/// such glyph
pub open spec fn glyph_commands(layers: LayersView, category: Seq<char>, glyph: Seq<char>) -> Seq<
    SvgDrawView,
> {
    if layers.contains_key(category) && layers[category].contains_key(glyph) {
        layers[category][glyph]
    } else {
        Seq::empty()
    }
}

/// A path tag with the data `d`
pub open spec fn path_event(kind: SvgTagKind, label: Option<Seq<char>>, d: Seq<char>) -> SvgEventView {
    SvgEventView::Tag { name: seq!['p', 'a', 't', 'h'], kind, values: seq![label, Some(d)] }
}

/// A path read inside two or more open groups, however deeply: its commands and an
/// end of path go after the commands of the glyph whose category is the label of
/// the outermost open group and whose name is the label of the next one; the open
/// groups and every other glyph stay as they were
pub proof fn lemma_path_joins_outermost_glyph(
    events: Seq<SvgEventView>,
    kind: SvgTagKind,
    label: Option<Seq<char>>,
    d: Seq<char>,
    rest: Seq<char>,
    draws: Seq<SvgDrawView>,
)
    requires
        layers_state(events) is Some,
        layers_state(events).unwrap().0.len() >= 2,
        spec_svg_draw(d) == Some((rest, draws)),
    ensures
        ({
            let before = layers_state(events).unwrap();
            let groups = before.0;
            &&& layers_state(events.push(path_event(kind, label, d))) is Some
            &&& layers_state(events.push(path_event(kind, label, d))).unwrap().0 == groups
            &&& glyph_commands(
                layers_state(events.push(path_event(kind, label, d))).unwrap().1,
                groups[0],
                groups[1],
            ) == glyph_commands(before.1, groups[0], groups[1]) + draws + seq![
                SvgDrawView::EndPath,
            ]
            &&& forall|c: Seq<char>, g: Seq<char>|
                !(c == groups[0] && g == groups[1]) ==> #[trigger] glyph_commands(
                    layers_state(events.push(path_event(kind, label, d))).unwrap().1,
                    c,
                    g,
                ) == glyph_commands(before.1, c, g)
        }),
{
    let e = events.push(path_event(kind, label, d));
    assert(e.drop_last() =~= events);
    assert(e.last() == path_event(kind, label, d));
    let before = layers_state(events).unwrap();
    assert(seq!['p', 'a', 't', 'h'] != seq!['g']) by {
        assert(seq!['p', 'a', 't', 'h'].len() != seq!['g'].len());
    }
    let after = layers_state(e).unwrap();
    assert(after.1 == append_layer(
        before.1,
        before.0[0],
        before.0[1],
        draws.push(SvgDrawView::EndPath),
    ));
    assert(draws.push(SvgDrawView::EndPath) =~= draws + seq![SvgDrawView::EndPath]);
}

/// A group start tag with a label opens a group inside the open ones; an end tag
/// closes the innermost open group
pub proof fn lemma_groups_nest(events: Seq<SvgEventView>, label: Seq<char>, values: Seq<
    Option<Seq<char>>,
>)
    requires
        layers_state(events) is Some,
        values.len() > 0,
        values[0] == Some(label),
    ensures
        layers_state(
            events.push(SvgEventView::Tag { name: seq!['g'], kind: SvgTagKind::Start, values }),
        ) == Some((layers_state(events).unwrap().0.push(label), layers_state(events).unwrap().1)),
        layers_state(events).unwrap().0.len() > 0 ==> layers_state(
            events.push(SvgEventView::Tag { name: seq!['g'], kind: SvgTagKind::End, values }),
        ) == Some(
            (
                layers_state(events).unwrap().0.subrange(
                    0,
                    layers_state(events).unwrap().0.len() - 1,
                ),
                layers_state(events).unwrap().1,
            ),
        ),
{
    let e1 = events.push(SvgEventView::Tag { name: seq!['g'], kind: SvgTagKind::Start, values });
    let e2 = events.push(SvgEventView::Tag { name: seq!['g'], kind: SvgTagKind::End, values });
    assert(e1.drop_last() =~= events);
    assert(e2.drop_last() =~= events);
}

} // verus!
