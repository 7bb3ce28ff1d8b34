use antigen::phosphor::svg_file::{parse_svg_layers, svg_layers, SvgEvent, SvgTagKind};
use antigen::phosphor::svg_lines::{CommandType, SvgDraw};

fn s(x: &str) -> String {
    x.to_string()
}

const DOC: &str = r#"<svg>
  <g inkscape:label="lower">
    <g inkscape:label="a">
      <path d="M 0,0 L 1,0" />
      <path d="m 2,2 h 1" />
    </g>
    <g inkscape:label="b"><path d="M 5,5 Z" /></g>
  </g>
</svg>"#;

#[test]
fn layers_of_a_document() {
    let layers = parse_svg_layers(DOC).unwrap().into_entries();
    assert_eq!(layers.len(), 1);
    let (category, glyphs) = layers.into_iter().next().unwrap();
    assert_eq!(category, "lower");
    let mut glyphs = glyphs.into_entries();
    glyphs.sort_by(|x, y| x.0.cmp(&y.0));
    assert_eq!(glyphs.len(), 2);
    assert_eq!(glyphs[0].0, "a");
    assert_eq!(
        glyphs[0].1,
        vec![
            SvgDraw::MoveTo(CommandType::Absolute, s("0"), s("0")),
            SvgDraw::LineTo(CommandType::Absolute, s("1"), s("0")),
            SvgDraw::EndPath,
            SvgDraw::MoveTo(CommandType::Relative, s("2"), s("2")),
            SvgDraw::HorizontalTo(CommandType::Relative, s("1")),
            SvgDraw::EndPath,
        ]
    );
    assert_eq!(glyphs[1].0, "b");
    assert_eq!(
        glyphs[1].1,
        vec![SvgDraw::MoveTo(CommandType::Absolute, s("5"), s("5")), SvgDraw::ClosePath, SvgDraw::EndPath]
    );
}

#[test]
fn rejected_documents() {
    // A path outside two groups
    assert!(parse_svg_layers(r#"<g inkscape:label="x"><path d="M 1,1"/></g>"#).is_none());
    // A group without a label
    assert!(parse_svg_layers(r#"<g><g inkscape:label="a"></g></g>"#).is_none());
    // A path without data
    assert!(parse_svg_layers(r#"<g inkscape:label="x"><g inkscape:label="y"><path/></g></g>"#).is_none());
    // Path data that does not read
    assert!(parse_svg_layers(r#"<g inkscape:label="x"><g inkscape:label="y"><path d="Q"/></g></g>"#).is_none());
    // Nothing drawn is no failure
    assert_eq!(parse_svg_layers("<svg></svg>").unwrap().into_entries().len(), 0);
}

#[test]
fn layers_of_events() {
    let g = |label: &str| SvgEvent::Tag { name: s("g"), kind: SvgTagKind::Start, values: vec![Some(s(label)), None] };
    let end = SvgEvent::Tag { name: s("g"), kind: SvgTagKind::End, values: vec![None, None] };
    let path = |d: &str| SvgEvent::Tag { name: s("path"), kind: SvgTagKind::Empty, values: vec![None, Some(s(d))] };
    let events = vec![g("c"), g("x"), path("M 1,2"), end.clone(), g("y"), path("L 3,4"), end.clone(), end, SvgEvent::Other];
    let layers = svg_layers(&events).unwrap().into_entries();
    assert_eq!(layers.len(), 1);
    let (_, glyphs) = layers.into_iter().next().unwrap();
    let mut glyphs = glyphs.into_entries();
    glyphs.sort_by(|x, y| x.0.cmp(&y.0));
    assert_eq!(glyphs[0].1, vec![SvgDraw::MoveTo(CommandType::Absolute, s("1"), s("2")), SvgDraw::EndPath]);
    assert_eq!(glyphs[1].1, vec![SvgDraw::LineTo(CommandType::Absolute, s("3"), s("4")), SvgDraw::EndPath]);
}

#[test]
fn attributes_other_than_label_and_data_are_ignored() {
    let doc = r#"<g id="1" inkscape:label="c"><g inkscape:label="x" style="s"><path id="p" d="M 1,1"/></g></g>"#;
    let layers = parse_svg_layers(doc).unwrap().into_entries();
    let (category, glyphs) = layers.into_iter().next().unwrap();
    assert_eq!(category, "c");
    let glyphs = glyphs.into_entries();
    assert_eq!(glyphs[0].0, "x");
    assert_eq!(glyphs[0].1, vec![SvgDraw::MoveTo(CommandType::Absolute, s("1"), s("1")), SvgDraw::EndPath]);
}
