use antigen::phosphor::svg_lines::{svg_draw, svg_line_indices, CommandType, SvgDraw};

fn s(x: &str) -> String {
    x.to_string()
}

#[test]
fn move_then_lines() {
    let (rest, draws) = svg_draw("M 1,2 3,4 l 5,6 z").unwrap();
    assert_eq!(rest, "");
    assert_eq!(
        draws,
        vec![
            SvgDraw::MoveTo(CommandType::Absolute, s("1"), s("2")),
            SvgDraw::LineTo(CommandType::Absolute, s("3"), s("4")),
            SvgDraw::LineTo(CommandType::Relative, s("5"), s("6")),
            SvgDraw::ClosePath,
        ]
    );
}

#[test]
fn horizontal_and_vertical() {
    let (rest, draws) = svg_draw("m-1.5,2e1 h 3 4 V 7").unwrap();
    assert_eq!(rest, "");
    assert_eq!(
        draws,
        vec![
            SvgDraw::MoveTo(CommandType::Relative, s("-1.5"), s("2e1")),
            SvgDraw::HorizontalTo(CommandType::Relative, s("3")),
            SvgDraw::HorizontalTo(CommandType::Relative, s("4")),
            SvgDraw::VerticalTo(CommandType::Absolute, s("7")),
        ]
    );
}

#[test]
fn stops_at_unknown_command() {
    let (rest, draws) = svg_draw("L1,1 C 2,2").unwrap();
    assert_eq!(rest, "C 2,2");
    assert_eq!(draws, vec![SvgDraw::LineTo(CommandType::Absolute, s("1"), s("1"))]);
}

#[test]
fn rejected_paths() {
    assert!(svg_draw("").is_none());
    assert!(svg_draw("C 1,2").is_none());
    assert!(svg_draw("M").is_none());
    assert!(svg_draw("M 1").is_none());
    assert!(svg_draw("M 1e,2").is_none());
}

#[test]
fn line_indices_of_a_closed_path() {
    let (_, mut draws) = svg_draw("M 0,0 L 1,0 1,1 Z").unwrap();
    draws.push(SvgDraw::EndPath);
    let (_, more) = svg_draw("M 5,5 h 1").unwrap();
    draws.extend(more);
    draws.push(SvgDraw::EndPath);
    let indices = svg_line_indices(&draws);
    assert_eq!(indices, vec![0, 1, 1, 2, 2, 0, 3, 4]);
    assert_eq!(indices.len() % 2, 0);
}

#[test]
fn line_indices_empty() {
    assert!(svg_line_indices(&vec![]).is_empty());
}

#[test]
fn line_indices_of_paths_drawn_together() {
    let (_, mut a) = svg_draw("M 0,0 L 1,0 1,1 Z").unwrap();
    a.push(SvgDraw::EndPath);
    let (_, mut b) = svg_draw("M 5,5 h 1 v 2 z").unwrap();
    b.push(SvgDraw::EndPath);
    let ia = svg_line_indices(&a);
    let ib = svg_line_indices(&b);
    // the first drawing places three vertices (a move and two lines), so the second is shifted by 3
    let mut whole = a.clone();
    whole.extend(b.clone());
    let expected: Vec<usize> = ia.iter().copied().chain(ib.iter().map(|i| i + 3)).collect();
    assert_eq!(svg_line_indices(&whole), expected);
}
