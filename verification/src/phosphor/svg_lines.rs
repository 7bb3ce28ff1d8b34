use vstd::prelude::*;

use crate::expression::token::{lemma_skip_ws, skip_ws};
use crate::float_literal::{float_literal_scan, lemma_float_scan_consumes, scan_float, FloatScan};
use crate::text::{chars_of, string_of_range};

verus! {

/// Whether the coordinates of a path command are absolute or relative to the
/// current point
#[derive(Debug, Copy, Clone, PartialEq, Eq, Structural)]
pub enum CommandType {
    Absolute,
    Relative,
}

/// A drawing command of an SVG path. Coordinates are kept as the text of their
/// number literals.
#[derive(Debug, Clone, PartialEq)]
pub enum SvgDraw {
    MoveTo(CommandType, String, String),
    LineTo(CommandType, String, String),
    HorizontalTo(CommandType, String),
    VerticalTo(CommandType, String),
    EndPath,
    ClosePath,
}

/// The model of an [`SvgDraw`]: literals taken by their characters
pub enum SvgDrawView {
    MoveTo(CommandType, Seq<char>, Seq<char>),
    LineTo(CommandType, Seq<char>, Seq<char>),
    HorizontalTo(CommandType, Seq<char>),
    VerticalTo(CommandType, Seq<char>),
    EndPath,
    ClosePath,
}

impl View for SvgDraw {
    type V = SvgDrawView;

    open spec fn view(&self) -> SvgDrawView {
        match self {
            SvgDraw::MoveTo(t, x, y) => SvgDrawView::MoveTo(*t, x@, y@),
            SvgDraw::LineTo(t, x, y) => SvgDrawView::LineTo(*t, x@, y@),
            SvgDraw::HorizontalTo(t, x) => SvgDrawView::HorizontalTo(*t, x@),
            SvgDraw::VerticalTo(t, y) => SvgDrawView::VerticalTo(*t, y@),
            SvgDraw::EndPath => SvgDrawView::EndPath,
            SvgDraw::ClosePath => SvgDrawView::ClosePath,
        }
    }
}

pub open spec fn draws_view(v: Seq<SvgDraw>) -> Seq<SvgDrawView> {
    v.map_values(|d: SvgDraw| d@)
}

// ---------------------------------------------------------------------------
// Model of the path grammar
// ---------------------------------------------------------------------------

/// Outcome of reading at a position: an unrecoverable failure, no match, or a
/// value and the position after it
pub enum ParseOut<T> {
    Fatal,
    Fail,
    Done(T, int),
}

/// A number literal at `p`
pub open spec fn float_at(s: Seq<char>, p: int) -> ParseOut<Seq<char>> {
    if !(0 <= p <= s.len()) {
        ParseOut::Fail
    } else {
        match float_literal_scan(s.subrange(p, s.len() as int)) {
            None => ParseOut::Fatal,
            Some(None) => ParseOut::Fail,
            Some(Some(r)) => if p < s.len() - r {
                ParseOut::Done(s.subrange(p, s.len() - r), s.len() - r)
            } else {
                ParseOut::Fail
            },
        }
    }
}

/// A coordinate pair `x,y` at `p`, with whitespace around it
pub open spec fn param2_at(s: Seq<char>, p: int) -> ParseOut<(Seq<char>, Seq<char>)> {
    let q = skip_ws(s, p);
    match float_at(s, q) {
        ParseOut::Fatal => ParseOut::Fatal,
        ParseOut::Fail => ParseOut::Fail,
        ParseOut::Done(x, q1) => if q1 < s.len() && s[q1] == ',' {
            match float_at(s, q1 + 1) {
                ParseOut::Fatal => ParseOut::Fatal,
                ParseOut::Fail => ParseOut::Fail,
                ParseOut::Done(y, q2) => ParseOut::Done((x, y), skip_ws(s, q2)),
            }
        } else {
            ParseOut::Fail
        },
    }
}

/// A single coordinate at `p`, with whitespace around it
pub open spec fn param1_at(s: Seq<char>, p: int) -> ParseOut<Seq<char>> {
    match float_at(s, skip_ws(s, p)) {
        ParseOut::Fatal => ParseOut::Fatal,
        ParseOut::Fail => ParseOut::Fail,
        ParseOut::Done(x, q) => ParseOut::Done(x, skip_ws(s, q)),
    }
}

/// Coordinate pairs read from `p` on until none matches
pub open spec fn pairs_from(s: Seq<char>, p: int) -> ParseOut<Seq<(Seq<char>, Seq<char>)>>
    decreases s.len() - p,
{
    match param2_at(s, p) {
        ParseOut::Fatal => ParseOut::Fatal,
        ParseOut::Fail => ParseOut::Done(Seq::empty(), p),
        ParseOut::Done(x, n) => if p < n <= s.len() {
            match pairs_from(s, n) {
                ParseOut::Done(rest, m) => ParseOut::Done(seq![x] + rest, m),
                ParseOut::Fatal => ParseOut::Fatal,
                ParseOut::Fail => ParseOut::Fail,
            }
        } else {
            ParseOut::Fail
        },
    }
}

/// Single coordinates read from `p` on until none matches
pub open spec fn singles_from(s: Seq<char>, p: int) -> ParseOut<Seq<Seq<char>>>
    decreases s.len() - p,
{
    match param1_at(s, p) {
        ParseOut::Fatal => ParseOut::Fatal,
        ParseOut::Fail => ParseOut::Done(Seq::empty(), p),
        ParseOut::Done(x, n) => if p < n <= s.len() {
            match singles_from(s, n) {
                ParseOut::Done(rest, m) => ParseOut::Done(seq![x] + rest, m),
                ParseOut::Fatal => ParseOut::Fatal,
                ParseOut::Fail => ParseOut::Fail,
            }
        } else {
            ParseOut::Fail
        },
    }
}

/// One or more of something: no match where there is none
pub open spec fn at_least_one<T>(o: ParseOut<Seq<T>>) -> ParseOut<Seq<T>> {
    match o {
        ParseOut::Done(v, m) => if v.len() == 0 {
            ParseOut::Fail
        } else {
            ParseOut::Done(v, m)
        },
        ParseOut::Fatal => ParseOut::Fatal,
        ParseOut::Fail => ParseOut::Fail,
    }
}

/// A move command: a move to the first pair, lines to the others
pub open spec fn move_draws(t: CommandType, ps: Seq<(Seq<char>, Seq<char>)>) -> Seq<SvgDrawView> {
    seq![SvgDrawView::MoveTo(t, ps[0].0, ps[0].1)] + ps.drop_first().map_values(
        |x: (Seq<char>, Seq<char>)| SvgDrawView::LineTo(t, x.0, x.1),
    )
}

pub open spec fn line_draws(t: CommandType, ps: Seq<(Seq<char>, Seq<char>)>) -> Seq<SvgDrawView> {
    ps.map_values(|x: (Seq<char>, Seq<char>)| SvgDrawView::LineTo(t, x.0, x.1))
}

pub open spec fn horizontal_draws(t: CommandType, xs: Seq<Seq<char>>) -> Seq<SvgDrawView> {
    xs.map_values(|x: Seq<char>| SvgDrawView::HorizontalTo(t, x))
}

pub open spec fn vertical_draws(t: CommandType, ys: Seq<Seq<char>>) -> Seq<SvgDrawView> {
    ys.map_values(|y: Seq<char>| SvgDrawView::VerticalTo(t, y))
}

pub open spec fn command_type(c: char) -> CommandType {
    if c == 'M' || c == 'L' || c == 'H' || c == 'V' {
        CommandType::Absolute
    } else {
        CommandType::Relative
    }
}

/// The commands of one path command letter at `p`: `M`/`m` take one or more
/// coordinate pairs, `L`/`l` too, `H`/`h` and `V`/`v` one or more coordinates,
/// `Z`/`z` none
pub open spec fn variant_at(s: Seq<char>, p: int) -> ParseOut<Seq<SvgDrawView>> {
    if !(0 <= p < s.len()) {
        ParseOut::Fail
    } else {
        let c = s[p];
        let t = command_type(c);
        if c == 'M' || c == 'm' {
            match at_least_one(pairs_from(s, p + 1)) {
                ParseOut::Done(ps, n) => ParseOut::Done(move_draws(t, ps), n),
                ParseOut::Fatal => ParseOut::Fatal,
                ParseOut::Fail => ParseOut::Fail,
            }
        } else if c == 'L' || c == 'l' {
            match at_least_one(pairs_from(s, p + 1)) {
                ParseOut::Done(ps, n) => ParseOut::Done(line_draws(t, ps), n),
                ParseOut::Fatal => ParseOut::Fatal,
                ParseOut::Fail => ParseOut::Fail,
            }
        } else if c == 'H' || c == 'h' {
            match at_least_one(singles_from(s, p + 1)) {
                ParseOut::Done(xs, n) => ParseOut::Done(horizontal_draws(t, xs), n),
                ParseOut::Fatal => ParseOut::Fatal,
                ParseOut::Fail => ParseOut::Fail,
            }
        } else if c == 'V' || c == 'v' {
            match at_least_one(singles_from(s, p + 1)) {
                ParseOut::Done(ys, n) => ParseOut::Done(vertical_draws(t, ys), n),
                ParseOut::Fatal => ParseOut::Fatal,
                ParseOut::Fail => ParseOut::Fail,
            }
        } else if c == 'Z' || c == 'z' {
            ParseOut::Done(seq![SvgDrawView::ClosePath], p + 1)
        } else {
            ParseOut::Fail
        }
    }
}

/// The type a drawing command carries, if it has one
pub open spec fn draw_type(d: SvgDrawView) -> Option<CommandType> {
    match d {
        SvgDrawView::MoveTo(t, _, _) => Some(t),
        SvgDrawView::LineTo(t, _, _) => Some(t),
        SvgDrawView::HorizontalTo(t, _) => Some(t),
        SvgDrawView::VerticalTo(t, _) => Some(t),
        _ => None,
    }
}

/// A command letter decides what it draws: an upper-case letter gives absolute
/// commands and a lower-case one relative commands; `M`/`m` moves and then draws
/// lines, `L`/`l` draws lines, `H`/`h` horizontal lines, `V`/`v` vertical lines, and
/// `Z`/`z` closes the path; every letter that reads gives at least one command
pub proof fn lemma_command_letters(s: Seq<char>, p: int)
    ensures
        variant_at(s, p) matches ParseOut::Done(v, _) ==> {
            let c = s[p];
            &&& v.len() >= 1
            &&& 'A' <= c <= 'Z' ==> forall|i: int|
                0 <= i < v.len() ==> #[trigger] draw_type(v[i]) is None || draw_type(v[i])
                    == Some(CommandType::Absolute)
            &&& 'a' <= c <= 'z' ==> forall|i: int|
                0 <= i < v.len() ==> #[trigger] draw_type(v[i]) is None || draw_type(v[i])
                    == Some(CommandType::Relative)
            &&& (c == 'M' || c == 'm') ==> v[0] is MoveTo && forall|i: int|
                1 <= i < v.len() ==> #[trigger] v[i] is LineTo
            &&& (c == 'L' || c == 'l') ==> forall|i: int| 0 <= i < v.len() ==> #[trigger] v[i] is LineTo
            &&& (c == 'H' || c == 'h') ==> forall|i: int|
                0 <= i < v.len() ==> #[trigger] v[i] is HorizontalTo
            &&& (c == 'V' || c == 'v') ==> forall|i: int|
                0 <= i < v.len() ==> #[trigger] v[i] is VerticalTo
            &&& (c == 'Z' || c == 'z') ==> v == seq![SvgDrawView::ClosePath]
        },
{
    if let ParseOut::Done(v, _) = variant_at(s, p) {
        let c = s[p];
        let t = command_type(c);
        if c == 'M' || c == 'm' {
            let ps = at_least_one(pairs_from(s, p + 1))->Done_0;
            assert(v == move_draws(t, ps));
            assert forall|i: int| 0 <= i < v.len() implies #[trigger] draw_type(v[i]) == Some(t) by {
                if i > 0 {
                    assert(v[i] == SvgDrawView::LineTo(t, ps.drop_first()[i - 1].0, ps.drop_first()[i
                        - 1].1));
                }
            }
            assert forall|i: int| 1 <= i < v.len() implies #[trigger] v[i] is LineTo by {
                assert(v[i] == SvgDrawView::LineTo(t, ps.drop_first()[i - 1].0, ps.drop_first()[i
                    - 1].1));
            }
        } else if c == 'L' || c == 'l' {
            assert forall|i: int| 0 <= i < v.len() implies #[trigger] draw_type(v[i]) == Some(t)
                && v[i] is LineTo by {}
        } else if c == 'H' || c == 'h' {
            assert forall|i: int| 0 <= i < v.len() implies #[trigger] draw_type(v[i]) == Some(t)
                && v[i] is HorizontalTo by {}
        } else if c == 'V' || c == 'v' {
            assert forall|i: int| 0 <= i < v.len() implies #[trigger] draw_type(v[i]) == Some(t)
                && v[i] is VerticalTo by {}
        }
    }
}

/// The commands read from `p` on until no command letter matches
pub open spec fn draws_from(s: Seq<char>, p: int) -> ParseOut<Seq<SvgDrawView>>
    decreases s.len() - p,
{
    match variant_at(s, p) {
        ParseOut::Fatal => ParseOut::Fatal,
        ParseOut::Fail => ParseOut::Done(Seq::empty(), p),
        ParseOut::Done(v, n) => if p < n <= s.len() {
            match draws_from(s, n) {
                ParseOut::Done(rest, m) => ParseOut::Done(v + rest, m),
                ParseOut::Fatal => ParseOut::Fatal,
                ParseOut::Fail => ParseOut::Fail,
            }
        } else {
            ParseOut::Fail
        },
    }
}

/// The drawing commands of a path's `d` attribute, with the text left after them:
/// one or more commands, read until none matches; `None` where no command can be
/// read at the start or a number literal is malformed
pub open spec fn spec_svg_draw(s: Seq<char>) -> Option<(Seq<char>, Seq<SvgDrawView>)> {
    match draws_from(s, 0) {
        ParseOut::Done(v, m) => if v.len() == 0 {
            None
        } else {
            Some((s.subrange(m, s.len() as int), v))
        },
        _ => None,
    }
}


// ---------------------------------------------------------------------------
// Reading paths
// ---------------------------------------------------------------------------

/// Outcome of reading at a position
pub enum Parsed<T> {
    Fatal,
    Fail,
    Done(T, usize),
}

pub open spec fn pair_view(x: (String, String)) -> (Seq<char>, Seq<char>) {
    (x.0@, x.1@)
}

pub open spec fn pairs_view(v: Seq<(String, String)>) -> Seq<(Seq<char>, Seq<char>)> {
    v.map_values(|x: (String, String)| pair_view(x))
}

pub open spec fn strings_view(v: Seq<String>) -> Seq<Seq<char>> {
    v.map_values(|x: String| x@)
}

pub open spec fn parsed_string(o: Parsed<String>) -> ParseOut<Seq<char>> {
    match o {
        Parsed::Fatal => ParseOut::Fatal,
        Parsed::Fail => ParseOut::Fail,
        Parsed::Done(x, n) => ParseOut::Done(x@, n as int),
    }
}

pub open spec fn parsed_pair(o: Parsed<(String, String)>) -> ParseOut<(Seq<char>, Seq<char>)> {
    match o {
        Parsed::Fatal => ParseOut::Fatal,
        Parsed::Fail => ParseOut::Fail,
        Parsed::Done(x, n) => ParseOut::Done(pair_view(x), n as int),
    }
}

pub open spec fn parsed_pairs(o: Parsed<Vec<(String, String)>>) -> ParseOut<Seq<(Seq<char>, Seq<char>)>> {
    match o {
        Parsed::Fatal => ParseOut::Fatal,
        Parsed::Fail => ParseOut::Fail,
        Parsed::Done(x, n) => ParseOut::Done(pairs_view(x@), n as int),
    }
}

pub open spec fn parsed_strings(o: Parsed<Vec<String>>) -> ParseOut<Seq<Seq<char>>> {
    match o {
        Parsed::Fatal => ParseOut::Fatal,
        Parsed::Fail => ParseOut::Fail,
        Parsed::Done(x, n) => ParseOut::Done(strings_view(x@), n as int),
    }
}

pub open spec fn parsed_draws(o: Parsed<Vec<SvgDraw>>) -> ParseOut<Seq<SvgDrawView>> {
    match o {
        Parsed::Fatal => ParseOut::Fatal,
        Parsed::Fail => ParseOut::Fail,
        Parsed::Done(x, n) => ParseOut::Done(draws_view(x@), n as int),
    }
}

/// `acc` followed by what `o` reads
pub open spec fn after<T>(acc: Seq<T>, o: ParseOut<Seq<T>>) -> ParseOut<Seq<T>> {
    match o {
        ParseOut::Done(rest, m) => ParseOut::Done(acc + rest, m),
        ParseOut::Fatal => ParseOut::Fatal,
        ParseOut::Fail => ParseOut::Fail,
    }
}

fn skip_ws_at(cs: &Vec<char>, p: usize) -> (res: usize)
    requires
        p <= cs.len(),
    ensures
        res as int == skip_ws(cs@, p as int),
        p <= res <= cs.len(),
{
    let mut i = p;
    while i < cs.len() && (cs[i] == ' ' || cs[i] == '\t' || cs[i] == '\r' || cs[i] == '\n')
        invariant
            p <= i <= cs.len(),
            skip_ws(cs@, i as int) == skip_ws(cs@, p as int),
        decreases cs.len() - i,
    {
        i += 1;
    }
    i
}

fn float_at_exec(cs: &Vec<char>, p: usize) -> (res: Parsed<String>)
    requires
        p <= cs.len(),
    ensures
        parsed_string(res) == float_at(cs@, p as int),
        res matches Parsed::Done(_, n) ==> p < n <= cs.len(),
{
    proof {
        lemma_float_scan_consumes(cs@.subrange(p as int, cs.len() as int));
    }
    match scan_float(cs, p) {
        FloatScan::Fatal => Parsed::Fatal,
        FloatScan::NoMatch => Parsed::Fail,
        FloatScan::Matched(r) => {
            let end = cs.len() - r;
            Parsed::Done(string_of_range(cs, p, end), end)
        },
    }
}

fn param2_exec(cs: &Vec<char>, p: usize) -> (res: Parsed<(String, String)>)
    requires
        p <= cs.len(),
    ensures
        parsed_pair(res) == param2_at(cs@, p as int),
        res matches Parsed::Done(_, n) ==> p < n <= cs.len(),
{
    let q = skip_ws_at(cs, p);
    match float_at_exec(cs, q) {
        Parsed::Fatal => Parsed::Fatal,
        Parsed::Fail => Parsed::Fail,
        Parsed::Done(x, q1) => {
            if q1 < cs.len() && cs[q1] == ',' {
                match float_at_exec(cs, q1 + 1) {
                    Parsed::Fatal => Parsed::Fatal,
                    Parsed::Fail => Parsed::Fail,
                    Parsed::Done(y, q2) => {
                        let n = skip_ws_at(cs, q2);
                        Parsed::Done((x, y), n)
                    },
                }
            } else {
                Parsed::Fail
            }
        },
    }
}

fn param1_exec(cs: &Vec<char>, p: usize) -> (res: Parsed<String>)
    requires
        p <= cs.len(),
    ensures
        parsed_string(res) == param1_at(cs@, p as int),
        res matches Parsed::Done(_, n) ==> p < n <= cs.len(),
{
    let q = skip_ws_at(cs, p);
    match float_at_exec(cs, q) {
        Parsed::Fatal => Parsed::Fatal,
        Parsed::Fail => Parsed::Fail,
        Parsed::Done(x, q1) => {
            let n = skip_ws_at(cs, q1);
            Parsed::Done(x, n)
        },
    }
}

fn pairs_exec(cs: &Vec<char>, p: usize) -> (res: Parsed<Vec<(String, String)>>)
    requires
        p <= cs.len(),
    ensures
        parsed_pairs(res) == pairs_from(cs@, p as int),
{
    let mut acc: Vec<(String, String)> = Vec::new();
    let mut q = p;
    loop
        invariant
            p <= q <= cs.len(),
            pairs_from(cs@, p as int) == after(pairs_view(acc@), pairs_from(cs@, q as int)),
        decreases cs.len() - q,
    {
        let ghost before = pairs_view(acc@);
        match param2_exec(cs, q) {
            Parsed::Fatal => {
                return Parsed::Fatal;
            },
            Parsed::Fail => {
                assert(pairs_view(acc@) + Seq::<(Seq<char>, Seq<char>)>::empty() =~= pairs_view(acc@));
                return Parsed::Done(acc, q);
            },
            Parsed::Done(x, n) => {
                let ghost xv = pair_view(x);
                acc.push(x);
                proof {
                    assert(pairs_view(acc@) =~= before.push(xv));
                    match pairs_from(cs@, n as int) {
                        ParseOut::Done(rest, m) => {
                            assert(before + (seq![xv] + rest) =~= before.push(xv) + rest);
                        },
                        _ => {},
                    }
                }
                q = n;
            },
        }
    }
}

fn singles_exec(cs: &Vec<char>, p: usize) -> (res: Parsed<Vec<String>>)
    requires
        p <= cs.len(),
    ensures
        parsed_strings(res) == singles_from(cs@, p as int),
{
    let mut acc: Vec<String> = Vec::new();
    let mut q = p;
    loop
        invariant
            p <= q <= cs.len(),
            singles_from(cs@, p as int) == after(strings_view(acc@), singles_from(cs@, q as int)),
        decreases cs.len() - q,
    {
        let ghost before = strings_view(acc@);
        match param1_exec(cs, q) {
            Parsed::Fatal => {
                return Parsed::Fatal;
            },
            Parsed::Fail => {
                assert(strings_view(acc@) + Seq::<Seq<char>>::empty() =~= strings_view(acc@));
                return Parsed::Done(acc, q);
            },
            Parsed::Done(x, n) => {
                let ghost xv = x@;
                acc.push(x);
                proof {
                    assert(strings_view(acc@) =~= before.push(xv));
                    match singles_from(cs@, n as int) {
                        ParseOut::Done(rest, m) => {
                            assert(before + (seq![xv] + rest) =~= before.push(xv) + rest);
                        },
                        _ => {},
                    }
                }
                q = n;
            },
        }
    }
}

fn to_draws_pairs(t: CommandType, ps: Vec<(String, String)>, first_moves: bool) -> (res: Vec<SvgDraw>)
    requires
        ps@.len() > 0,
    ensures
        first_moves ==> draws_view(res@) == move_draws(t, pairs_view(ps@)),
        !first_moves ==> draws_view(res@) == line_draws(t, pairs_view(ps@)),
{
    let mut ps = ps;
    let ghost all = pairs_view(ps@);
    let n0 = ps.len();
    assert(all.len() == n0);
    let mut res: Vec<SvgDraw> = Vec::new();
    let mut i: usize = 0;
    while ps.len() > 0
        invariant
            all.len() == i + ps@.len(),
            all.len() <= usize::MAX,
            pairs_view(ps@) == all.subrange(i as int, all.len() as int),
            draws_view(res@).len() == i,
            forall|j: int|
                0 <= j < i ==> #[trigger] draws_view(res@)[j] == (if first_moves && j == 0 {
                    SvgDrawView::MoveTo(t, all[j].0, all[j].1)
                } else {
                    SvgDrawView::LineTo(t, all[j].0, all[j].1)
                }),
        decreases ps.len(),
    {
        let ghost before = pairs_view(ps@);
        let ghost res_before = draws_view(res@);
        let (x, y) = ps.remove(0);
        proof {
            assert(pairs_view(ps@) =~= before.drop_first());
        }
        let d = if first_moves && i == 0 {
            SvgDraw::MoveTo(t, x, y)
        } else {
            SvgDraw::LineTo(t, x, y)
        };
        res.push(d);
        proof {
            assert(draws_view(res@) =~= res_before.push(d@));
            assert(before[0] == all[i as int]);
            assert(before[0] == pair_view((x, y)));
            assert forall|j: int| 0 <= j < i + 1 implies #[trigger] draws_view(res@)[j] == (if first_moves && j == 0 {
                SvgDrawView::MoveTo(t, all[j].0, all[j].1)
            } else {
                SvgDrawView::LineTo(t, all[j].0, all[j].1)
            }) by {
                if j < i {
                    assert(draws_view(res@)[j] == res_before[j]);
                }
            }
        }
        i += 1;
    }
    proof {
        if first_moves {
            assert(draws_view(res@) =~= move_draws(t, all));
        } else {
            assert(draws_view(res@) =~= line_draws(t, all));
        }
    }
    res
}

fn to_draws_singles(t: CommandType, xs: Vec<String>, horizontal: bool) -> (res: Vec<SvgDraw>)
    ensures
        horizontal ==> draws_view(res@) == horizontal_draws(t, strings_view(xs@)),
        !horizontal ==> draws_view(res@) == vertical_draws(t, strings_view(xs@)),
{
    let mut xs = xs;
    let ghost all = strings_view(xs@);
    let n0 = xs.len();
    assert(all.len() == n0);
    let mut res: Vec<SvgDraw> = Vec::new();
    let mut i: usize = 0;
    while xs.len() > 0
        invariant
            all.len() == i + xs@.len(),
            all.len() <= usize::MAX,
            strings_view(xs@) == all.subrange(i as int, all.len() as int),
            draws_view(res@).len() == i,
            forall|j: int|
                0 <= j < i ==> #[trigger] draws_view(res@)[j] == (if horizontal {
                    SvgDrawView::HorizontalTo(t, all[j])
                } else {
                    SvgDrawView::VerticalTo(t, all[j])
                }),
        decreases xs.len(),
    {
        let ghost before = strings_view(xs@);
        let ghost res_before = draws_view(res@);
        let x = xs.remove(0);
        proof {
            assert(strings_view(xs@) =~= before.drop_first());
        }
        let d = if horizontal {
            SvgDraw::HorizontalTo(t, x)
        } else {
            SvgDraw::VerticalTo(t, x)
        };
        res.push(d);
        proof {
            assert(draws_view(res@) =~= res_before.push(d@));
            assert(before[0] == all[i as int]);
            assert(before[0] == x@);
            assert forall|j: int| 0 <= j < i + 1 implies #[trigger] draws_view(res@)[j] == (if horizontal {
                SvgDrawView::HorizontalTo(t, all[j])
            } else {
                SvgDrawView::VerticalTo(t, all[j])
            }) by {
                if j < i {
                    assert(draws_view(res@)[j] == res_before[j]);
                }
            }
        }
        i += 1;
    }
    proof {
        if horizontal {
            assert(draws_view(res@) =~= horizontal_draws(t, all));
        } else {
            assert(draws_view(res@) =~= vertical_draws(t, all));
        }
    }
    res
}

fn variant_exec(cs: &Vec<char>, p: usize) -> (res: Parsed<Vec<SvgDraw>>)
    requires
        p <= cs.len(),
    ensures
        parsed_draws(res) == variant_at(cs@, p as int),
{
    if p >= cs.len() {
        return Parsed::Fail;
    }
    let c = cs[p];
    let t = if c == 'M' || c == 'L' || c == 'H' || c == 'V' {
        CommandType::Absolute
    } else {
        CommandType::Relative
    };
    if c == 'M' || c == 'm' || c == 'L' || c == 'l' {
        match pairs_exec(cs, p + 1) {
            Parsed::Fatal => Parsed::Fatal,
            Parsed::Fail => Parsed::Fail,
            Parsed::Done(ps, n) => {
                if ps.len() == 0 {
                    Parsed::Fail
                } else {
                    Parsed::Done(to_draws_pairs(t, ps, c == 'M' || c == 'm'), n)
                }
            },
        }
    } else if c == 'H' || c == 'h' || c == 'V' || c == 'v' {
        match singles_exec(cs, p + 1) {
            Parsed::Fatal => Parsed::Fatal,
            Parsed::Fail => Parsed::Fail,
            Parsed::Done(xs, n) => {
                if xs.len() == 0 {
                    Parsed::Fail
                } else {
                    Parsed::Done(to_draws_singles(t, xs, c == 'H' || c == 'h'), n)
                }
            },
        }
    } else if c == 'Z' || c == 'z' {
        let mut v: Vec<SvgDraw> = Vec::new();
        v.push(SvgDraw::ClosePath);
        assert(draws_view(v@) =~= seq![SvgDrawView::ClosePath]);
        Parsed::Done(v, p + 1)
    } else {
        Parsed::Fail
    }
}

/// Read the drawing commands of a path's `d` attribute; gives the text left after
/// them and the commands
pub fn svg_draw(input: &str) -> (res: Option<(String, Vec<SvgDraw>)>)
    ensures
        match res {
            Some((rest, v)) => spec_svg_draw(input@) == Some((rest@, draws_view(v@))),
            None => spec_svg_draw(input@) is None,
        },
{
    let cs = chars_of(input);
    let mut acc: Vec<SvgDraw> = Vec::new();
    let mut q: usize = 0;
    loop
        invariant
            cs@ == input@,
            q <= cs.len(),
            draws_from(cs@, 0) == after(draws_view(acc@), draws_from(cs@, q as int)),
        ensures
            draws_from(cs@, 0) == ParseOut::Done(draws_view(acc@), q as int),
        decreases cs.len() - q,
    {
        let ghost before = draws_view(acc@);
        match variant_exec(&cs, q) {
            Parsed::Fatal => {
                return None;
            },
            Parsed::Fail => {
                assert(draws_view(acc@) + Seq::<SvgDrawView>::empty() =~= draws_view(acc@));
                break ;
            },
            Parsed::Done(v, n) => {
                if !(q < n && n <= cs.len()) {
                    return None;
                }
                let ghost vv = draws_view(v@);
                let mut v = v;
                acc.append(&mut v);
                proof {
                    assert(draws_view(acc@) =~= before + vv);
                    match draws_from(cs@, n as int) {
                        ParseOut::Done(rest, m) => {
                            assert(before + (vv + rest) =~= before + vv + rest);
                        },
                        _ => {},
                    }
                }
                q = n;
            },
        }
    }
    if acc.len() == 0 {
        None
    } else {
        let rest = string_of_range(&cs, q, cs.len());
        Some((rest, acc))
    }
}


// ---------------------------------------------------------------------------
// Line indices of a layer's commands
// ---------------------------------------------------------------------------

/// The state after a run of commands: the index of the current vertex, the index
/// of the vertex the current path started at, and the line indices so far.
/// A move starts a path at the current vertex; a line, horizontal or vertical
/// command adds a vertex and a segment from the current one to it; the end of a
/// path steps past its last vertex; closing a path adds a segment back to its start.
pub open spec fn line_index_state(cmds: Seq<SvgDrawView>) -> (nat, nat, Seq<nat>)
    decreases cmds.len(),
{
    if cmds.len() == 0 {
        (0, 0, Seq::empty())
    } else {
        let (index, start, ix) = line_index_state(cmds.drop_last());
        match cmds.last() {
            SvgDrawView::MoveTo(_, _, _) => (index, index, ix),
            SvgDrawView::LineTo(_, _, _) => (index + 1, start, ix + seq![index, index + 1]),
            SvgDrawView::HorizontalTo(_, _) => (index + 1, start, ix + seq![index, index + 1]),
            SvgDrawView::VerticalTo(_, _) => (index + 1, start, ix + seq![index, index + 1]),
            SvgDrawView::EndPath => (index + 1, start, ix),
            SvgDrawView::ClosePath => (index, start, ix + seq![index, start]),
        }
    }
}

proof fn lemma_line_index_bounds(cmds: Seq<SvgDrawView>)
    ensures
        line_index_state(cmds).0 <= cmds.len(),
        line_index_state(cmds).1 <= line_index_state(cmds).0,
        line_index_state(cmds).2.len() % 2 == 0,
        line_index_state(cmds).2.len() <= 2 * cmds.len(),
        forall|k: int|
            0 <= k < line_index_state(cmds).2.len() ==> #[trigger] line_index_state(cmds).2[k]
                <= cmds.len(),
    decreases cmds.len(),
{
    if cmds.len() > 0 {
        lemma_line_index_bounds(cmds.drop_last());
    }
}

/// The line list indices of a layer's commands, segment by segment, as
/// [`line_index_state`] gives them
pub fn svg_line_indices(commands: &Vec<SvgDraw>) -> (res: Vec<usize>)
    ensures
        res@.map_values(|i: usize| i as nat) == line_index_state(draws_view(commands@)).2,
        res@.len() % 2 == 0,
{
    let mut indices: Vec<usize> = Vec::new();
    let mut index: usize = 0;
    let mut start_index: usize = 0;
    let mut i: usize = 0;
    while i < commands.len()
        invariant
            i <= commands.len(),
            ({
                let st = line_index_state(draws_view(commands@).take(i as int));
                &&& index as nat == st.0
                &&& start_index as nat == st.1
                &&& indices@.map_values(|k: usize| k as nat) == st.2
            }),
        decreases commands.len() - i,
    {
        let ghost pre = draws_view(commands@).take(i as int);
        let ghost next = draws_view(commands@).take(i + 1);
        proof {
            assert(next.drop_last() =~= pre);
            assert(next.last() == commands@[i as int]@);
            lemma_line_index_bounds(pre);
        }
        let ghost old_ix = indices@;
        match &commands[i] {
            SvgDraw::MoveTo(_, _, _) => {
                start_index = index;
            },
            SvgDraw::LineTo(_, _, _) | SvgDraw::HorizontalTo(_, _) | SvgDraw::VerticalTo(_, _) => {
                indices.push(index);
                index = index + 1;
                indices.push(index);
                proof {
                    assert(indices@.map_values(|k: usize| k as nat) =~= old_ix.map_values(
                        |k: usize| k as nat,
                    ) + seq![(index - 1) as nat, index as nat]);
                }
            },
            SvgDraw::EndPath => {
                index = index + 1;
            },
            SvgDraw::ClosePath => {
                indices.push(index);
                indices.push(start_index);
                proof {
                    assert(indices@.map_values(|k: usize| k as nat) =~= old_ix.map_values(
                        |k: usize| k as nat,
                    ) + seq![index as nat, start_index as nat]);
                }
            },
        }
        i += 1;
    }
    proof {
        assert(draws_view(commands@).take(commands@.len() as int) =~= draws_view(commands@));
        lemma_line_index_bounds(draws_view(commands@));
        assert(indices@.map_values(|k: usize| k as nat).len() == indices@.len());
    }
    indices
}


/// Two drawings drawn one after the other, the second starting with a move: the
/// line indices of the whole are those of the first followed by those of the
/// second, shifted past the first's vertices; the vertex index adds up the same way.
pub proof fn lemma_line_indices_concat(a: Seq<SvgDrawView>, b: Seq<SvgDrawView>)
    requires
        b.len() > 0,
        b[0] is MoveTo,
    ensures
        line_index_state(a + b).0 == line_index_state(a).0 + line_index_state(b).0,
        line_index_state(a + b).1 == line_index_state(a).0 + line_index_state(b).1,
        line_index_state(a + b).2 == line_index_state(a).2 + line_index_state(b).2.map_values(
            |i: nat| i + line_index_state(a).0,
        ),
    decreases b.len(),
{
    let ia = line_index_state(a).0;
    let sb = line_index_state(b);
    if b.len() == 1 {
        assert((a + b).drop_last() =~= a);
        assert(b.drop_last() =~= Seq::<SvgDrawView>::empty());
        assert(line_index_state(b.drop_last()) == (0nat, 0nat, Seq::<nat>::empty()));
        assert(b.last() == b[0]);
        assert(sb.2 =~= Seq::<nat>::empty());
        assert(line_index_state(a).2 + sb.2.map_values(|i: nat| i + ia) =~= line_index_state(a).2);
    } else {
        let b1 = b.drop_last();
        assert((a + b).drop_last() =~= a + b1);
        assert(b1[0] == b[0]);
        lemma_line_indices_concat(a, b1);
        let s1 = line_index_state(b1);
        let f = |i: nat| i + ia;
        assert((a + b).last() == b.last());
        match b.last() {
            SvgDrawView::LineTo(_, _, _) | SvgDrawView::HorizontalTo(_, _) | SvgDrawView::VerticalTo(
                _,
                _,
            ) => {
                assert((s1.2 + seq![s1.0, s1.0 + 1]).map_values(f) =~= s1.2.map_values(f) + seq![
                    s1.0 + ia,
                    s1.0 + 1 + ia,
                ]);
                assert(line_index_state(a).2 + s1.2.map_values(f) + seq![(s1.0 + ia) as nat, (s1.0 + ia + 1) as nat]
                    =~= line_index_state(a).2 + (s1.2 + seq![s1.0, s1.0 + 1]).map_values(f));
            },
            SvgDrawView::ClosePath => {
                assert((s1.2 + seq![s1.0, s1.1]).map_values(f) =~= s1.2.map_values(f) + seq![
                    s1.0 + ia,
                    s1.1 + ia,
                ]);
                assert(line_index_state(a).2 + s1.2.map_values(f) + seq![(s1.0 + ia) as nat, (s1.1 + ia) as nat]
                    =~= line_index_state(a).2 + (s1.2 + seq![s1.0, s1.1]).map_values(f));
            },
            _ => {},
        }
    }
}

/// The number of vertices a run of commands places: one for each move, line,
/// horizontal or vertical command
pub open spec fn vertex_count(cmds: Seq<SvgDrawView>) -> nat
    decreases cmds.len(),
{
    if cmds.len() == 0 {
        0
    } else {
        vertex_count(cmds.drop_last()) + match cmds.last() {
            SvgDrawView::MoveTo(_, _, _) => 1nat,
            SvgDrawView::LineTo(_, _, _) => 1nat,
            SvgDrawView::HorizontalTo(_, _) => 1nat,
            SvgDrawView::VerticalTo(_, _) => 1nat,
            _ => 0nat,
        }
    }
}

/// The commands are whole paths, one after another: each starts with a move, goes
/// on with lines, horizontal, vertical and closing commands, and ends with the end
/// of the path
pub open spec fn well_formed_paths(cmds: Seq<SvgDrawView>) -> bool {
    &&& cmds.len() > 0 ==> cmds[0] is MoveTo && cmds.last() is EndPath
    &&& forall|i: int|
        0 < i < cmds.len() ==> (#[trigger] cmds[i] is MoveTo <==> cmds[i - 1] is EndPath)
}

/// Along whole paths, the vertex index runs one ahead of the vertices placed while
/// a path is open, and equals their number between paths
proof fn lemma_index_tracks_vertices(cmds: Seq<SvgDrawView>, n: int)
    requires
        well_formed_paths(cmds),
        0 <= n <= cmds.len(),
    ensures
        vertex_count(cmds.take(n)) == line_index_state(cmds.take(n)).0 + (if n > 0 && cmds[n
            - 1] !is EndPath {
            1int
        } else {
            0int
        }),
    decreases n,
{
    if n > 0 {
        lemma_index_tracks_vertices(cmds, n - 1);
        assert(cmds.take(n).drop_last() =~= cmds.take(n - 1));
        assert(cmds.take(n).last() == cmds[n - 1]);
        if n > 1 {
            assert(cmds[n - 1] is MoveTo <==> cmds[n - 2] is EndPath);
        }
    }
}

/// Whole paths place as many vertices as the vertex index has counted
pub proof fn lemma_paths_index_is_vertex_count(cmds: Seq<SvgDrawView>)
    requires
        well_formed_paths(cmds),
    ensures
        line_index_state(cmds).0 == vertex_count(cmds),
{
    lemma_index_tracks_vertices(cmds, cmds.len() as int);
    assert(cmds.take(cmds.len() as int) =~= cmds);
}

/// Vertices placed by two runs of commands, one after the other, add up
pub proof fn lemma_vertex_count_concat(a: Seq<SvgDrawView>, b: Seq<SvgDrawView>)
    ensures
        vertex_count(a + b) == vertex_count(a) + vertex_count(b),
    decreases b.len(),
{
    if b.len() == 0 {
        assert(a + b =~= a);
    } else {
        assert((a + b).drop_last() =~= a + b.drop_last());
        assert((a + b).last() == b.last());
        lemma_vertex_count_concat(a, b.drop_last());
    }
}

/// Each path of a layer is drawn on its own: the mesh of two runs of whole paths
/// drawn one after the other is made of the first's vertices followed by the
/// second's, and of the first's line indices followed by the second's, shifted past
/// the first's vertices. The whole is again a run of whole paths.
pub proof fn lemma_mesh_indices_concat(a: Seq<SvgDrawView>, b: Seq<SvgDrawView>)
    requires
        well_formed_paths(a),
        well_formed_paths(b),
    ensures
        well_formed_paths(a + b),
        vertex_count(a + b) == vertex_count(a) + vertex_count(b),
        line_index_state(a + b).2 == line_index_state(a).2 + line_index_state(b).2.map_values(
            |i: nat| i + vertex_count(a),
        ),
{
    lemma_vertex_count_concat(a, b);
    lemma_paths_index_is_vertex_count(a);
    if b.len() == 0 {
        assert(a + b =~= a);
        assert(line_index_state(b).2 =~= Seq::<nat>::empty());
        assert(line_index_state(a).2 + line_index_state(b).2.map_values(
            |i: nat| i + vertex_count(a),
        ) =~= line_index_state(a).2);
    } else {
        lemma_line_indices_concat(a, b);
        let c = a + b;
        assert forall|i: int| 0 < i < c.len() implies (#[trigger] c[i] is MoveTo <==> c[i
            - 1] is EndPath) by {
            if i < a.len() {
                assert(c[i] == a[i] && c[i - 1] == a[i - 1]);
            } else if i == a.len() {
                assert(c[i] == b[0] && c[i - 1] == a.last());
            } else {
                assert(c[i] == b[i - a.len()] && c[i - 1] == b[i - 1 - a.len()]);
            }
        }
        if a.len() > 0 {
            assert(c[0] == a[0]);
        } else {
            assert(c =~= b);
        }
        assert(c.last() == b.last());
    }
}

/// The segments of a polygon of `n` sides drawn from vertex 0: `0 1`, `1 2`, …,
/// `n-1 n`, then `n 0` back to the start
pub open spec fn closed_polygon(n: nat) -> Seq<nat> {
    Seq::new(
        2 * n + 2,
        |j: int|
            if j < 2 * n {
                ((j + 1) / 2) as nat
            } else if j == 2 * n {
                n
            } else {
                0nat
            },
    )
}

pub open spec fn is_line_command(d: SvgDrawView) -> bool {
    d is LineTo || d is HorizontalTo || d is VerticalTo
}

proof fn lemma_open_polyline(m: SvgDrawView, lines: Seq<SvgDrawView>, k: int)
    requires
        m is MoveTo,
        forall|i: int| 0 <= i < lines.len() ==> is_line_command(#[trigger] lines[i]),
        0 <= k <= lines.len(),
    ensures
        line_index_state(seq![m] + lines.take(k)) == (k as nat, 0nat, Seq::new(
            (2 * k) as nat,
            |j: int| ((j + 1) / 2) as nat,
        )),
    decreases k,
{
    if k == 0 {
        assert(seq![m] + lines.take(0) =~= seq![m]);
        assert(seq![m].drop_last() =~= Seq::<SvgDrawView>::empty());
        assert(seq![m].last() == m);
        assert(line_index_state(Seq::<SvgDrawView>::empty()) == (0nat, 0nat, Seq::<nat>::empty()));
        assert(Seq::new(0, |j: int| ((j + 1) / 2) as nat) =~= Seq::<nat>::empty());
    } else {
        lemma_open_polyline(m, lines, k - 1);
        let s = seq![m] + lines.take(k);
        assert(s.drop_last() =~= seq![m] + lines.take(k - 1));
        assert(s.last() == lines[k - 1]);
        assert(is_line_command(lines[k - 1]));
        let prev = Seq::new((2 * (k - 1)) as nat, |j: int| ((j + 1) / 2) as nat);
        assert(prev + seq![(k - 1) as nat, k as nat] =~= Seq::new(
            (2 * k) as nat,
            |j: int| ((j + 1) / 2) as nat,
        ));
        assert(line_index_state(s) == (k as nat, 0nat, prev + seq![(k - 1) as nat, k as nat]));
    }
}

/// A path that moves, draws `n` lines (straight, horizontal or vertical) and closes
/// draws the segments from each vertex to the next, `0 1`, …, `n-1 n`, and the
/// segment `n 0` back to where it started
pub proof fn lemma_closed_path_segments(m: SvgDrawView, lines: Seq<SvgDrawView>)
    requires
        m is MoveTo,
        forall|i: int| 0 <= i < lines.len() ==> is_line_command(#[trigger] lines[i]),
    ensures
        line_index_state(seq![m] + lines + seq![SvgDrawView::ClosePath]).2 == closed_polygon(
            lines.len(),
        ),
{
    let n = lines.len() as int;
    lemma_open_polyline(m, lines, n);
    assert(lines.take(n) =~= lines);
    let s = seq![m] + lines + seq![SvgDrawView::ClosePath];
    assert(s.drop_last() =~= seq![m] + lines);
    let open = Seq::new((2 * n) as nat, |j: int| ((j + 1) / 2) as nat);
    assert(open + seq![n as nat, 0nat] =~= closed_polygon(lines.len()));
}

} // verus!
