//! Turning the lines of a page into an output model: indented lines made of
//! toned pieces of text, or blank lines.

use vstd::prelude::*;
use crate::text::{
    split_on, replace_all, pieces_view, chars_of, string_of, split, replace, copy_range,
};
use crate::highlight::{Delimiters, spans_view, highlight_spec, highlight_chars};
use crate::classify::{Role, role_of, is_space, is_space_char, classify_chars};

verus! {

/// Which style a piece of an output line takes.
#[derive(Clone, Copy, PartialEq, Eq, Debug)]
pub enum Tone {
    /// The style of the line's own role.
    Base,
    Url,
    Code,
    Placeholder,
}

/// A run of text of one tone.
pub struct Piece {
    pub text: String,
    pub tone: Tone,
}

impl View for Piece {
    type V = (Tone, Seq<char>);

    open spec fn view(&self) -> (Tone, Seq<char>) {
        (self.tone, self.text@)
    }
}

pub open spec fn tones_view(v: Seq<Piece>) -> Seq<(Tone, Seq<char>)> {
    v.map_values(|p: Piece| p@)
}

/// One line of output: its role, its indentation and its pieces. A blank
/// line has the role `Blank`, no indentation and no pieces.
pub struct OutLine {
    pub role: Role,
    pub indent: usize,
    pub pieces: Vec<Piece>,
}

pub type LineView = (Role, usize, Seq<(Tone, Seq<char>)>);

impl View for OutLine {
    type V = LineView;

    open spec fn view(&self) -> LineView {
        (self.role, self.indent, tones_view(self.pieces@))
    }
}

pub open spec fn lines_view(v: Seq<OutLine>) -> Seq<LineView> {
    v.map_values(|l: OutLine| l@)
}

/// Layout choices for one rendering.
pub struct RenderOptions {
    /// Whether the title line is written at all.
    pub show_title: bool,
    /// Whether blank lines are left out.
    pub compact: bool,
    /// Whether the title is preceded by `<platform>/` when a platform is known.
    pub platform_title: bool,
    /// Whether a bullet keeps a leading marker, `example_prefix`.
    pub show_hyphens: bool,
    pub example_prefix: String,
    /// The platform the page belongs to, if known.
    pub platform: Option<String>,
    pub indent_title: usize,
    pub indent_description: usize,
    pub indent_bullet: usize,
    pub indent_example: usize,
}

/// Why a page was refused.
#[derive(Clone, Copy, PartialEq, Eq, Debug)]
pub enum ParseErrorKind {
    /// A non-blank line starts with none of `# `, `> `, `- ` or a backtick.
    UnknownLeadingToken,
    /// An example line does not end with a backtick.
    MissingClosingBacktick,
}

/// A line of a page that breaks its grammar.
pub struct ParseError {
    pub path: String,
    /// 1-based.
    pub line_number: usize,
    pub line: String,
    pub kind: ParseErrorKind,
}

impl ParseError {
    /// What the page grammar asks of the refused line.
    pub fn hint(&self) -> (r: &'static str)
        ensures
            self.kind is UnknownLeadingToken ==> r@
                == "Every non-empty line must begin with either '# ', '> ', '- ' or '`'."@,
            self.kind is MissingClosingBacktick ==> r@
                == "Every line with an example must end with a backtick '`'."@,
    {
        match self.kind {
            ParseErrorKind::UnknownLeadingToken => "Every non-empty line must begin with either '# ', '> ', '- ' or '`'.",
            ParseErrorKind::MissingClosingBacktick => "Every line with an example must end with a backtick '`'.",
        }
    }
}

pub open spec fn blank_line() -> LineView {
    (Role::Blank, 0, Seq::empty())
}

/// The blank line that separates sections, unless output is compact.
pub open spec fn spacing(o: RenderOptions) -> Seq<LineView> {
    if o.compact {
        Seq::empty()
    } else {
        seq![blank_line()]
    }
}

pub open spec fn title_text(o: RenderOptions, body: Seq<char>) -> Seq<char> {
    if o.platform_title && o.platform is Some {
        o.platform->0@ + seq!['/'] + body
    } else {
        body
    }
}

pub open spec fn bullet_text(o: RenderOptions, s: Seq<char>) -> Seq<char> {
    if o.show_hyphens {
        o.example_prefix@ + s.skip(2)
    } else {
        s.skip(2)
    }
}

/// `t` without trailing whitespace.
pub open spec fn trim_end(t: Seq<char>) -> Seq<char>
    decreases t.len(),
{
    if t.len() > 0 && is_space(t.last()) {
        trim_end(t.drop_last())
    } else {
        t
    }
}

/// The text between the backticks of an example line, if it ends with one.
pub open spec fn example_body(s: Seq<char>) -> Option<Seq<char>> {
    let t = trim_end(s.skip(1));
    if t.len() > 0 && t.last() == '`' {
        Some(t.drop_last())
    } else {
        None
    }
}

pub open spec fn esc_open() -> Seq<char> {
    seq!['\\', '{', '\\', '{']
}

pub open spec fn esc_close() -> Seq<char> {
    seq!['\\', '}', '\\', '}']
}

pub open spec fn padded(e: Seq<char>) -> Seq<char> {
    seq![' '] + e + seq![' ']
}

/// Escaped braces set apart by spaces, so that they cannot form `{{` or `}}`
/// with their neighbours.
pub open spec fn pad(t: Seq<char>) -> Seq<char> {
    replace_all(replace_all(t, esc_open(), padded(esc_open())), esc_close(), padded(esc_close()))
}

/// The spaces that `pad` put around escaped braces taken away again.
pub open spec fn unpad(t: Seq<char>) -> Seq<char> {
    replace_all(replace_all(t, padded(esc_open()), esc_open()), padded(esc_close()), esc_close())
}

/// The pieces of an example's text: placeholders, with escaped braces kept
/// out of the delimiting.
pub open spec fn example_pieces(b: Seq<char>) -> Seq<(Tone, Seq<char>)> {
    let hs = highlight_spec(Delimiters::Placeholder, pad(b));
    Seq::new(
        hs.len(),
        |k: int| (if hs[k].0 { Tone::Placeholder } else { Tone::Base }, unpad(hs[k].1)),
    )
}

pub open spec fn tone_of(code: bool, url: bool) -> Tone {
    if code {
        Tone::Code
    } else if url {
        Tone::Url
    } else {
        Tone::Base
    }
}

/// The pieces of one link-pass segment cut at backticks; `odd` says whether
/// an odd number of backticks came before it on the line.
pub open spec fn tone_pieces(ps: Seq<Seq<char>>, odd: bool, url: bool) -> Seq<(Tone, Seq<char>)> {
    Seq::new(ps.len(), |k: int| (tone_of((k % 2 == 1) != odd, url), ps[k]))
}

/// Inline code delimited over the segments of the link pass, from segment `k`
/// on: a backtick count that is odd so far marks code.
pub open spec fn code_pass_from(segs: Seq<(bool, Seq<char>)>, k: int, odd: bool) -> Seq<
    (Tone, Seq<char>),
>
    decreases segs.len() - k,
{
    if k < 0 || k >= segs.len() {
        Seq::empty()
    } else {
        let ps = split_on(segs[k].1, seq!['`']);
        tone_pieces(ps, odd, segs[k].0) + code_pass_from(
            segs,
            k + 1,
            odd != ((ps.len() - 1) % 2 == 1),
        )
    }
}

/// Links first, then inline code: the pieces of a description or bullet.
pub open spec fn prose_pieces(t: Seq<char>) -> Seq<(Tone, Seq<char>)> {
    code_pass_from(highlight_spec(Delimiters::Url, t), 0, false)
}

/// The output of one line, or why it is refused.
pub open spec fn line_spec(o: RenderOptions, s: Seq<char>) -> Result<Seq<LineView>, ParseErrorKind> {
    match role_of(s) {
        Role::Title => Ok(
            if o.show_title {
                spacing(o) + seq![
                    (Role::Title, o.indent_title, seq![(Tone::Base, title_text(o, s.skip(2)))]),
                ]
            } else {
                Seq::empty()
            },
        ),
        Role::Description => Ok(
            seq![(Role::Description, o.indent_description, prose_pieces(s.skip(2)))],
        ),
        Role::Bullet => Ok(seq![(Role::Bullet, o.indent_bullet, prose_pieces(bullet_text(o, s)))]),
        Role::Example => match example_body(s) {
            Some(b) => Ok(seq![(Role::Example, o.indent_example, example_pieces(b))]),
            None => Err(ParseErrorKind::MissingClosingBacktick),
        },
        Role::Blank => Ok(spacing(o)),
        Role::Invalid => Err(ParseErrorKind::UnknownLeadingToken),
    }
}

fn push_piece(out: &mut Vec<Piece>, tone: Tone, text: &Vec<char>)
    ensures
        tones_view(final(out)@) == tones_view(old(out)@).push((tone, text@)),
{
    let ghost before = tones_view(out@);
    let p = Piece { text: string_of(text), tone };
    out.push(p);
    assert(tones_view(out@) =~= before.push((tone, text@)));
}

fn tone_pieces_into(ps: &Vec<Vec<char>>, odd: bool, url: bool, out: &mut Vec<Piece>)
    ensures
        tones_view(final(out)@) == tones_view(old(out)@) + tone_pieces(pieces_view(ps@), odd, url),
{
    let ghost before = tones_view(out@);
    let ghost tp = tone_pieces(pieces_view(ps@), odd, url);
    let mut k: usize = 0;
    while k < ps.len()
        invariant
            k <= ps.len(),
            tp == tone_pieces(pieces_view(ps@), odd, url),
            tones_view(out@) == before + tp.take(k as int),
        decreases ps.len() - k,
    {
        let code = (k % 2 == 1) != odd;
        let tone = if code {
            Tone::Code
        } else if url {
            Tone::Url
        } else {
            Tone::Base
        };
        push_piece(out, tone, &ps[k]);
        assert(tp.take(k + 1) =~= tp.take(k as int).push(tp[k as int]));
        k = k + 1;
    }
    assert(tp.take(ps.len() as int) =~= tp);
}

fn prose_pieces_exec(t: &Vec<char>) -> (r: Vec<Piece>)
    ensures
        tones_view(r@) == prose_pieces(t@),
{
    let segs = highlight_chars(Delimiters::Url, t);
    let ghost sv = spans_view(segs@);
    let mut tick: Vec<char> = Vec::new();
    tick.push('`');
    assert(tick@ =~= seq!['`']);
    let mut out: Vec<Piece> = Vec::new();
    let mut odd = false;
    let mut k: usize = 0;
    while k < segs.len()
        invariant
            k <= segs.len(),
            sv == spans_view(segs@),
            tick@ == seq!['`'],
            tones_view(out@) + code_pass_from(sv, k as int, odd) == code_pass_from(sv, 0, false),
        decreases segs.len() - k,
    {
        let ghost before = tones_view(out@);
        let ps = split(&segs[k].text, &tick);
        assert(sv[k as int] == segs@[k as int]@);
        tone_pieces_into(&ps, odd, segs[k].highlighted, &mut out);
        let flip = (ps.len() - 1) % 2 == 1;
        odd = odd != flip;
        k = k + 1;
        assert(tones_view(out@) + code_pass_from(sv, k as int, odd) =~= before + code_pass_from(
            sv,
            k - 1,
            odd != flip,
        ));
    }
    out
}

fn trim_end_exec(t: &Vec<char>) -> (r: Vec<char>)
    ensures
        r@ == trim_end(t@),
{
    let mut e: usize = t.len();
    assert(t@.take(t.len() as int) =~= t@);
    while e > 0 && is_space_char(t[e - 1])
        invariant
            e <= t.len(),
            trim_end(t@.take(e as int)) == trim_end(t@),
        decreases e,
    {
        assert(t@.take(e as int).drop_last() =~= t@.take(e - 1));
        e = e - 1;
    }
    copy_range(t, 0, e)
}

fn escape_token(close: bool, spaced: bool) -> (r: Vec<char>)
    ensures
        r@ == if close {
            if spaced { padded(esc_close()) } else { esc_close() }
        } else {
            if spaced { padded(esc_open()) } else { esc_open() }
        },
{
    let brace = if close { '}' } else { '{' };
    let mut r: Vec<char> = Vec::new();
    if spaced {
        r.push(' ');
    }
    r.push('\\');
    r.push(brace);
    r.push('\\');
    r.push(brace);
    if spaced {
        r.push(' ');
    }
    assert(r@ =~= if close {
        if spaced { padded(esc_close()) } else { esc_close() }
    } else {
        if spaced { padded(esc_open()) } else { esc_open() }
    });
    r
}

fn example_pieces_exec(b: &Vec<char>) -> (r: Vec<Piece>)
    ensures
        tones_view(r@) == example_pieces(b@),
{
    let open = escape_token(false, false);
    let open_sp = escape_token(false, true);
    let close = escape_token(true, false);
    let close_sp = escape_token(true, true);
    let p = replace(&replace(b, &open, &open_sp), &close, &close_sp);
    let hs = highlight_chars(Delimiters::Placeholder, &p);
    let ghost hv = spans_view(hs@);
    let ghost ep = example_pieces(b@);
    let mut out: Vec<Piece> = Vec::new();
    let mut k: usize = 0;
    while k < hs.len()
        invariant
            k <= hs.len(),
            hv == spans_view(hs@),
            hv == highlight_spec(Delimiters::Placeholder, pad(b@)),
            ep == example_pieces(b@),
            open@ == esc_open(),
            close@ == esc_close(),
            open_sp@ == padded(esc_open()),
            close_sp@ == padded(esc_close()),
            tones_view(out@) == ep.take(k as int),
        decreases hs.len() - k,
    {
        assert(hv[k as int] == hs@[k as int]@);
        let text = replace(&replace(&hs[k].text, &open_sp, &open), &close_sp, &close);
        let tone = if hs[k].highlighted {
            Tone::Placeholder
        } else {
            Tone::Base
        };
        push_piece(&mut out, tone, &text);
        assert(ep.take(k + 1) =~= ep.take(k as int).push(ep[k as int]));
        k = k + 1;
    }
    assert(ep.take(hs.len() as int) =~= ep);
    out
}

fn one_line(pieces: Vec<Piece>, role: Role, indent: usize) -> (r: Vec<OutLine>)
    ensures
        lines_view(r@) == seq![(role, indent, tones_view(pieces@))],
{
    let mut r: Vec<OutLine> = Vec::new();
    let l = OutLine { role, indent, pieces };
    r.push(l);
    assert(lines_view(r@) =~= seq![l@]);
    r
}

fn spacing_exec(o: &RenderOptions) -> (r: Vec<OutLine>)
    ensures
        lines_view(r@) == spacing(*o),
{
    let mut r: Vec<OutLine> = Vec::new();
    if !o.compact {
        let l = OutLine { role: Role::Blank, indent: 0, pieces: Vec::new() };
        r.push(l);
        assert(tones_view(l.pieces@) =~= Seq::empty());
        assert(lines_view(r@) =~= seq![blank_line()]);
    } else {
        assert(lines_view(r@) =~= Seq::empty());
    }
    r
}

fn render_line(o: &RenderOptions, v: &Vec<char>) -> (r: Result<Vec<OutLine>, ParseErrorKind>)
    ensures
        match r {
            Ok(ls) => line_spec(*o, v@) == Ok::<Seq<LineView>, ParseErrorKind>(lines_view(ls@)),
            Err(e) => line_spec(*o, v@) == Err::<Seq<LineView>, ParseErrorKind>(e),
        },
{
    let role = classify_chars(v);
    match role {
        Role::Title => {
            if !o.show_title {
                let r: Vec<OutLine> = Vec::new();
                assert(lines_view(r@) =~= Seq::empty());
                return Ok(r);
            }
            let mut body = copy_range(v, 2, v.len());
            let mut text: Vec<char> = Vec::new();
            if o.platform_title {
                match &o.platform {
                    Some(p) => {
                        text = chars_of(p.as_str());
                        text.push('/');
                    },
                    None => {},
                }
            }
            text.append(&mut body);
            assert(text@ =~= title_text(*o, v@.skip(2)));
            let mut pieces: Vec<Piece> = Vec::new();
            assert(tones_view(pieces@) =~= Seq::empty());
            push_piece(&mut pieces, Tone::Base, &text);
            assert(tones_view(pieces@) =~= seq![(Tone::Base, title_text(*o, v@.skip(2)))]);
            let mut out = spacing_exec(o);
            let mut line = one_line(pieces, Role::Title, o.indent_title);
            let ghost a = lines_view(out@);
            let ghost b = lines_view(line@);
            out.append(&mut line);
            assert(lines_view(out@) =~= a + b);
            assert(line_spec(*o, v@) == Ok::<Seq<LineView>, ParseErrorKind>(lines_view(out@)));
            Ok(out)
        },
        Role::Description => {
            let body = copy_range(v, 2, v.len());
            assert(body@ =~= v@.skip(2));
            let r = one_line(prose_pieces_exec(&body), Role::Description, o.indent_description);
            assert(line_spec(*o, v@) == Ok::<Seq<LineView>, ParseErrorKind>(lines_view(r@)));
            Ok(r)
        },
        Role::Bullet => {
            let mut body = copy_range(v, 2, v.len());
            let mut text: Vec<char> = Vec::new();
            if o.show_hyphens {
                text = chars_of(o.example_prefix.as_str());
            }
            text.append(&mut body);
            assert(text@ =~= bullet_text(*o, v@));
            let r = one_line(prose_pieces_exec(&text), Role::Bullet, o.indent_bullet);
            assert(line_spec(*o, v@) == Ok::<Seq<LineView>, ParseErrorKind>(lines_view(r@)));
            Ok(r)
        },
        Role::Example => {
            let t = trim_end_exec(&copy_range(v, 1, v.len()));
            assert(v@.subrange(1, v@.len() as int) =~= v@.skip(1));
            if t.len() > 0 && t[t.len() - 1] == '`' {
                let b = copy_range(&t, 0, t.len() - 1);
                assert(b@ =~= t@.drop_last());
                let r = one_line(example_pieces_exec(&b), Role::Example, o.indent_example);
                assert(line_spec(*o, v@) == Ok::<Seq<LineView>, ParseErrorKind>(lines_view(r@)));
                Ok(r)
            } else {
                Err(ParseErrorKind::MissingClosingBacktick)
            }
        },
        Role::Blank => Ok(spacing_exec(o)),
        Role::Invalid => Err(ParseErrorKind::UnknownLeadingToken),
    }
}

/// The lines of a document: the pieces between line feeds, without an empty
/// piece after a final line feed.
pub open spec fn doc_lines(doc: Seq<char>) -> Seq<Seq<char>> {
    let ps = split_on(doc, seq!['\n']);
    if ps.len() > 0 && ps.last().len() == 0 {
        ps.drop_last()
    } else {
        ps
    }
}

/// Output of the lines from index `k` on, with the closing spacing; or the
/// 1-based number of the first refused line and why.
pub open spec fn render_from(o: RenderOptions, lines: Seq<Seq<char>>, k: int) -> Result<
    Seq<LineView>,
    (int, ParseErrorKind),
>
    decreases lines.len() - k,
{
    if k < 0 || k >= lines.len() {
        Ok(spacing(o))
    } else {
        match line_spec(o, lines[k]) {
            Err(e) => Err((k + 1, e)),
            Ok(out) => match render_from(o, lines, k + 1) {
                Ok(rest) => Ok(out + rest),
                Err(e) => Err(e),
            },
        }
    }
}

/// The output of a whole document, or its first refused line.
pub open spec fn render_spec(o: RenderOptions, doc: Seq<char>) -> Result<
    Seq<LineView>,
    (int, ParseErrorKind),
> {
    render_from(o, doc_lines(doc), 0)
}

pub open spec fn prepend(a: Seq<LineView>, r: Result<Seq<LineView>, (int, ParseErrorKind)>) -> Result<
    Seq<LineView>,
    (int, ParseErrorKind),
> {
    match r {
        Ok(x) => Ok(a + x),
        Err(e) => Err(e),
    }
}

fn document_lines(v: &Vec<char>) -> (r: Vec<Vec<char>>)
    ensures
        pieces_view(r@) == doc_lines(v@),
{
    let mut lf: Vec<char> = Vec::new();
    lf.push('\n');
    assert(lf@ =~= seq!['\n']);
    let mut ps = split(v, &lf);
    let n = ps.len();
    if ps[n - 1].len() == 0 {
        let ghost before = pieces_view(ps@);
        ps.pop();
        assert(pieces_view(ps@) =~= before.drop_last());
    }
    ps
}

/// Renders the page `doc`, read from `path`, into output lines; stops at the
/// first line that breaks the page grammar.
pub fn render_page(o: &RenderOptions, path: &str, doc: &str) -> (r: Result<Vec<OutLine>, ParseError>)
    ensures
        match r {
            Ok(out) => render_spec(*o, doc@) == Ok::<Seq<LineView>, (int, ParseErrorKind)>(
                lines_view(out@),
            ),
            Err(e) => {
                &&& render_spec(*o, doc@) == Err::<Seq<LineView>, (int, ParseErrorKind)>(
                    (e.line_number as int, e.kind),
                )
                &&& 1 <= e.line_number <= doc_lines(doc@).len()
                &&& e.line@ == doc_lines(doc@)[e.line_number - 1]
                &&& e.path@ == path@
            },
        },
{
    let v = chars_of(doc);
    let lines = document_lines(&v);
    let ghost lv = pieces_view(lines@);
    let mut out: Vec<OutLine> = Vec::new();
    let mut k: usize = 0;
    while k < lines.len()
        invariant
            k <= lines.len(),
            lv == pieces_view(lines@),
            lv == doc_lines(doc@),
            prepend(lines_view(out@), render_from(*o, lv, k as int)) == render_from(*o, lv, 0),
        decreases lines.len() - k,
    {
        assert(lv[k as int] == lines@[k as int]@);
        match render_line(o, &lines[k]) {
            Ok(mut ls) => {
                let ghost a = lines_view(out@);
                let ghost b = lines_view(ls@);
                out.append(&mut ls);
                assert(lines_view(out@) =~= a + b);
                k = k + 1;
                assert(prepend(lines_view(out@), render_from(*o, lv, k as int)) =~= prepend(
                    a,
                    render_from(*o, lv, k - 1),
                )) by {
                    match render_from(*o, lv, k as int) {
                        Ok(x) => {
                            assert(a + b + x =~= a + (b + x));
                        },
                        Err(_) => {},
                    }
                }
            },
            Err(kind) => {
                let e = ParseError {
                    path: string_of(&chars_of(path)),
                    line_number: k + 1,
                    line: string_of(&lines[k]),
                    kind,
                };
                return Err(e);
            },
        }
    }
    let mut tail = spacing_exec(o);
    let ghost a = lines_view(out@);
    let ghost b = lines_view(tail@);
    out.append(&mut tail);
    assert(lines_view(out@) =~= a + b);
    Ok(out)
}

} // verus!
