//! Painting the output model with ANSI styles.

use vstd::prelude::*;
use crate::classify::Role;
use crate::render::{Tone, OutLine, LineView, tones_view, lines_view};

verus! {

#[verifier::external_type_specification]
#[verifier::external_body]
pub struct ExStyle(yansi::Style);

/// One style for each role of a line and each kind of inline span.
pub struct RenderStyles {
    pub title: yansi::Style,
    pub description: yansi::Style,
    pub bullet: yansi::Style,
    pub example: yansi::Style,
    pub url: yansi::Style,
    pub inline_code: yansi::Style,
    pub placeholder: yansi::Style,
}

pub open spec fn esc() -> char {
    '\u{1b}'
}

/// The sequence that ends a styled run.
pub open spec fn reset() -> Seq<char> {
    seq![esc(), '[', '0', 'm']
}

/// An ANSI select-graphic-rendition sequence: escape, `[`, digits and
/// semicolons, `m`.
pub open spec fn is_sgr(p: Seq<char>) -> bool {
    &&& p.len() >= 3
    &&& p[0] == esc()
    &&& p[1] == '['
    &&& p.last() == 'm'
    &&& forall|i: int|
        2 <= i < p.len() - 1 ==> ('0' <= #[trigger] p[i] <= '9' || p[i] == ';')
}

/// `r` shows the text `t`: as it is, wrapped in a style sequence and a reset,
/// or (for a style that is masked while painting is off) not at all.
pub open spec fn shows(r: Seq<char>, t: Seq<char>) -> bool {
    ||| r == t
    ||| r.len() == 0
    ||| exists|p: Seq<char>| is_sgr(p) && r == p + t + reset()
}

/// Relies on yansi's `Style::paint` and the `Display` of its `Paint`: with
/// painting on and a style that is not plain, the text between the style's
/// code sequence and a reset; otherwise the text itself, or nothing for a
/// masked style. A wrapping style rewrites only resets inside the text.
#[verifier::external_body]
fn paint_text(style: &yansi::Style, text: &str) -> (r: String)
    ensures
        !text@.contains(esc()) ==> shows(r@, text@),
{
    style.paint(text).to_string()
}

/// `r` is the pieces `ps`, each shown in turn.
pub open spec fn painted_as(r: Seq<char>, ps: Seq<(Tone, Seq<char>)>) -> bool
    decreases ps.len(),
{
    if ps.len() == 0 {
        r.len() == 0
    } else {
        exists|k: int|
            0 <= k <= r.len() && painted_as(r.take(k), ps.drop_last()) && shows(
                #[trigger] r.skip(k),
                ps.last().1,
            )
    }
}

/// No piece holds an escape character.
pub open spec fn plain_pieces(ps: Seq<(Tone, Seq<char>)>) -> bool {
    forall|i: int| 0 <= i < ps.len() ==> !(#[trigger] ps[i]).1.contains(esc())
}

pub open spec fn spaces(n: nat) -> Seq<char> {
    Seq::new(n, |i: int| ' ')
}

/// `r` is the line `l` painted: its indentation, its pieces, a line feed.
pub open spec fn line_painted(r: Seq<char>, l: LineView) -> bool {
    &&& r.len() >= l.1 + 1
    &&& r.take(l.1 as int) == spaces(l.1 as nat)
    &&& r.last() == '\n'
    &&& (plain_pieces(l.2) ==> painted_as(r.subrange(l.1 as int, r.len() - 1), l.2))
}

/// `r` is the lines `ls` painted one after the other.
pub open spec fn page_painted(r: Seq<char>, ls: Seq<LineView>) -> bool
    decreases ls.len(),
{
    if ls.len() == 0 {
        r.len() == 0
    } else {
        exists|k: int|
            0 <= k <= r.len() && page_painted(r.take(k), ls.drop_last()) && line_painted(
                #[trigger] r.skip(k),
                ls.last(),
            )
    }
}

impl RenderStyles {
    /// The style that a piece of tone `tone` takes on a line of role `role`:
    /// a span's own style, else the style of the line's role.
    pub open spec fn style_of(&self, role: Role, tone: Tone) -> yansi::Style {
        match tone {
            Tone::Url => self.url,
            Tone::Code => self.inline_code,
            Tone::Placeholder => self.placeholder,
            Tone::Base => match role {
                Role::Title => self.title,
                Role::Description => self.description,
                Role::Bullet => self.bullet,
                _ => self.example,
            },
        }
    }

    pub fn style_for(&self, role: Role, tone: Tone) -> (r: &yansi::Style)
        ensures
            *r == self.style_of(role, tone),
    {
        match tone {
            Tone::Url => &self.url,
            Tone::Code => &self.inline_code,
            Tone::Placeholder => &self.placeholder,
            Tone::Base => match role {
                Role::Title => &self.title,
                Role::Description => &self.description,
                Role::Bullet => &self.bullet,
                _ => &self.example,
            },
        }
    }

    /// The line `l` painted: indentation, styled pieces, line feed.
    pub fn paint_line(&self, l: &OutLine) -> (r: String)
        ensures
            line_painted(r@, l@),
    {
        let mut r = String::new();
        let mut k: usize = 0;
        while k < l.indent
            invariant
                k <= l.indent,
                r@ == spaces(k as nat),
            decreases l.indent - k,
        {
            r.append(" ");
            proof {
                reveal_strlit(" ");
            }
            k = k + 1;
            assert(r@ =~= spaces(k as nat));
        }
        let ghost pv = tones_view(l.pieces@);
        let mut i: usize = 0;
        while i < l.pieces.len()
            invariant
                i <= l.pieces.len(),
                pv == tones_view(l.pieces@),
                r@.len() >= l.indent,
                r@.take(l.indent as int) == spaces(l.indent as nat),
                plain_pieces(pv) ==> painted_as(r@.skip(l.indent as int), pv.take(i as int)),
            decreases l.pieces.len() - i,
        {
            let ghost before = r@;
            let p = &l.pieces[i];
            assert(pv[i as int] == p@);
            let chunk = paint_text(self.style_for(l.role, p.tone), p.text.as_str());
            r.append(chunk.as_str());
            let ghost body = before.skip(l.indent as int);
            assert(r@.take(l.indent as int) =~= before.take(l.indent as int));
            proof {
                if plain_pieces(pv) {
                    let nb = r@.skip(l.indent as int);
                    let k = body.len() as int;
                    assert(nb.take(k) =~= body);
                    assert(nb.skip(k) =~= chunk@);
                    assert(pv.take(i + 1).drop_last() =~= pv.take(i as int));
                    assert(!pv[i as int].1.contains(esc()));
                    assert(painted_as(nb, pv.take(i + 1)));
                }
            }
            i = i + 1;
        }
        let ghost before = r@;
        r.append("\n");
        proof {
            reveal_strlit("\n");
            assert(r@.subrange(l.indent as int, r@.len() - 1) =~= before.skip(l.indent as int));
            assert(pv.take(l.pieces.len() as int) =~= pv);
            assert(r@.take(l.indent as int) =~= before.take(l.indent as int));
        }
        r
    }

    /// The lines `out` painted one after the other.
    pub fn paint_lines(&self, out: &Vec<OutLine>) -> (r: String)
        ensures
            page_painted(r@, lines_view(out@)),
    {
        let ghost lv = lines_view(out@);
        let mut r = String::new();
        let mut i: usize = 0;
        assert(lv.take(0) =~= Seq::empty());
        while i < out.len()
            invariant
                i <= out.len(),
                lv == lines_view(out@),
                page_painted(r@, lv.take(i as int)),
            decreases out.len() - i,
        {
            let ghost before = r@;
            let chunk = self.paint_line(&out[i]);
            assert(lv[i as int] == out@[i as int]@);
            r.append(chunk.as_str());
            proof {
                let k = before.len() as int;
                assert(r@.take(k) =~= before);
                assert(r@.skip(k) =~= chunk@);
                assert(lv.take(i + 1).drop_last() =~= lv.take(i as int));
                assert(page_painted(r@, lv.take(i + 1)));
            }
            i = i + 1;
        }
        assert(lv.take(out.len() as int) =~= lv);
        r
    }
}

} // verus!
