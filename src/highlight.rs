//! Delimiting inline spans: code, links and placeholders.

use vstd::prelude::*;
use crate::text::{
    chars_of, string_of, split_on, find_from, rfind, pieces_view, split, find, rfind_in, copy_range,
};

verus! {

/// A kind of inline span, with its opening and closing tokens.
#[derive(Clone, Copy, PartialEq, Eq, Debug)]
pub enum Delimiters {
    /// Inline code between backticks; the same token opens and closes.
    InlineCode,
    /// A link written `<http...>`; the dropped `http` is put back.
    Url,
    /// A placeholder `{{...}}`; the rightmost `}}` of a piece closes it.
    Placeholder,
}

impl Delimiters {
    pub open spec fn start(self) -> Seq<char> {
        match self {
            Delimiters::InlineCode => seq!['`'],
            Delimiters::Url => seq!['<', 'h', 't', 't', 'p'],
            Delimiters::Placeholder => seq!['{', '{'],
        }
    }

    pub open spec fn end(self) -> Seq<char> {
        match self {
            Delimiters::InlineCode => seq!['`'],
            Delimiters::Url => seq!['>'],
            Delimiters::Placeholder => seq!['}', '}'],
        }
    }

    pub fn start_token(self) -> (r: Vec<char>)
        ensures
            r@ == self.start(),
    {
        let mut r: Vec<char> = Vec::new();
        match self {
            Delimiters::InlineCode => {
                r.push('`');
            },
            Delimiters::Url => {
                r.push('<');
                r.push('h');
                r.push('t');
                r.push('t');
                r.push('p');
            },
            Delimiters::Placeholder => {
                r.push('{');
                r.push('{');
            },
        }
        assert(r@ =~= self.start());
        r
    }

    pub fn end_token(self) -> (r: Vec<char>)
        ensures
            r@ == self.end(),
    {
        let mut r: Vec<char> = Vec::new();
        match self {
            Delimiters::InlineCode => {
                r.push('`');
            },
            Delimiters::Url => {
                r.push('>');
            },
            Delimiters::Placeholder => {
                r.push('}');
                r.push('}');
            },
        }
        assert(r@ =~= self.end());
        r
    }
}

/// A run of characters and whether it lies inside a delimited span.
pub struct Span {
    pub text: Vec<char>,
    pub highlighted: bool,
}

impl View for Span {
    type V = (bool, Seq<char>);

    open spec fn view(&self) -> (bool, Seq<char>) {
        (self.highlighted, self.text@)
    }
}

pub open spec fn spans_view(v: Seq<Span>) -> Seq<(bool, Seq<char>)> {
    v.map_values(|s: Span| s@)
}

pub open spec fn http() -> Seq<char> {
    seq!['h', 't', 't', 'p']
}

/// Pieces alternately outside and inside a symmetric span, starting outside.
pub open spec fn alternate(ps: Seq<Seq<char>>) -> Seq<(bool, Seq<char>)> {
    Seq::new(ps.len(), |k: int| (k % 2 == 1, ps[k]))
}

/// A piece that followed an opening token of an asymmetric pair: the part
/// before the closing token is highlighted, the part after it is not, and
/// the closing token itself is dropped. Without a closing token the piece
/// stays plain.
pub open spec fn close_piece(d: Delimiters, p: Seq<char>) -> Seq<(bool, Seq<char>)> {
    let j = if d is Url { find_from(p, d.end(), 0) } else { rfind(p, d.end()) };
    if j < 0 {
        seq![(false, p)]
    } else if d is Url {
        seq![(true, http() + p.subrange(0, j)), (false, p.subrange(j + 1, p.len() as int))]
    } else {
        seq![(true, p.subrange(0, j)), (false, p.subrange(j + 2, p.len() as int))]
    }
}

pub open spec fn close_all(d: Delimiters, ps: Seq<Seq<char>>) -> Seq<(bool, Seq<char>)>
    decreases ps.len(),
{
    if ps.len() == 0 {
        Seq::empty()
    } else {
        close_all(d, ps.drop_last()) + close_piece(d, ps.last())
    }
}

/// The spans of `s` for the delimiter pair `d`, in order.
pub open spec fn highlight_spec(d: Delimiters, s: Seq<char>) -> Seq<(bool, Seq<char>)> {
    let ps = split_on(s, d.start());
    if d is InlineCode {
        alternate(ps)
    } else {
        seq![(false, ps[0])] + close_all(d, ps.drop_first())
    }
}

fn push_span(out: &mut Vec<Span>, text: Vec<char>, highlighted: bool)
    ensures
        spans_view(final(out)@) == spans_view(old(out)@).push((highlighted, text@)),
{
    let ghost before = spans_view(out@);
    let sp = Span { text, highlighted };
    out.push(sp);
    assert(spans_view(out@) =~= before.push((highlighted, sp.text@)));
}

fn close_piece_into(d: Delimiters, p: &Vec<char>, out: &mut Vec<Span>)
    requires
        !(d is InlineCode),
    ensures
        spans_view(final(out)@) == spans_view(old(out)@) + close_piece(d, p@),
{
    let end = d.end_token();
    let ghost before = spans_view(out@);
    let is_url = matches!(d, Delimiters::Url);
    let found = if is_url { find(p, &end, 0) } else { rfind_in(p, &end) };
    match found {
        None => {
            push_span(out, p.clone(), false);
            assert(spans_view(out@) =~= before + close_piece(d, p@));
        },
        Some(j) => {
            if is_url {
                let mut hl: Vec<char> = Vec::new();
                hl.push('h');
                hl.push('t');
                hl.push('t');
                hl.push('p');
                let mut head = copy_range(p, 0, j);
                hl.append(&mut head);
                assert(hl@ =~= http() + p@.subrange(0, j as int));
                push_span(out, hl, true);
                push_span(out, copy_range(p, j + 1, p.len()), false);
            } else {
                assert(end@.len() == 2);
                push_span(out, copy_range(p, 0, j), true);
                push_span(out, copy_range(p, j + 2, p.len()), false);
            }
            assert(spans_view(out@) =~= before + close_piece(d, p@));
        },
    }
}

/// Splits `v` into spans for the delimiter pair `d`.
pub fn highlight_chars(d: Delimiters, v: &Vec<char>) -> (r: Vec<Span>)
    ensures
        spans_view(r@) == highlight_spec(d, v@),
{
    let start = d.start_token();
    let ps = split(v, &start);
    let ghost pv = pieces_view(ps@);
    let mut out: Vec<Span> = Vec::new();
    if matches!(d, Delimiters::InlineCode) {
        let mut k: usize = 0;
        while k < ps.len()
            invariant
                k <= ps.len(),
                pv == pieces_view(ps@),
                spans_view(out@) == alternate(pv).subrange(0, k as int),
            decreases ps.len() - k,
        {
            let ghost before = spans_view(out@);
            push_span(&mut out, ps[k].clone(), k % 2 == 1);
            assert(spans_view(out@) =~= alternate(pv).subrange(0, k + 1));
            k = k + 1;
        }
        assert(alternate(pv).subrange(0, ps.len() as int) =~= alternate(pv));
    } else {
        push_span(&mut out, ps[0].clone(), false);
        assert(spans_view(out@) =~= seq![(false, pv[0])] + close_all(d, pv.subrange(1, 1)));
        let mut k: usize = 1;
        while k < ps.len()
            invariant
                1 <= k <= ps.len(),
                !(d is InlineCode),
                pv == pieces_view(ps@),
                spans_view(out@) == seq![(false, pv[0])] + close_all(d, pv.subrange(1, k as int)),
            decreases ps.len() - k,
        {
            close_piece_into(d, &ps[k], &mut out);
            assert(pv.subrange(1, k + 1).drop_last() =~= pv.subrange(1, k as int));
            k = k + 1;
        }
        assert(pv.subrange(1, ps.len() as int) =~= pv.drop_first());
    }
    out
}

/// A run of text and whether it lies inside a delimited span.
pub struct Segment {
    pub text: String,
    pub highlighted: bool,
}

impl View for Segment {
    type V = (bool, Seq<char>);

    open spec fn view(&self) -> (bool, Seq<char>) {
        (self.highlighted, self.text@)
    }
}

pub open spec fn segments_view(v: Seq<Segment>) -> Seq<(bool, Seq<char>)> {
    v.map_values(|s: Segment| s@)
}

/// Splits `s` into plain and highlighted segments for the delimiter pair `d`.
pub fn highlight(d: Delimiters, s: &str) -> (r: Vec<Segment>)
    ensures
        segments_view(r@) == highlight_spec(d, s@),
{
    let v = chars_of(s);
    let spans = highlight_chars(d, &v);
    let mut r: Vec<Segment> = Vec::new();
    let mut k: usize = 0;
    while k < spans.len()
        invariant
            k <= spans.len(),
            spans_view(spans@) == highlight_spec(d, s@),
            segments_view(r@) == spans_view(spans@).subrange(0, k as int),
        decreases spans.len() - k,
    {
        let ghost before = segments_view(r@);
        let seg = Segment { text: string_of(&spans[k].text), highlighted: spans[k].highlighted };
        assert(seg@ == spans@[k as int]@);
        assert(spans_view(spans@)[k as int] == spans@[k as int]@);
        r.push(seg);
        assert(segments_view(r@) =~= before.push(seg@));
        assert(segments_view(r@) =~= spans_view(spans@).subrange(0, k + 1));
        k = k + 1;
    }
    assert(spans_view(spans@).subrange(0, spans.len() as int) =~= spans_view(spans@));
    r
}

} // verus!
