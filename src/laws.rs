//! Properties that hold of every line and every page.

use vstd::prelude::*;
use crate::text::{occurs_at, split_from, split_on, replace_from, replace_all};
use crate::highlight::{Delimiters, highlight_spec, alternate, close_all};
use crate::classify::{Role, role_of, is_space};
use crate::render::{
    RenderOptions, LineView, Tone, line_spec, render_from, render_spec, doc_lines, blank_line,
    example_pieces, prose_pieces, code_pass_from, tone_pieces, pad, unpad, padded, esc_open, esc_close,
};

verus! {

/// A line of nothing but whitespace, the empty line included, is blank.
pub proof fn lemma_whitespace_is_blank(s: Seq<char>)
    requires
        forall|i: int| 0 <= i < s.len() ==> is_space(#[trigger] s[i]),
    ensures
        role_of(s) == Role::Blank,
{
    if s.len() > 0 {
        assert(is_space(s[0]));
    }
}

/// Without compact mode, a shown title is preceded by exactly one blank line
/// and a blank line of the page gives exactly one blank line; in compact mode
/// the title stands alone and a blank line of the page gives nothing.
pub proof fn lemma_line_spacing(o: RenderOptions, s: Seq<char>)
    ensures
        role_of(s) == Role::Title && o.show_title && !o.compact ==> {
            let out = line_spec(o, s)->Ok_0;
            &&& line_spec(o, s) is Ok
            &&& out.len() == 2
            &&& out[0] == blank_line()
            &&& out[1].0 == Role::Title
        },
        role_of(s) == Role::Title && o.show_title && o.compact ==> {
            let out = line_spec(o, s)->Ok_0;
            &&& line_spec(o, s) is Ok
            &&& out.len() == 1
            &&& out[0].0 == Role::Title
        },
        role_of(s) == Role::Blank && !o.compact ==> line_spec(o, s) == Ok::<
            Seq<LineView>,
            crate::render::ParseErrorKind,
        >(seq![blank_line()]),
        role_of(s) == Role::Blank && o.compact ==> line_spec(o, s) == Ok::<
            Seq<LineView>,
            crate::render::ParseErrorKind,
        >(Seq::empty()),
{
}

proof fn lemma_compact_from(o: RenderOptions, lines: Seq<Seq<char>>, k: int)
    requires
        o.compact,
        render_from(o, lines, k) is Ok,
    ensures
        forall|i: int|
            0 <= i < render_from(o, lines, k)->Ok_0.len() ==> (#[trigger] render_from(
                o,
                lines,
                k,
            )->Ok_0[i]).0 != Role::Blank,
    decreases lines.len() - k,
{
    if 0 <= k < lines.len() {
        lemma_compact_from(o, lines, k + 1);
        let out = line_spec(o, lines[k])->Ok_0;
        let rest = render_from(o, lines, k + 1)->Ok_0;
        assert(forall|i: int| 0 <= i < out.len() ==> (#[trigger] out[i]).0 != Role::Blank);
        assert(render_from(o, lines, k)->Ok_0 == out + rest);
        assert forall|i: int| 0 <= i < (out + rest).len() implies (#[trigger] (out + rest)[i]).0
            != Role::Blank by {
            if i >= out.len() {
                assert((out + rest)[i] == rest[i - out.len()]);
            }
        }
    }
}

/// In compact mode no line of a rendered page is blank.
pub proof fn lemma_compact_page(o: RenderOptions, doc: Seq<char>)
    requires
        o.compact,
        render_spec(o, doc) is Ok,
    ensures
        forall|i: int|
            0 <= i < render_spec(o, doc)->Ok_0.len() ==> (#[trigger] render_spec(
                o,
                doc,
            )->Ok_0[i]).0 != Role::Blank,
{
    lemma_compact_from(o, doc_lines(doc), 0);
}

/// The text of spans, styling set aside.
pub open spec fn stripped(v: Seq<(bool, Seq<char>)>) -> Seq<char> {
    v.map_values(|x: (bool, Seq<char>)| x.1).flatten()
}

proof fn lemma_flatten_single(p: Seq<char>)
    ensures
        seq![p].flatten() == p,
{
    let e = Seq::<Seq<char>>::empty();
    assert(seq![p].drop_first() =~= e);
    assert(e.flatten() == Seq::<char>::empty());
    assert(seq![p].first() == p);
    assert(p + Seq::<char>::empty() =~= p);
}

proof fn lemma_replace_tail(s: Seq<char>, tok: Seq<char>, to: Seq<char>, i: int)
    requires
        0 <= i <= s.len(),
        tok.len() > 0,
        i + tok.len() > s.len(),
    ensures
        replace_from(s, tok, to, i) == s.subrange(i, s.len() as int),
    decreases s.len() - i,
{
    if i < s.len() {
        lemma_replace_tail(s, tok, to, i + 1);
        assert(seq![s[i]] + s.subrange(i + 1, s.len() as int) =~= s.subrange(i, s.len() as int));
    }
}

proof fn lemma_split_flatten(s: Seq<char>, tok: Seq<char>, begin: int, i: int)
    requires
        0 <= begin <= i <= s.len(),
        tok.len() > 0,
    ensures
        split_from(s, tok, begin, i).flatten() == s.subrange(begin, i) + replace_from(
            s,
            tok,
            Seq::empty(),
            i,
        ),
    decreases s.len() - i,
{
    let e = Seq::<char>::empty();
    if i + tok.len() > s.len() {
        lemma_replace_tail(s, tok, e, i);
        let p = s.subrange(begin, s.len() as int);
        lemma_flatten_single(p);
        assert(s.subrange(begin, i) + s.subrange(i, s.len() as int) =~= p);
    } else if occurs_at(s, tok, i) {
        lemma_split_flatten(s, tok, i + tok.len(), i + tok.len());
        let rest = split_from(s, tok, i + tok.len(), i + tok.len());
        let all = seq![s.subrange(begin, i)] + rest;
        assert(all.drop_first() =~= rest);
        assert(s.subrange(i + tok.len(), i + tok.len()) =~= e);
        assert(e + replace_from(s, tok, e, i + tok.len()) =~= replace_from(s, tok, e, i + tok.len()));
    } else {
        lemma_split_flatten(s, tok, begin, i + 1);
        assert(s.subrange(begin, i + 1) =~= s.subrange(begin, i) + seq![s[i]]);
    }
}

/// Stripping the styles of a line highlighted for inline code gives the line
/// with its backticks taken out, and nothing else changed.
pub proof fn lemma_inline_code_keeps_text(s: Seq<char>)
    ensures
        stripped(highlight_spec(Delimiters::InlineCode, s)) == replace_all(
            s,
            seq!['`'],
            Seq::empty(),
        ),
{
    let ps = split_on(s, seq!['`']);
    lemma_split_flatten(s, seq!['`'], 0, 0);
    assert(highlight_spec(Delimiters::InlineCode, s).map_values(|x: (bool, Seq<char>)| x.1) =~= ps);
    assert(s.subrange(0, 0) + replace_all(s, seq!['`'], Seq::empty()) =~= replace_all(
        s,
        seq!['`'],
        Seq::empty(),
    ));
}

proof fn lemma_split_none(s: Seq<char>, tok: Seq<char>, begin: int, i: int)
    requires
        0 <= begin <= i <= s.len(),
        forall|j: int| !occurs_at(s, tok, j),
    ensures
        split_from(s, tok, begin, i) == seq![s.subrange(begin, s.len() as int)],
    decreases s.len() - i,
{
    if tok.len() > 0 && i + tok.len() <= s.len() {
        lemma_split_none(s, tok, begin, i + 1);
    }
}

/// A line without the opening token of a pair is one plain span holding the
/// whole line.
pub proof fn lemma_untouched_without_delimiters(d: Delimiters, s: Seq<char>)
    requires
        forall|j: int| !occurs_at(s, d.start(), j),
    ensures
        highlight_spec(d, s) == seq![(false, s)],
        stripped(highlight_spec(d, s)) == s,
{
    lemma_split_none(s, d.start(), 0, 0);
    let ps = split_on(s, d.start());
    assert(s.subrange(0, s.len() as int) =~= s);
    assert(ps == seq![s]);
    if d is InlineCode {
        assert(alternate(ps) =~= seq![(false, s)]);
    } else {
        assert(ps.drop_first() =~= Seq::<Seq<char>>::empty());
        assert(close_all(d, ps.drop_first()) =~= Seq::empty());
        assert(seq![(false, ps[0])] + close_all(d, ps.drop_first()) =~= seq![(false, s)]);
    }
    let t = seq![(false, s)].map_values(|x: (bool, Seq<char>)| x.1);
    assert(t =~= seq![s]);
    lemma_flatten_single(s);
}

proof fn lemma_replace_none(s: Seq<char>, from: Seq<char>, to: Seq<char>, i: int)
    requires
        0 <= i <= s.len(),
        forall|j: int| !occurs_at(s, from, j),
    ensures
        replace_from(s, from, to, i) == s.subrange(i, s.len() as int),
    decreases s.len() - i,
{
    if from.len() > 0 && i < s.len() {
        lemma_replace_none(s, from, to, i + 1);
        assert(seq![s[i]] + s.subrange(i + 1, s.len() as int) =~= s.subrange(i, s.len() as int));
    }
}

proof fn lemma_padded_needs_token(s: Seq<char>, e: Seq<char>)
    requires
        e.len() == 4,
        forall|j: int| !occurs_at(s, e, j),
    ensures
        forall|j: int| !occurs_at(s, padded(e), j),
{
    assert forall|j: int| !occurs_at(s, padded(e), j) by {
        if occurs_at(s, padded(e), j) {
            assert forall|t: int| 0 <= t < 4 implies s.subrange(j + 1, j + 5)[t] == e[t] by {
                assert(s.subrange(j, j + 6)[t + 1] == padded(e)[t + 1]);
            }
            assert(s.subrange(j + 1, j + 5) =~= e);
            assert(occurs_at(s, e, j + 1));
        }
    }
}

/// An example whose text holds no placeholder and no escaped braces is shown
/// as it is, in one plain piece.
pub proof fn lemma_plain_example_untouched(b: Seq<char>)
    requires
        forall|j: int| !occurs_at(b, seq!['{', '{'], j),
        forall|j: int| !occurs_at(b, esc_open(), j),
        forall|j: int| !occurs_at(b, esc_close(), j),
    ensures
        example_pieces(b) == seq![(Tone::Base, b)],
{
    assert(b.subrange(0, b.len() as int) =~= b);
    lemma_replace_none(b, esc_open(), padded(esc_open()), 0);
    lemma_replace_none(b, esc_close(), padded(esc_close()), 0);
    assert(pad(b) == b);
    lemma_untouched_without_delimiters(Delimiters::Placeholder, b);
    lemma_padded_needs_token(b, esc_open());
    lemma_padded_needs_token(b, esc_close());
    lemma_replace_none(b, padded(esc_open()), esc_open(), 0);
    lemma_replace_none(b, padded(esc_close()), esc_close(), 0);
    assert(unpad(b) == b);
    assert(example_pieces(b) =~= seq![(Tone::Base, b)]);
}

/// A description or bullet text without links and without backticks is
/// shown as it is, in one piece of the line's own style.
pub proof fn lemma_plain_prose_untouched(t: Seq<char>)
    requires
        forall|j: int| !occurs_at(t, Delimiters::Url.start(), j),
        forall|j: int| !occurs_at(t, seq!['`'], j),
    ensures
        prose_pieces(t) == seq![(Tone::Base, t)],
{
    lemma_untouched_without_delimiters(Delimiters::Url, t);
    lemma_split_none(t, seq!['`'], 0, 0);
    assert(t.subrange(0, t.len() as int) =~= t);
    let segs = seq![(false, t)];
    let ps = split_on(t, seq!['`']);
    assert(ps == seq![t]);
    assert(code_pass_from(segs, 1, false) == Seq::<(Tone, Seq<char>)>::empty());
    assert(tone_pieces(ps, false, false) =~= seq![(Tone::Base, t)]);
    assert(code_pass_from(segs, 0, false) =~= seq![(Tone::Base, t)]);
}

} // verus!
