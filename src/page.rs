//! A renderer for one page: its path, layout options and styles.

use vstd::prelude::*;
use crate::render::{
    RenderOptions, OutLine, ParseError, ParseErrorKind, LineView, render_spec, render_page,
    lines_view, doc_lines,
};
use crate::paint::{RenderStyles, page_painted};

verus! {

pub struct PageRenderer {
    /// Where the page was read from; named in errors.
    pub path: String,
    pub options: RenderOptions,
    pub styles: RenderStyles,
}

impl PageRenderer {
    pub fn new(path: String, options: RenderOptions, styles: RenderStyles) -> (r: PageRenderer)
        ensures
            r.path@ == path@,
            r.options == options,
            r.styles == styles,
    {
        PageRenderer { path, options, styles }
    }

    /// The page `doc` as output lines, or the first line that breaks the
    /// page grammar.
    pub fn render_lines(&self, doc: &str) -> (r: Result<Vec<OutLine>, ParseError>)
        ensures
            match r {
                Ok(out) => render_spec(self.options, doc@) == Ok::<
                    Seq<LineView>,
                    (int, ParseErrorKind),
                >(lines_view(out@)),
                Err(e) => {
                    &&& render_spec(self.options, doc@) == Err::<
                        Seq<LineView>,
                        (int, ParseErrorKind),
                    >((e.line_number as int, e.kind))
                    &&& 1 <= e.line_number <= doc_lines(doc@).len()
                    &&& e.line@ == doc_lines(doc@)[e.line_number - 1]
                    &&& e.path@ == self.path@
                },
            },
    {
        render_page(&self.options, self.path.as_str(), doc)
    }

    /// The page `doc` rendered and painted, or the first line that breaks
    /// the page grammar.
    pub fn render(&self, doc: &str) -> (r: Result<String, ParseError>)
        ensures
            match r {
                Ok(s) => render_spec(self.options, doc@) is Ok && page_painted(
                    s@,
                    render_spec(self.options, doc@)->Ok_0,
                ),
                Err(e) => {
                    &&& render_spec(self.options, doc@) == Err::<
                        Seq<LineView>,
                        (int, ParseErrorKind),
                    >((e.line_number as int, e.kind))
                    &&& e.line@ == doc_lines(doc@)[e.line_number - 1]
                    &&& e.path@ == self.path@
                },
            },
    {
        match self.render_lines(doc) {
            Ok(out) => Ok(self.styles.paint_lines(&out)),
            Err(e) => Err(e),
        }
    }
}

} // verus!
