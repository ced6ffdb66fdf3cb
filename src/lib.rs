//! Rendering of command cheat-sheet pages into styled terminal text.
//!
//! A page is a line-oriented document. Each line is classified by its leading
//! token, its inline spans (code, links, placeholders) are delimited, and the
//! result is an output model that is finally painted with ANSI styles.

use vstd::prelude::*;

pub mod text;
pub mod highlight;
pub mod classify;
pub mod render;
pub mod paint;
pub mod page;
pub mod laws;

verus! {

} // verus!
