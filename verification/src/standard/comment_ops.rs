//! Comments.

use vstd::prelude::*;
use vstd::string::*;
use crate::engine::{
    done, handler_keeps, nothing, text_result, Engine, EngineMode, EngineView, Outcome,
};

verus! {

/// `(` begins a comment and `)` ends it.
pub open spec fn comment_toggle_spec(e: EngineView) -> Outcome {
    if e.mode == EngineMode::NORMAL {
        done(EngineView { mode: EngineMode::COMMENT, ..e })
    } else if e.mode == EngineMode::COMMENT {
        done(EngineView { mode: EngineMode::NORMAL, ..e })
    } else {
        done(e)
    }
}

/// Begins a comment, or ends one.
pub fn comment_toggle(s: &mut Engine) -> (r: Result<String, String>)
    ensures
        (final(s)@, text_result(r)) == comment_toggle_spec(old(s)@),
{
    if s.mode_normal() {
        s.mode = EngineMode::COMMENT;
    } else if s.mode_comment() {
        s.mode = EngineMode::NORMAL;
    }
    nothing()
}

/// The words of a comment keep what [`handler_keeps`] says: they leave the budget
/// alone, and of the contexts they move at most the cursor of the active one.
pub proof fn lemma_handlers_keep(e: EngineView)
    ensures
        handler_keeps(e, comment_toggle_spec(e)),
{
    assert(comment_toggle_spec(e).0.contexts.take(crate::engine::beneath(e)) =~= e.contexts.take(
        crate::engine::beneath(e),
    ));
}

} // verus!
