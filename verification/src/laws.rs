//! Library-wide laws, stated and proved once.

use crate::ctx::{spec_pop_scope, spec_push_scope, spec_register, CtxModel, ResEntry};
use crate::content::ResKind;
use crate::convert::effective_opacity;
use crate::fx::FX_ONE;
use vstd::prelude::*;

verus! {

/// A group opacity of exactly one is treated exactly like an absent opacity
/// attribute: the walker reads a group's opacity only through
/// [`effective_opacity`], and both values yield the same decision, so the
/// whole conversion output is identical for the two trees.
pub proof fn lemma_full_opacity_like_absent()
    ensures
        effective_opacity(Some(FX_ONE)) == effective_opacity(None::<i64>),
{
}

/// A nested scope's resource dictionary is exactly what was registered
/// since its push: popping right after a push yields the empty dictionary,
/// registering only ever extends the innermost frame, and popping returns
/// that frame.  An identity used only by a sibling scope therefore never
/// appears in another scope's dictionary.
pub proof fn lemma_scope_isolation(m: CtxModel, kind: ResKind, id: u64)
    requires
        m.scopes.len() > 0,
    ensures
        spec_pop_scope(spec_push_scope(m)).0 == Seq::<ResEntry>::empty(),
        spec_pop_scope(m).0 == m.scopes.last(),
        spec_register(m, kind, id).1.scopes.len() == m.scopes.len(),
        forall|k: int|
            0 <= k < m.scopes.len() - 1 ==> spec_register(m, kind, id).1.scopes[k]
                == m.scopes[k],
        forall|e: int|
            0 <= e < spec_register(m, kind, id).1.scopes.last().len()
                ==> (#[trigger] spec_register(m, kind, id).1.scopes.last()[e]) == (
            if e < m.scopes.last().len() {
                m.scopes.last()[e]
            } else {
                ResEntry { kind, name: m.scopes.last().len() as usize, id }
            }),
{
    assert(spec_pop_scope(spec_push_scope(m)).0 =~= Seq::<ResEntry>::empty());
    let r = spec_register(m, kind, id).1;
    assert forall|k: int| 0 <= k < m.scopes.len() - 1 implies r.scopes[k] == m.scopes[k] by {}
}

} // verus!
