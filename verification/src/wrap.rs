//! The wrapper: encloses a snippet's statement-level body in a synthetic
//! entry-point function so the combined text is independently analyzable,
//! recording the byte lengths needed to invert the transform.

use vstd::prelude::*;

use crate::classify::{spec_body, spec_preamble, split_items_and_statements};
use crate::text::push_range;
use vstd::slice::slice_to_vec;

verus! {

/// The fixed synthetic entry-point header inserted before the body: a
/// complete entry-point function header, an opening brace and a line feed.
pub open spec fn wrapper_prefix() -> Seq<u8> {
    seq![102u8, 110u8, 32u8, 109u8, 97u8, 105u8, 110u8, 40u8, 41u8, 32u8, 123u8, 10u8]
}

/// The fixed synthetic closing inserted after the body: a line feed followed
/// by a closing brace.
pub open spec fn wrapper_suffix() -> Seq<u8> {
    seq![10u8, 125u8]
}

/// Enclose a non-empty body in the synthetic entry-point function:
/// `preamble + wrapperPrefix + body + wrapperSuffix`. Returns the transformed
/// text and the two byte lengths the remapper needs: the preamble's length
/// and the synthetic header's length. An empty body needs no wrapping: the
/// preamble alone comes back and both recorded lengths are zero, signaling an
/// identity mapping.
pub fn wrap_snippet(preamble: &[u8], body: &[u8]) -> (r: (Vec<u8>, usize, usize))
    ensures
        body@.len() == 0 ==> r.0@ == preamble@ && r.1 == 0 && r.2 == 0,
        body@.len() > 0 ==> r.0@ == preamble@ + wrapper_prefix() + body@ + wrapper_suffix()
            && r.1 == preamble@.len() && r.2 == wrapper_prefix().len(),
{
    if body.len() == 0 {
        return (slice_to_vec(preamble), 0, 0);
    }
    let prefix: [u8; 12] = [102, 110, 32, 109, 97, 105, 110, 40, 41, 32, 123, 10];
    let suffix: [u8; 2] = [10, 125];
    proof {
        assert(prefix@ =~= wrapper_prefix());
        assert(suffix@ =~= wrapper_suffix());
    }
    let mut w = slice_to_vec(preamble);
    push_range(&mut w, prefix.as_slice(), 0, 12);
    push_range(&mut w, body, 0, body.len());
    push_range(&mut w, suffix.as_slice(), 0, 2);
    proof {
        assert(prefix@.subrange(0, 12) =~= prefix@);
        assert(body@.subrange(0, body@.len() as int) =~= body@);
        assert(suffix@.subrange(0, 2) =~= suffix@);
        assert(w@ =~= preamble@ + wrapper_prefix() + body@ + wrapper_suffix());
    }
    (w, preamble.len(), 12)
}

/// Classify a snippet and, when statement-level code trails the items,
/// enclose it in the synthetic entry-point function. Returns the program text
/// to hand to the analysis engine together with the recorded preamble length
/// and synthetic header length; both lengths are zero exactly when no
/// wrapping occurred and the program is the snippet unchanged.
pub fn prepare_snippet(code: &[u8]) -> (r: (Vec<u8>, usize, usize))
    ensures
        spec_body(code@).len() == 0 ==> r.0@ == code@ && r.1 == 0 && r.2 == 0,
        spec_body(code@).len() > 0 ==> r.0@ == spec_preamble(code@) + wrapper_prefix()
            + spec_body(code@) + wrapper_suffix() && r.1 == spec_preamble(code@).len() && r.2
            == wrapper_prefix().len(),
{
    let (pre, body) = split_items_and_statements(code);
    wrap_snippet(pre.as_slice(), body.as_slice())
}

} // verus!
