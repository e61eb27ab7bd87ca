//! The guarantees the pipeline gives, stated and proved once over the
//! spec-level models of the classifier, the wrapper and the remapper.

use vstd::prelude::*;

use crate::classify::{
    fn_main_marker, lemma_scan_from_bounds, scan_from, spec_body, spec_preamble, spec_split_point,
};
use crate::remap::{spec_adjust_start, spec_remap_one, RawAnnotation};
use crate::text::{contains_seq, lemma_line_end, line_end, ws_only};
use crate::wrap::{wrapper_prefix, wrapper_suffix};

verus! {

/// Identity: a snippet that already holds a complete entry-point function is
/// classified as all preamble with an empty body, so it is never wrapped; the
/// recorded lengths are then zero and every annotation position passes
/// through the remapper unchanged.
pub proof fn lemma_identity(code: Seq<u8>, start: u32)
    requires
        contains_seq(code, fn_main_marker()),
    ensures
        spec_preamble(code) == code,
        spec_body(code) == Seq::<u8>::empty(),
        spec_adjust_start(start, 0, 0) == Some(start),
{
}

/// Split/reassembly: whenever the classifier splits a snippet, preamble and
/// body reassemble byte-for-byte into the original snippet.
pub proof fn lemma_split_reassembly(code: Seq<u8>)
    ensures
        spec_preamble(code) + spec_body(code) == code,
{
    if contains_seq(code, fn_main_marker()) {
        assert(code + Seq::<u8>::empty() =~= code);
    } else {
        lemma_scan_from_bounds(code, 0, 0, 0);
        let sp = spec_split_point(code);
        if ws_only(code.subrange(sp, code.len() as int)) {
            assert(code + Seq::<u8>::empty() =~= code);
        } else {
            assert(code.subrange(0, sp) + code.subrange(sp, code.len() as int) =~= code);
        }
    }
}

/// Wrap/unwrap round trip: an annotation whose span lies inside the synthetic
/// body region of the wrapped program maps back to its position minus the
/// synthetic header's length, and the bytes it covered in the wrapped program
/// are exactly the bytes at the recovered position in the original snippet.
pub proof fn lemma_wrap_roundtrip(code: Seq<u8>, p: u32, l: u32)
    requires
        code.len() <= u32::MAX,
        spec_body(code).len() > 0,
        spec_preamble(code).len() + wrapper_prefix().len() <= p as int,
        p as int + l as int <= spec_preamble(code).len() + wrapper_prefix().len() + spec_body(
            code,
        ).len(),
    ensures
        spec_adjust_start(p, spec_preamble(code).len() as u32, wrapper_prefix().len() as u32)
            == Some((p as int - wrapper_prefix().len()) as u32),
        (spec_preamble(code) + wrapper_prefix() + spec_body(code) + wrapper_suffix()).subrange(
            p as int,
            p as int + l as int,
        ) == code.subrange(
            p as int - wrapper_prefix().len(),
            p as int - wrapper_prefix().len() + l as int,
        ),
{
    lemma_split_reassembly(code);
    let pre = spec_preamble(code);
    let body = spec_body(code);
    let w = pre + wrapper_prefix() + body + wrapper_suffix();
    let pl = pre.len() as int;
    assert(wrapper_prefix().len() == 12);
    assert forall|j: int| 0 <= j < l as int implies #[trigger] w[p as int + j] == code[p as int - 12
        + j] by {
        assert(w[p as int + j] == body[p as int + j - pl - 12]);
        assert(code[p as int - 12 + j] == (pre + body)[p as int - 12 + j]);
    }
    assert(w.subrange(p as int, p as int + l as int) =~= code.subrange(
        p as int - 12,
        p as int - 12 + l as int,
    ));
}

/// Preamble-invariance: an annotation positioned inside the preamble region
/// keeps its raw position, with no shift.
pub proof fn lemma_preamble_invariance(start: u32, preamble_len: u32, wrapper_prefix_len: u32)
    requires
        start < preamble_len,
    ensures
        spec_adjust_start(start, preamble_len, wrapper_prefix_len) == Some(start),
{
}

/// Drop guarantees: the remapper excludes every single-byte annotation and
/// every annotation falling strictly inside the synthetic header region, and
/// whatever survives starts strictly before the original snippet's end.
pub proof fn lemma_drop_guarantees(
    a: RawAnnotation,
    preamble_len: u32,
    wrapper_prefix_len: u32,
    original_len: u32,
)
    ensures
        a.length <= 1 ==> spec_remap_one(a, preamble_len, wrapper_prefix_len, original_len)
            is None,
        wrapper_prefix_len > 0 && preamble_len <= a.start && (a.start as int) < (preamble_len as int)
            + (wrapper_prefix_len as int) ==> spec_remap_one(
            a,
            preamble_len,
            wrapper_prefix_len,
            original_len,
        ) is None,
        match spec_remap_one(a, preamble_len, wrapper_prefix_len, original_len) {
            Some(t) => t.start < original_len && t.length > 1,
            None => true,
        },
{
}

/// Idempotence: on a snippet that needed no wrapping the pipeline is a no-op,
/// and re-running it on its own output changes nothing: the output is the
/// snippet itself, classifying it again gives the same all-preamble result,
/// and with the recorded zero lengths every annotation position is unchanged.
pub proof fn lemma_idempotent(code: Seq<u8>, start: u32)
    requires
        spec_body(code).len() == 0,
    ensures
        spec_preamble(code) == code,
        spec_body(spec_preamble(code)) == spec_body(code),
        spec_adjust_start(start, 0, 0) == Some(start),
{
    if !contains_seq(code, fn_main_marker()) {
        let sp = spec_split_point(code);
        if !ws_only(code.subrange(sp, code.len() as int)) {
            assert(spec_body(code).len() > 0);
        }
    }
}

proof fn lemma_scan_line_boundary(s: Seq<u8>, pos: int, depth: int, split: int)
    requires
        0 <= pos <= s.len(),
        split == 0 || split == s.len() || (0 < split <= s.len() && s[split - 1] == 10u8),
    ensures
        scan_from(s, pos, depth, split) == 0 || scan_from(s, pos, depth, split) == s.len() || (0
            < scan_from(s, pos, depth, split) <= s.len() && s[scan_from(s, pos, depth, split) - 1]
            == 10u8),
    decreases s.len() - pos,
{
    if 0 <= pos < s.len() {
        lemma_line_end(s, pos);
        let e = line_end(s, pos);
        let nxt = if e < s.len() {
            e + 1
        } else {
            e
        };
        assert(nxt == 0 || nxt == s.len() || (0 < nxt <= s.len() && s[nxt - 1] == 10u8));
        let line = s.subrange(pos, e);
        if depth > 0 {
            if depth + crate::classify::opens(line) - crate::classify::closes(line) <= 0 {
                lemma_scan_line_boundary(s, nxt, 0, nxt);
            } else {
                lemma_scan_line_boundary(
                    s,
                    nxt,
                    depth + crate::classify::opens(line) - crate::classify::closes(line),
                    split,
                );
            }
        } else if ws_only(line) {
            lemma_scan_line_boundary(s, nxt, 0, nxt);
        } else if crate::classify::spec_is_item_line(line) {
            if crate::classify::opens(line) <= crate::classify::closes(line) {
                lemma_scan_line_boundary(s, nxt, 0, nxt);
            } else {
                lemma_scan_line_boundary(
                    s,
                    nxt,
                    crate::classify::opens(line) - crate::classify::closes(line),
                    split,
                );
            }
        }
    }
}

/// The classifier's invariant that the preamble ends exactly at a line
/// boundary: it is empty, the whole snippet, or ends just past a line feed.
pub proof fn lemma_preamble_ends_at_line_boundary(code: Seq<u8>)
    ensures
        spec_preamble(code).len() == 0 || spec_preamble(code).len() == code.len() || (0
            < spec_preamble(code).len() <= code.len() && code[spec_preamble(code).len() - 1]
            == 10u8),
{
    lemma_scan_from_bounds(code, 0, 0, 0);
    lemma_scan_line_boundary(code, 0, 0, 0);
}

} // verus!
