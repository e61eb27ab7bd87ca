//! The classifier: scans a snippet and finds the boundary between a leading
//! preamble of complete top-level items and a trailing body of statement-level
//! code. The body, if non-empty, is what later gets enclosed in a synthetic
//! entry-point function.

use vstd::prelude::*;

use crate::text::{
    contains_seq, contains_seq_exec, count_byte, count_byte_range, find_line_end,
    lemma_after_last_non_space, lemma_first_non_space, lemma_line_end, line_end, starts_with,
    starts_with_exec, trim_bounds, trimmed, ws_only, ws_only_range,
};
use vstd::slice::{slice_subrange, slice_to_vec};

verus! {

/// The declaration keyword for functions, followed by a space.
pub open spec fn kw_fn() -> Seq<u8> {
    seq![102u8, 110u8, 32u8]
}

/// The declaration keyword for record types, followed by a space.
pub open spec fn kw_struct() -> Seq<u8> {
    seq![115u8, 116u8, 114u8, 117u8, 99u8, 116u8, 32u8]
}

/// The declaration keyword for sum types, followed by a space.
pub open spec fn kw_enum() -> Seq<u8> {
    seq![101u8, 110u8, 117u8, 109u8, 32u8]
}

/// The keyword opening an implementation block, followed by a space.
pub open spec fn kw_impl() -> Seq<u8> {
    seq![105u8, 109u8, 112u8, 108u8, 32u8]
}

/// The declaration keyword for traits, followed by a space.
pub open spec fn kw_trait() -> Seq<u8> {
    seq![116u8, 114u8, 97u8, 105u8, 116u8, 32u8]
}

/// The declaration keyword for modules, followed by a space.
pub open spec fn kw_mod() -> Seq<u8> {
    seq![109u8, 111u8, 100u8, 32u8]
}

/// The visibility keyword, followed by a space.
pub open spec fn kw_pub() -> Seq<u8> {
    seq![112u8, 117u8, 98u8, 32u8]
}

/// The keyword opening foreign-linkage blocks and declarations, followed by a
/// space.
pub open spec fn kw_foreign() -> Seq<u8> {
    seq![101u8, 120u8, 116u8, 101u8, 114u8, 110u8, 32u8]
}

/// The declaration keyword for compile-time constants, followed by a space.
pub open spec fn kw_const() -> Seq<u8> {
    seq![99u8, 111u8, 110u8, 115u8, 116u8, 32u8]
}

/// The declaration keyword for process-lifetime globals, followed by a space.
pub open spec fn kw_global() -> Seq<u8> {
    seq![115u8, 116u8, 97u8, 116u8, 105u8, 99u8, 32u8]
}

/// The declaration keyword for type aliases, followed by a space.
pub open spec fn kw_type() -> Seq<u8> {
    seq![116u8, 121u8, 112u8, 101u8, 32u8]
}

/// The import keyword, followed by a space.
pub open spec fn kw_use() -> Seq<u8> {
    seq![117u8, 115u8, 101u8, 32u8]
}

/// The two bytes opening an outer attribute marker.
pub open spec fn kw_attr_outer() -> Seq<u8> {
    seq![35u8, 91u8]
}

/// The two bytes opening an inner attribute marker.
pub open spec fn kw_attr_inner() -> Seq<u8> {
    seq![35u8, 33u8]
}

/// A line starts a top-level item: once trimmed of surrounding whitespace it
/// begins with one of the item-level keyword prefixes.
pub open spec fn spec_is_item_line(line: Seq<u8>) -> bool {
    let t = trimmed(line);
    ||| starts_with(t, kw_fn())
    ||| starts_with(t, kw_struct())
    ||| starts_with(t, kw_enum())
    ||| starts_with(t, kw_impl())
    ||| starts_with(t, kw_trait())
    ||| starts_with(t, kw_mod())
    ||| starts_with(t, kw_pub())
    ||| starts_with(t, kw_foreign())
    ||| starts_with(t, kw_const())
    ||| starts_with(t, kw_global())
    ||| starts_with(t, kw_type())
    ||| starts_with(t, kw_use())
    ||| starts_with(t, kw_attr_outer())
    ||| starts_with(t, kw_attr_inner())
}

/// Check if a line starts a top-level item.
pub fn is_item_line(line: &[u8]) -> (r: bool)
    ensures
        r == spec_is_item_line(line@),
{
    let (lo, hi) = trim_bounds(line);
    proof {
        lemma_first_non_space(line@, 0);
        lemma_after_last_non_space(line@);
    }
    let t: &[u8] = if lo <= hi {
        slice_subrange(line, lo, hi)
    } else {
        slice_subrange(line, 0, 0)
    };
    proof {
        assert(t@ =~= trimmed(line@));
    }
    let k_fn: [u8; 3] = [102, 110, 32];
    let k_struct: [u8; 7] = [115, 116, 114, 117, 99, 116, 32];
    let k_enum: [u8; 5] = [101, 110, 117, 109, 32];
    let k_impl: [u8; 5] = [105, 109, 112, 108, 32];
    let k_trait: [u8; 6] = [116, 114, 97, 105, 116, 32];
    let k_mod: [u8; 4] = [109, 111, 100, 32];
    let k_pub: [u8; 4] = [112, 117, 98, 32];
    let k_foreign: [u8; 7] = [101, 120, 116, 101, 114, 110, 32];
    let k_const: [u8; 6] = [99, 111, 110, 115, 116, 32];
    let k_global: [u8; 7] = [115, 116, 97, 116, 105, 99, 32];
    let k_type: [u8; 5] = [116, 121, 112, 101, 32];
    let k_use: [u8; 4] = [117, 115, 101, 32];
    let k_attr_outer: [u8; 2] = [35, 91];
    let k_attr_inner: [u8; 2] = [35, 33];
    proof {
        assert(k_fn@ =~= kw_fn());
        assert(k_struct@ =~= kw_struct());
        assert(k_enum@ =~= kw_enum());
        assert(k_impl@ =~= kw_impl());
        assert(k_trait@ =~= kw_trait());
        assert(k_mod@ =~= kw_mod());
        assert(k_pub@ =~= kw_pub());
        assert(k_foreign@ =~= kw_foreign());
        assert(k_const@ =~= kw_const());
        assert(k_global@ =~= kw_global());
        assert(k_type@ =~= kw_type());
        assert(k_use@ =~= kw_use());
        assert(k_attr_outer@ =~= kw_attr_outer());
        assert(k_attr_inner@ =~= kw_attr_inner());
    }
    starts_with_exec(t, k_fn.as_slice()) || starts_with_exec(t, k_struct.as_slice())
        || starts_with_exec(t, k_enum.as_slice()) || starts_with_exec(t, k_impl.as_slice())
        || starts_with_exec(t, k_trait.as_slice()) || starts_with_exec(t, k_mod.as_slice())
        || starts_with_exec(t, k_pub.as_slice()) || starts_with_exec(t, k_foreign.as_slice())
        || starts_with_exec(t, k_const.as_slice()) || starts_with_exec(t, k_global.as_slice())
        || starts_with_exec(t, k_type.as_slice()) || starts_with_exec(t, k_use.as_slice())
        || starts_with_exec(t, k_attr_outer.as_slice())
        || starts_with_exec(t, k_attr_inner.as_slice())
}

/// Opening braces on a line.
pub open spec fn opens(line: Seq<u8>) -> int {
    count_byte(line, 123u8)
}

/// Closing braces on a line.
pub open spec fn closes(line: Seq<u8>) -> int {
    count_byte(line, 125u8)
}

/// The classifier's forward scan, one line at a time. `pos` is the start of
/// the next unread line, `depth` the current brace depth, and `split` the byte
/// offset where the body would start. The result is the final split point:
/// blank lines and item lines at depth zero advance it past themselves, lines
/// inside a braced item advance it only when the braces close, and the first
/// statement line stops the scan.
pub open spec fn scan_from(s: Seq<u8>, pos: int, depth: int, split: int) -> int
    recommends
        0 <= pos <= s.len(),
    decreases s.len() - pos,
    via scan_from_dec
{
    if pos < 0 || pos >= s.len() {
        split
    } else {
        let e = line_end(s, pos);
        let line = s.subrange(pos, e);
        let nxt = if e < s.len() {
            e + 1
        } else {
            e
        };
        if depth > 0 {
            if depth + opens(line) - closes(line) <= 0 {
                scan_from(s, nxt, 0, nxt)
            } else {
                scan_from(s, nxt, depth + opens(line) - closes(line), split)
            }
        } else if ws_only(line) {
            scan_from(s, nxt, 0, nxt)
        } else if spec_is_item_line(line) {
            if opens(line) <= closes(line) {
                scan_from(s, nxt, 0, nxt)
            } else {
                scan_from(s, nxt, opens(line) - closes(line), split)
            }
        } else {
            split
        }
    }
}

#[via_fn]
proof fn scan_from_dec(s: Seq<u8>, pos: int, depth: int, split: int) {
    if 0 <= pos < s.len() {
        lemma_line_end(s, pos);
    }
}

pub proof fn lemma_scan_from_bounds(s: Seq<u8>, pos: int, depth: int, split: int)
    requires
        0 <= pos <= s.len(),
        0 <= split <= s.len(),
    ensures
        0 <= scan_from(s, pos, depth, split) <= s.len(),
    decreases s.len() - pos,
{
    if 0 <= pos < s.len() {
        lemma_line_end(s, pos);
        let e = line_end(s, pos);
        let line = s.subrange(pos, e);
        let nxt = if e < s.len() {
            e + 1
        } else {
            e
        };
        if depth > 0 {
            if depth + opens(line) - closes(line) <= 0 {
                lemma_scan_from_bounds(s, nxt, 0, nxt);
            } else {
                lemma_scan_from_bounds(s, nxt, depth + opens(line) - closes(line), split);
            }
        } else if ws_only(line) {
            lemma_scan_from_bounds(s, nxt, 0, nxt);
        } else if spec_is_item_line(line) {
            if opens(line) <= closes(line) {
                lemma_scan_from_bounds(s, nxt, 0, nxt);
            } else {
                lemma_scan_from_bounds(s, nxt, opens(line) - closes(line), split);
            }
        }
    }
}

/// The bytes of a complete entry-point function header's first two words: a
/// snippet containing them is treated as already complete and never wrapped.
pub open spec fn fn_main_marker() -> Seq<u8> {
    seq![102u8, 110u8, 32u8, 109u8, 97u8, 105u8, 110u8]
}

/// Byte offset where the body of the snippet starts, per the forward scan.
pub open spec fn spec_split_point(s: Seq<u8>) -> int {
    scan_from(s, 0, 0, 0)
}

/// The preamble the classifier returns: the whole snippet when it already
/// holds an entry-point function or when everything after the split point is
/// whitespace; otherwise the text before the split point.
pub open spec fn spec_preamble(s: Seq<u8>) -> Seq<u8> {
    if contains_seq(s, fn_main_marker()) {
        s
    } else {
        let sp = spec_split_point(s);
        if ws_only(s.subrange(sp, s.len() as int)) {
            s
        } else {
            s.subrange(0, sp)
        }
    }
}

/// The body the classifier returns: empty when no wrapping is required,
/// otherwise the text from the split point to the end of the snippet.
pub open spec fn spec_body(s: Seq<u8>) -> Seq<u8> {
    if contains_seq(s, fn_main_marker()) {
        Seq::empty()
    } else {
        let sp = spec_split_point(s);
        if ws_only(s.subrange(sp, s.len() as int)) {
            Seq::empty()
        } else {
            s.subrange(sp, s.len() as int)
        }
    }
}

/// Runs the forward scan over the whole snippet.
fn compute_split_point(code: &[u8]) -> (sp: usize)
    ensures
        sp as int == spec_split_point(code@),
        sp <= code@.len(),
{
    let n = code.len();
    let mut pos: usize = 0;
    let mut depth: usize = 0;
    let mut split: usize = 0;
    proof {
        lemma_scan_from_bounds(code@, 0, 0, 0);
    }
    while pos < n
        invariant
            pos <= n,
            n == code@.len(),
            depth <= pos,
            split <= n,
            scan_from(code@, pos as int, depth as int, split as int) == spec_split_point(code@),
            0 <= spec_split_point(code@) <= n,
        ensures
            split as int == spec_split_point(code@),
            split <= n,
        decreases n - pos,
    {
        let ghost opos = pos as int;
        let ghost odepth = depth as int;
        let ghost osplit = split as int;
        let e = find_line_end(code, pos);
        let nxt = if e < n {
            e + 1
        } else {
            e
        };
        let op = count_byte_range(code, pos, e, 123);
        let cl = count_byte_range(code, pos, e, 125);
        let ghost line = code@.subrange(pos as int, e as int);
        if depth > 0 {
            if depth + op > cl {
                depth = depth + op - cl;
            } else {
                depth = 0;
                split = nxt;
            }
            pos = nxt;
        } else if ws_only_range(code, pos, e) {
            split = nxt;
            pos = nxt;
        } else if is_item_line(slice_subrange(code, pos, e)) {
            if op > cl {
                depth = op - cl;
            } else {
                depth = 0;
                split = nxt;
            }
            pos = nxt;
        } else {
            proof {
                assert(scan_from(code@, opos, odepth, osplit) == osplit);
            }
            break;
        }
        proof {
            assert(scan_from(code@, opos, odepth, osplit) == scan_from(
                code@,
                pos as int,
                depth as int,
                split as int,
            ));
        }
    }
    split
}

/// Split code into preamble (top-level items) and body (statements).
///
/// Returns (preamble, body) where preamble contains complete item definitions
/// and body contains statement-level code that needs wrapping in a synthetic
/// entry-point function. If no wrapping is needed, body is empty and the
/// preamble is the whole snippet.
pub fn split_items_and_statements(code: &[u8]) -> (r: (Vec<u8>, Vec<u8>))
    ensures
        r.0@ == spec_preamble(code@),
        r.1@ == spec_body(code@),
        r.0@ + r.1@ == code@,
        contains_seq(code@, fn_main_marker()) ==> r.1@.len() == 0,
        r.1@.len() == 0 ==> r.0@ == code@,
{
    let marker: [u8; 7] = [102, 110, 32, 109, 97, 105, 110];
    proof {
        assert(marker@ =~= fn_main_marker());
    }
    if contains_seq_exec(code, marker.as_slice()) {
        let pre = slice_to_vec(code);
        let body: Vec<u8> = Vec::new();
        proof {
            assert(code@ + Seq::<u8>::empty() =~= code@);
        }
        return (pre, body);
    }
    let sp = compute_split_point(code);
    if ws_only_range(code, sp, code.len()) {
        let pre = slice_to_vec(code);
        let body: Vec<u8> = Vec::new();
        proof {
            assert(code@ + Seq::<u8>::empty() =~= code@);
        }
        (pre, body)
    } else {
        let pre = slice_to_vec(slice_subrange(code, 0, sp));
        let body = slice_to_vec(slice_subrange(code, sp, code.len()));
        proof {
            assert(code@.subrange(0, sp as int) + code@.subrange(sp as int, code@.len() as int)
                =~= code@);
        }
        (pre, body)
    }
}

} // verus!
