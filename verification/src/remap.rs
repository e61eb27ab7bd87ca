//! The offset remapper: takes annotations positioned against the transformed
//! program and recovers their positions in the original snippet, discarding
//! the ones that have no meaning there.

use vstd::prelude::*;

use crate::TypeAnnotation;

verus! {

/// An annotation as the analysis engine reports it, positioned against the
/// transformed program text.
#[derive(Debug, Clone)]
pub struct RawAnnotation {
    /// Byte offset in the transformed program where the token starts
    pub start: u32,
    /// Length of the token in bytes
    pub length: u32,
    /// The type information to display on hover
    pub text: String,
    /// Optional documentation
    pub docs: Option<String>,
}

/// Where a raw start offset lands in the original snippet:
/// - when the recorded header length is zero, no wrapping occurred and the
///   offset passes through unchanged;
/// - an offset before the preamble's end is unchanged;
/// - an offset inside the synthetic header has no correspondent in the
///   snippet and is dropped;
/// - an offset in the body shifts back by the header's length.
pub open spec fn spec_adjust_start(start: u32, preamble_len: u32, wrapper_prefix_len: u32) -> Option<
    u32,
> {
    if wrapper_prefix_len == 0 {
        Some(start)
    } else if (start as int) < (preamble_len as int) {
        Some(start)
    } else if (start as int) < (preamble_len as int) + (wrapper_prefix_len as int) {
        None
    } else {
        Some((start - wrapper_prefix_len) as u32)
    }
}

/// The annotation `a` remapped onto the original snippet of byte length
/// `original_len`, or `None` when it is dropped: it lies inside the synthetic
/// header, its adjusted start spills past the original text, or it is a
/// single-byte token (punctuation noise, not a hover target).
pub open spec fn spec_remap_one(
    a: RawAnnotation,
    preamble_len: u32,
    wrapper_prefix_len: u32,
    original_len: u32,
) -> Option<TypeAnnotation> {
    match spec_adjust_start(a.start, preamble_len, wrapper_prefix_len) {
        None => None,
        Some(adj) => if adj >= original_len {
            None
        } else if a.length <= 1 {
            None
        } else {
            Some(TypeAnnotation { start: adj, length: a.length, type_text: a.text, docs: a.docs })
        },
    }
}

/// Every annotation remapped, the dropped ones removed, the survivors in the
/// engine's original order.
pub open spec fn spec_remap(
    s: Seq<RawAnnotation>,
    preamble_len: u32,
    wrapper_prefix_len: u32,
    original_len: u32,
) -> Seq<TypeAnnotation>
    decreases s.len(),
{
    if s.len() == 0 {
        Seq::empty()
    } else {
        match spec_remap_one(s[0], preamble_len, wrapper_prefix_len, original_len) {
            Some(t) => seq![t] + spec_remap(
                s.drop_first(),
                preamble_len,
                wrapper_prefix_len,
                original_len,
            ),
            None => spec_remap(s.drop_first(), preamble_len, wrapper_prefix_len, original_len),
        }
    }
}

/// Map a raw start offset back onto the original snippet, or report that the
/// annotation lies inside the synthetic header text and must be dropped.
pub fn adjust_start(start: u32, preamble_len: u32, wrapper_prefix_len: u32) -> (r: Option<u32>)
    ensures
        r == spec_adjust_start(start, preamble_len, wrapper_prefix_len),
        wrapper_prefix_len == 0 ==> r == Some(start),
        start < preamble_len ==> r == Some(start),
{
    if wrapper_prefix_len == 0 {
        Some(start)
    } else if start < preamble_len {
        Some(start)
    } else if (start as u64) < (preamble_len as u64) + (wrapper_prefix_len as u64) {
        None
    } else {
        Some(start - wrapper_prefix_len)
    }
}

/// Recover the original-snippet position of every annotation the engine
/// produced against the transformed program, dropping the ones inside the
/// synthetic header, the ones extending past the original snippet of length
/// `original_len`, and single-byte tokens. Order is preserved.
pub fn remap_annotations(
    raw: Vec<RawAnnotation>,
    preamble_len: u32,
    wrapper_prefix_len: u32,
    original_len: u32,
) -> (r: Vec<TypeAnnotation>)
    ensures
        r@ == spec_remap(raw@, preamble_len, wrapper_prefix_len, original_len),
{
    let mut rest = raw;
    let ghost orig = rest@;
    let mut out: Vec<TypeAnnotation> = Vec::new();
    proof {
        assert(out@ + spec_remap(orig, preamble_len, wrapper_prefix_len, original_len)
            =~= spec_remap(orig, preamble_len, wrapper_prefix_len, original_len));
    }
    while rest.len() > 0
        invariant
            out@ + spec_remap(rest@, preamble_len, wrapper_prefix_len, original_len) == spec_remap(
                orig,
                preamble_len,
                wrapper_prefix_len,
                original_len,
            ),
        decreases rest@.len(),
    {
        let ghost pre_rest = rest@;
        let a = rest.remove(0);
        let ghost aa = a;
        proof {
            assert(rest@ =~= pre_rest.drop_first());
        }
        let opt = adjust_start(a.start, preamble_len, wrapper_prefix_len);
        if let Some(adj) = opt {
            if adj < original_len && a.length > 1 {
                let t = TypeAnnotation {
                    start: adj,
                    length: a.length,
                    type_text: a.text,
                    docs: a.docs,
                };
                proof {
                    assert(spec_remap_one(aa, preamble_len, wrapper_prefix_len, original_len)
                        == Some(t));
                    assert(spec_remap(pre_rest, preamble_len, wrapper_prefix_len, original_len)
                        =~= seq![t] + spec_remap(
                        rest@,
                        preamble_len,
                        wrapper_prefix_len,
                        original_len,
                    ));
                }
                let ghost pre_out = out@;
                out.push(t);
                proof {
                    assert(out@ =~= pre_out + seq![t]);
                    assert(out@ + spec_remap(rest@, preamble_len, wrapper_prefix_len, original_len)
                        =~= spec_remap(orig, preamble_len, wrapper_prefix_len, original_len));
                }
            } else {
                proof {
                    assert(spec_remap_one(aa, preamble_len, wrapper_prefix_len, original_len)
                        is None);
                    assert(spec_remap(pre_rest, preamble_len, wrapper_prefix_len, original_len)
                        == spec_remap(rest@, preamble_len, wrapper_prefix_len, original_len));
                }
            }
        } else {
            proof {
                assert(spec_remap_one(aa, preamble_len, wrapper_prefix_len, original_len) is None);
                assert(spec_remap(pre_rest, preamble_len, wrapper_prefix_len, original_len)
                    == spec_remap(rest@, preamble_len, wrapper_prefix_len, original_len));
            }
        }
    }
    proof {
        assert(out@ + spec_remap(rest@, preamble_len, wrapper_prefix_len, original_len) =~= out@);
    }
    out
}

} // verus!
