use twoslash::remap::{adjust_start, remap_annotations, RawAnnotation};
use twoslash::wrap::prepare_snippet;

#[test]
fn wrapped_body_annotation_round_trips() {
    // An annotation inside the synthetic body region of the wrapped program
    // recovers a position whose bytes in the original snippet are exactly the
    // bytes the engine annotated in the wrapped text.
    let code = b"let y = 5;";
    let (wrapped, preamble_len, prefix_len) = prepare_snippet(code);
    assert_eq!(prefix_len, 12);
    let p: usize = 16;
    let l: usize = 2;
    let adj = adjust_start(p as u32, preamble_len as u32, prefix_len as u32).unwrap() as usize;
    assert_eq!(adj, 4);
    assert_eq!(&wrapped[p..p + l], &code[adj..adj + l]);
}

#[test]
fn preamble_annotation_round_trips() {
    let code = b"fn helper() -> i32 { 1 }\nlet z = helper();";
    let (wrapped, preamble_len, prefix_len) = prepare_snippet(code);
    assert_eq!(preamble_len, 25);
    let p: usize = 10;
    let l: usize = 3;
    let adj = adjust_start(p as u32, preamble_len as u32, prefix_len as u32).unwrap() as usize;
    assert_eq!(adj, 10);
    assert_eq!(&wrapped[p..p + l], &code[adj..adj + l]);
}

#[test]
fn identity_pipeline_for_complete_program() {
    let code = "fn main() {\n    let x = 1;\n}\n";
    let (wrapped, preamble_len, prefix_len) = prepare_snippet(code.as_bytes());
    assert_eq!(String::from_utf8(wrapped).unwrap(), code);
    let anns = vec![
        RawAnnotation {
            start: 3,
            length: 4,
            text: String::from("fn()"),
            docs: None,
        },
        RawAnnotation {
            start: 20,
            length: 2,
            text: String::from("i32"),
            docs: None,
        },
    ];
    let out = remap_annotations(
        anns,
        preamble_len as u32,
        prefix_len as u32,
        code.len() as u32,
    );
    assert_eq!(out.len(), 2);
    assert_eq!(out[0].start, 3);
    assert_eq!(out[1].start, 20);
}

#[test]
fn pipeline_is_idempotent_when_no_wrapping_needed() {
    let code = "use foo::Bar;\n";
    let (first, pl1, wl1) = prepare_snippet(code.as_bytes());
    assert_eq!(first, code.as_bytes().to_vec());
    assert_eq!((pl1, wl1), (0, 0));
    let (second, pl2, wl2) = prepare_snippet(&first);
    assert_eq!(second, first);
    assert_eq!((pl2, wl2), (0, 0));
}

#[test]
fn engine_offsets_beyond_original_are_dropped() {
    // An annotation on the synthetic closing brace spills past the original
    // snippet and is excluded.
    let code = b"let y = 5;";
    let (wrapped, preamble_len, prefix_len) = prepare_snippet(code);
    let closing = wrapped.len() as u32 - 1;
    let anns = vec![RawAnnotation {
        start: closing,
        length: 2,
        text: String::from("()"),
        docs: None,
    }];
    let out = remap_annotations(
        anns,
        preamble_len as u32,
        prefix_len as u32,
        code.len() as u32,
    );
    assert!(out.is_empty());
}
