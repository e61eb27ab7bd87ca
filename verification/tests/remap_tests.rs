use twoslash::remap::{adjust_start, remap_annotations, RawAnnotation};

fn raw(start: u32, length: u32) -> RawAnnotation {
    RawAnnotation {
        start,
        length,
        text: String::from("i32"),
        docs: None,
    }
}

#[test]
fn body_offset_shifts_back_by_header_length() {
    // "let y = 5;" wrapped: offset 16 in the wrapped text is offset 4 in the
    // original snippet.
    assert_eq!(adjust_start(16, 0, 12), Some(4));
}

#[test]
fn preamble_offset_is_unchanged() {
    assert_eq!(adjust_start(10, 25, 12), Some(10));
}

#[test]
fn offset_inside_synthetic_header_is_dropped() {
    // Preamble of 25 bytes, header of 12: the header region is [25, 37).
    assert_eq!(adjust_start(30, 25, 12), None);
}

#[test]
fn no_wrapping_means_identity() {
    assert_eq!(adjust_start(0, 0, 0), Some(0));
    assert_eq!(adjust_start(1000, 0, 0), Some(1000));
}

#[test]
fn header_region_boundaries() {
    // Just below, at, and just above each edge of the region [25, 37).
    assert_eq!(adjust_start(24, 25, 12), Some(24));
    assert_eq!(adjust_start(25, 25, 12), None);
    assert_eq!(adjust_start(26, 25, 12), None);
    assert_eq!(adjust_start(36, 25, 12), None);
    assert_eq!(adjust_start(37, 25, 12), Some(25));
    assert_eq!(adjust_start(38, 25, 12), Some(26));
}

#[test]
fn single_byte_annotations_are_always_dropped() {
    let out = remap_annotations(vec![raw(5, 1)], 0, 0, 100);
    assert!(out.is_empty());
    let out = remap_annotations(vec![raw(5, 0)], 0, 0, 100);
    assert!(out.is_empty());
    let out = remap_annotations(vec![raw(50, 1)], 25, 12, 100);
    assert!(out.is_empty());
}

#[test]
fn length_boundary_probing() {
    assert!(remap_annotations(vec![raw(5, 1)], 0, 0, 100).is_empty());
    let kept = remap_annotations(vec![raw(5, 2)], 0, 0, 100);
    assert_eq!(kept.len(), 1);
    assert_eq!(kept[0].start, 5);
    assert_eq!(kept[0].length, 2);
}

#[test]
fn original_length_boundary_probing() {
    // adjusted start just below, at, and just above the original's length.
    assert_eq!(remap_annotations(vec![raw(9, 3)], 0, 0, 10).len(), 1);
    assert!(remap_annotations(vec![raw(10, 3)], 0, 0, 10).is_empty());
    assert!(remap_annotations(vec![raw(11, 3)], 0, 0, 10).is_empty());
}

#[test]
fn header_boundary_probing_through_remap() {
    // Original of 40 bytes, preamble 25, header 12: raw starts 24, 25, 36, 37.
    assert_eq!(remap_annotations(vec![raw(24, 2)], 25, 12, 40)[0].start, 24);
    assert!(remap_annotations(vec![raw(25, 2)], 25, 12, 40).is_empty());
    assert!(remap_annotations(vec![raw(36, 2)], 25, 12, 40).is_empty());
    assert_eq!(remap_annotations(vec![raw(37, 2)], 25, 12, 40)[0].start, 25);
}

#[test]
fn order_is_preserved_and_fields_carried_through() {
    let anns = vec![
        RawAnnotation {
            start: 13,
            length: 3,
            text: String::from("u8"),
            docs: Some(String::from("first")),
        },
        raw(30, 2),
        RawAnnotation {
            start: 40,
            length: 4,
            text: String::from("String"),
            docs: None,
        },
    ];
    // Preamble 20, header 12, original 60: 13 stays, 30 is dropped (header
    // region [20, 32)), 40 shifts to 28.
    let out = remap_annotations(anns, 20, 12, 60);
    assert_eq!(out.len(), 2);
    assert_eq!(out[0].start, 13);
    assert_eq!(out[0].length, 3);
    assert_eq!(out[0].type_text, "u8");
    assert_eq!(out[0].docs, Some(String::from("first")));
    assert_eq!(out[1].start, 28);
    assert_eq!(out[1].length, 4);
    assert_eq!(out[1].type_text, "String");
    assert_eq!(out[1].docs, None);
}

#[test]
fn empty_input_gives_empty_output() {
    assert!(remap_annotations(Vec::new(), 0, 12, 10).is_empty());
}
