use twoslash::wrap::{prepare_snippet, wrap_snippet};

#[test]
fn wrap_statement_snippet() {
    let (wrapped, preamble_len, prefix_len) = prepare_snippet(b"let y = 5;");
    assert_eq!(wrapped, b"fn main() {\nlet y = 5;\n}".to_vec());
    assert_eq!(preamble_len, 0);
    assert_eq!(prefix_len, 12);
}

#[test]
fn wrap_mixed_snippet() {
    let code = "fn helper() -> i32 { 1 }\nlet z = helper();";
    let (wrapped, preamble_len, prefix_len) = prepare_snippet(code.as_bytes());
    assert_eq!(
        String::from_utf8(wrapped).unwrap(),
        "fn helper() -> i32 { 1 }\nfn main() {\nlet z = helper();\n}"
    );
    assert_eq!(preamble_len, 25);
    assert_eq!(prefix_len, 12);
}

#[test]
fn empty_body_is_identity() {
    let (wrapped, preamble_len, prefix_len) = wrap_snippet(b"use foo::Bar;\n", b"");
    assert_eq!(wrapped, b"use foo::Bar;\n".to_vec());
    assert_eq!(preamble_len, 0);
    assert_eq!(prefix_len, 0);
}

#[test]
fn complete_program_is_not_wrapped() {
    let code = "fn main() {\n    let x = 1;\n}\n";
    let (wrapped, preamble_len, prefix_len) = prepare_snippet(code.as_bytes());
    assert_eq!(String::from_utf8(wrapped).unwrap(), code);
    assert_eq!(preamble_len, 0);
    assert_eq!(prefix_len, 0);
}

#[test]
fn empty_snippet_is_not_wrapped() {
    let (wrapped, preamble_len, prefix_len) = prepare_snippet(b"");
    assert_eq!(wrapped, Vec::<u8>::new());
    assert_eq!(preamble_len, 0);
    assert_eq!(prefix_len, 0);
}

#[test]
fn wrap_concatenates_exactly() {
    let (wrapped, _, _) = wrap_snippet(b"use a;\n", b"f();");
    assert_eq!(
        String::from_utf8(wrapped).unwrap(),
        "use a;\nfn main() {\nf();\n}"
    );
}
