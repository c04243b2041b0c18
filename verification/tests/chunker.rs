use qa_pipeline::chunk::split_text_into_chunks;

#[test]
fn empty_input_yields_no_chunks() {
    let chunks = split_text_into_chunks("");
    assert!(chunks.is_empty());
}

#[test]
fn blank_only_input_yields_no_chunks() {
    let chunks = split_text_into_chunks("\n\n   \n\t\n");
    assert!(chunks.is_empty());
}

#[test]
fn trailing_section_without_blank_line_is_dropped() {
    let chunks = split_text_into_chunks("A\nB\n\nC\n");
    assert_eq!(chunks, vec!["A\nB\n".to_string()]);
}

#[test]
fn unterminated_single_section_yields_no_chunks() {
    let chunks = split_text_into_chunks("A\nB\nC");
    assert!(chunks.is_empty());
}

#[test]
fn section_closed_by_blank_line_is_one_chunk() {
    let chunks = split_text_into_chunks("A\nB\n\n");
    assert_eq!(chunks, vec!["A\nB\n".to_string()]);
}

#[test]
fn two_sections_keep_document_order() {
    let chunks = split_text_into_chunks("one\n\ntwo\nmore\n\n");
    assert_eq!(chunks, vec!["one\n".to_string(), "two\nmore\n".to_string()]);
}

#[test]
fn carriage_returns_before_newlines_are_dropped() {
    let chunks = split_text_into_chunks("A\r\nB\r\n\r\n");
    assert_eq!(chunks, vec!["A\nB\n".to_string()]);
}

#[test]
fn whitespace_only_lines_count_as_blank() {
    let chunks = split_text_into_chunks("  \t\nX\n   \n");
    assert_eq!(chunks, vec!["X\n".to_string()]);
}

#[test]
fn no_chunk_is_ever_empty() {
    let texts = ["", "\n", "a\n\nb\n\n", "\n\n\n", "x", "x\n\n\n\ny\n\n"];
    for t in texts {
        for c in split_text_into_chunks(t) {
            assert!(!c.is_empty());
        }
    }
}

#[test]
fn several_blank_lines_do_not_make_extra_chunks() {
    let chunks = split_text_into_chunks("a\n\n\n\nb\n\n");
    assert_eq!(chunks, vec!["a\n".to_string(), "b\n".to_string()]);
}
