use freemarker_lsp::text::{
    ContentChange, DocumentError, EditDescriptor, Point, Position, PositionEncodingKind, Range,
    TextDocument,
};

fn range(l0: u32, c0: u32, l1: u32, c1: u32) -> Range {
    Range {
        start: Position { line: l0, character: c0 },
        end: Position { line: l1, character: c1 },
    }
}

#[test]
fn utf16_edit_replaces_and_describes_in_bytes() {
    let mut doc = TextDocument::new("héllo\nwörld");
    let edit = doc
        .apply_range_edit(range(1, 1, 1, 2), "o", PositionEncodingKind::UTF16)
        .unwrap();
    assert_eq!(doc.to_text(), "héllo\nworld");
    assert_eq!(
        edit,
        EditDescriptor {
            start_byte: 8,
            old_end_byte: 10,
            new_end_byte: 9,
            start_position: Point { row: 1, column: 1 },
            old_end_position: Point { row: 1, column: 3 },
            new_end_position: Point { row: 1, column: 2 },
        }
    );
}

#[test]
fn utf8_offsets_inside_a_character_take_that_character() {
    let mut doc = TextDocument::new("héllo");
    // byte 2 lies inside 'é', byte 3 starts the first 'l'
    let edit = doc
        .apply_range_edit(range(0, 2, 0, 3), "e", PositionEncodingKind::UTF8)
        .unwrap();
    assert_eq!(doc.to_text(), "hello");
    assert_eq!(edit.start_byte, 1);
    assert_eq!(edit.old_end_byte, 3);
    assert_eq!(edit.new_end_byte, 2);
}

#[test]
fn utf32_counts_scalar_values_and_astral_characters() {
    let mut doc = TextDocument::new("a😀b\nc");
    let edit = doc
        .apply_range_edit(range(0, 1, 0, 2), "", PositionEncodingKind::UTF32)
        .unwrap();
    assert_eq!(doc.to_text(), "ab\nc");
    assert_eq!(edit.start_byte, 1);
    assert_eq!(edit.old_end_byte, 5);
    assert_eq!(edit.new_end_byte, 1);
    let mut doc16 = TextDocument::new("a😀b\nc");
    doc16
        .apply_range_edit(range(0, 1, 0, 3), "", PositionEncodingKind::UTF16)
        .unwrap();
    assert_eq!(doc16.to_text(), "ab\nc");
}

#[test]
fn multi_line_insert_reports_new_end_point() {
    let mut doc = TextDocument::new("ab\ncd");
    let edit = doc
        .apply_range_edit(range(0, 1, 0, 1), "X\nYZ", PositionEncodingKind::UTF8)
        .unwrap();
    assert_eq!(doc.to_text(), "aX\nYZb\ncd");
    assert_eq!(edit.start_byte, 1);
    assert_eq!(edit.old_end_byte, 1);
    assert_eq!(edit.new_end_byte, 5);
    assert_eq!(edit.new_end_position, Point { row: 1, column: 2 });
}

#[test]
fn edit_spanning_lines_joins_them() {
    let mut doc = TextDocument::new("one\ntwo\nthree");
    let edit = doc
        .apply_range_edit(range(0, 2, 2, 1), "-", PositionEncodingKind::UTF8)
        .unwrap();
    assert_eq!(doc.to_text(), "on-hree");
    assert_eq!(edit.start_position, Point { row: 0, column: 2 });
    assert_eq!(edit.old_end_position, Point { row: 2, column: 1 });
    assert_eq!(edit.new_end_position, Point { row: 0, column: 3 });
    assert_eq!(doc.len_lines(), 1);
}

#[test]
fn out_of_bounds_line_is_refused_and_text_kept() {
    let mut doc = TextDocument::new("ab\ncd");
    let r = doc.apply_range_edit(range(5, 0, 5, 0), "x", PositionEncodingKind::UTF8);
    assert_eq!(r, Err(DocumentError::PositionOutOfBounds(5, 0)));
    let r = doc.apply_range_edit(range(0, 0, 4, 1), "x", PositionEncodingKind::UTF16);
    assert_eq!(r, Err(DocumentError::PositionOutOfBounds(4, 1)));
    assert_eq!(doc.to_text(), "ab\ncd");
}

#[test]
fn out_of_bounds_character_is_refused() {
    let mut doc = TextDocument::new("ab\ncd");
    // line 0 holds "ab\n": three characters, so offset 4 is past it
    let r = doc.apply_range_edit(range(0, 4, 1, 0), "x", PositionEncodingKind::UTF32);
    assert_eq!(r, Err(DocumentError::PositionOutOfBounds(0, 4)));
    // the end of the line, line feed included, is still inside
    assert!(doc
        .apply_range_edit(range(0, 3, 0, 3), "!", PositionEncodingKind::UTF32)
        .is_ok());
    assert_eq!(doc.to_text(), "ab\n!cd");
}

#[test]
fn inverted_range_is_refused() {
    let mut doc = TextDocument::new("abc");
    let r = doc.apply_range_edit(range(0, 2, 0, 1), "x", PositionEncodingKind::UTF8);
    assert_eq!(r, Err(DocumentError::InvertedRange(0, 2)));
    assert_eq!(doc.to_text(), "abc");
}

#[test]
fn full_replace_then_whole_range_round_trips() {
    let mut doc = TextDocument::new("old");
    let text = "<#assign ü = 1>\n日本\n";
    doc.apply_full_replace(text);
    assert_eq!(doc.get_text_range(0, text.len()), text);
    assert_eq!(doc.len_bytes(), text.len());
}

#[test]
fn content_change_without_range_replaces_everything() {
    let mut doc = TextDocument::new("abc");
    let change = ContentChange { range: None, text: "xyz\n".to_string() };
    assert_eq!(doc.apply_content_change(&change, PositionEncodingKind::UTF16), Ok(None));
    assert_eq!(doc.to_text(), "xyz\n");
    let change = ContentChange { range: Some(range(0, 0, 0, 1)), text: "W".to_string() };
    let r = doc.apply_content_change(&change, PositionEncodingKind::UTF16);
    assert!(matches!(r, Ok(Some(_))));
    assert_eq!(doc.to_text(), "Wyz\n");
}

#[test]
fn lines_and_preceding_character() {
    let doc = TextDocument::new("<#a>\n<@b");
    assert_eq!(doc.get_line(0), Some("<#a>\n".to_string()));
    assert_eq!(doc.get_line(1), Some("<@b".to_string()));
    assert_eq!(doc.get_line(2), None);
    assert_eq!(doc.line_byte_len(0), 4);
    assert_eq!(doc.line_byte_len(1), 3);
    assert_eq!(
        doc.char_before(Position { line: 1, character: 2 }, PositionEncodingKind::UTF8),
        Some('@')
    );
    assert_eq!(
        doc.char_before(Position { line: 0, character: 0 }, PositionEncodingKind::UTF8),
        None
    );
    assert!(doc.contains_char(0, 4, '#'));
    assert!(!doc.contains_char(0, 4, '@'));
}

fn char_index(text: &str, line: u32, character: u32, enc: PositionEncodingKind) -> usize {
    let chars: Vec<char> = text.chars().collect();
    let mut start = 0;
    let mut l = 0;
    while l < line {
        while chars[start] != '\n' {
            start += 1;
        }
        start += 1;
        l += 1;
    }
    let mut i = start;
    let mut units = 0u32;
    while units < character {
        let c = chars[i];
        let w = match enc {
            PositionEncodingKind::UTF8 => c.len_utf8() as u32,
            PositionEncodingKind::UTF16 => c.len_utf16() as u32,
            PositionEncodingKind::UTF32 => 1,
        };
        units += w;
        i += 1;
    }
    i
}

#[test]
fn edits_agree_with_a_plain_string_model_in_every_encoding() {
    let encodings = [
        PositionEncodingKind::UTF8,
        PositionEncodingKind::UTF16,
        PositionEncodingKind::UTF32,
    ];
    let start = "a<#if x>\nß😀y</#if>\nz";
    for enc in encodings {
        let mut doc = TextDocument::new(start);
        let mut model: Vec<char> = start.chars().collect();
        let edits: [(u32, u32, u32, u32, &str); 4] = [
            (0, 1, 0, 1, "Q"),
            (1, 0, 1, 0, "n\n"),
            (0, 0, 2, 0, ""),
            (0, 0, 0, 0, "é"),
        ];
        for (l0, c0, l1, c1, t) in edits {
            let text: String = model.iter().collect();
            let a = char_index(&text, l0, c0, enc);
            let b = char_index(&text, l1, c1, enc);
            doc.apply_range_edit(range(l0, c0, l1, c1), t, enc).unwrap();
            let mut next: Vec<char> = model[..a].to_vec();
            next.extend(t.chars());
            next.extend_from_slice(&model[b..]);
            model = next;
            assert_eq!(doc.to_text(), model.iter().collect::<String>());
        }
    }
}

#[test]
fn empty_document_accepts_an_insert_at_its_start() {
    let mut doc = TextDocument::new("");
    assert_eq!(doc.len_chars(), 0);
    assert_eq!(doc.len_lines(), 1);
    assert_eq!(doc.get_line(0), Some(String::new()));
    let edit = doc
        .apply_range_edit(range(0, 0, 0, 0), "日本", PositionEncodingKind::UTF16)
        .unwrap();
    assert_eq!(doc.to_text(), "日本");
    assert_eq!(doc.len_chars(), 2);
    assert_eq!(doc.len_bytes(), 6);
    assert_eq!(edit.new_end_byte, 6);
    assert_eq!(edit.new_end_position, Point { row: 0, column: 6 });
    assert_eq!(
        doc.apply_range_edit(range(0, 1, 0, 1), "x", PositionEncodingKind::UTF32)
            .map(|e| e.start_byte),
        Ok(3)
    );
    assert_eq!(doc.to_text(), "日x本");
}
