use polyglot_ls::coords::{IndexedText, TextPosition, TextRange};
use polyglot_ls::document::get_subtext;
use polyglot_ls::text::{concat_str, indent_lines, indent_text, replace_all, trim_last_newline, trim_suffix};

fn range(sl: u32, sc: u32, el: u32, ec: u32) -> TextRange {
    TextRange {
        start: TextPosition { line: sl, character: sc },
        end: TextPosition { line: el, character: ec },
    }
}

#[test]
fn indent_text_prefixes_each_line() {
    assert_eq!(indent_text("a\nb", 4), "    a\n    b");
    assert_eq!(indent_text("a\nb\n", 2), "  a\n  b");
    assert_eq!(indent_text("", 3), "");
    assert_eq!(indent_text("x\r\ny", 1), " x\n y");
    assert_eq!(indent_text("a\n\nb", 2), "  a\n  \n  b");
}

#[test]
fn indent_lines_keeps_trailing_newline() {
    assert_eq!(indent_lines("a\nb", 2), "  a\n  b\n");
    assert_eq!(indent_lines("", 2), "");
}

#[test]
fn reindent_with_zero_columns_is_stable() {
    for (t, n) in [("a\nb", 4usize), ("def f():\n    pass", 8), ("x\n\ny\n", 2), ("", 0), ("one", 0)] {
        let once = indent_text(t, n);
        assert_eq!(indent_text(&once, 0), once);
    }
}

#[test]
fn reindent_excluded_case_changes_text() {
    let once = indent_text("a\n\n", 0);
    assert_eq!(once, "a\n");
    assert_eq!(indent_text(&once, 0), "a");
}

#[test]
fn trim_last_newline_drops_one() {
    assert_eq!(trim_last_newline("a\n\n"), "a\n");
    assert_eq!(trim_last_newline("a"), "a");
    assert_eq!(trim_last_newline(""), "");
}

#[test]
fn trim_suffix_drops_last_char_on_match() {
    assert_eq!(trim_suffix("abc\n", "\n"), "abc");
    assert_eq!(trim_suffix("abc", "x"), "abc");
    assert_eq!(trim_suffix("", ""), "");
}

#[test]
fn replace_all_is_leftmost_non_overlapping() {
    assert_eq!(replace_all("aaa", "aa", "b"), "ba");
    assert_eq!(replace_all("x<<<n>>>y<<<n>>>", "<<<n>>>", "Z"), "xZyZ");
    assert_eq!(replace_all("none", "q", "r"), "none");
    assert_eq!(concat_str("ab", "cd"), "abcd");
}

#[test]
fn ascii_range_translates_to_itself() {
    let idx = IndexedText::new("hello world\nsecond");
    let r = range(0, 5, 0, 5);
    assert_eq!(idx.wire_to_internal(&r), Some(r));
    assert_eq!(idx.internal_to_wire(&r), Some(r));
}

#[test]
fn multibyte_offsets_differ_between_encodings() {
    // 'é' is 2 bytes / 1 unit, '😀' is 4 bytes / 2 units.
    let idx = IndexedText::new("aé😀b\nz");
    let wire = range(0, 4, 1, 1);
    let internal = idx.wire_to_internal(&wire).unwrap();
    assert_eq!(internal, range(0, 7, 1, 1));
    assert_eq!(idx.internal_to_wire(&internal), Some(wire));
}

#[test]
fn round_trip_over_every_boundary() {
    let text = "x😀é\n\ny中z";
    let idx = IndexedText::new(text);
    for (line, s) in text.split('\n').enumerate() {
        let mut units = 0u32;
        let mut offs = vec![0u32];
        for c in s.chars() {
            units += c.len_utf16() as u32;
            offs.push(units);
        }
        for &u in &offs {
            let r = range(line as u32, u, line as u32, u);
            let i = idx.wire_to_internal(&r).unwrap();
            assert_eq!(idx.internal_to_wire(&i), Some(r));
        }
    }
}

#[test]
fn out_of_bounds_positions_do_not_translate() {
    let idx = IndexedText::new("ab\ncd");
    assert_eq!(idx.wire_to_internal(&range(2, 0, 2, 0)), None);
    assert_eq!(idx.wire_to_internal(&range(0, 3, 0, 3)), None);
    let emoji = IndexedText::new("😀");
    assert_eq!(emoji.wire_to_internal(&range(0, 1, 0, 1)), None);
    assert_eq!(emoji.internal_to_wire(&range(0, 2, 0, 2)), None);
    assert_eq!(emoji.wire_to_internal(&range(0, 2, 0, 2)), Some(range(0, 4, 0, 4)));
}

#[test]
fn subtext_single_and_multi_line() {
    let text = "first line\nsecond\nthird line";
    assert_eq!(get_subtext(text, 0, 6, 0, 10), Some("line".to_string()));
    assert_eq!(get_subtext(text, 0, 6, 2, 5), Some("line\nsecond\nthird".to_string()));
    assert_eq!(get_subtext(text, 0, 6, 1, 3), Some("line\nsec".to_string()));
    assert_eq!(get_subtext(text, 5, 0, 5, 1), None);
    assert_eq!(get_subtext(text, 0, 5, 0, 2), None);
    assert_eq!(get_subtext("é", 0, 1, 0, 2), None);
}
