use enja::text_diff::{changed_span, utf16_offset_to_byte_index, utf16_range_text, TextRange};

#[test]
fn changed_span_tracks_utf16_ranges() {
    let span = changed_span("絵文字🙂タイプレスです", "絵文字🙂Typelessです").expect("span");

    assert_eq!(span.from, "タイプレス");
    assert_eq!(span.to, "Typeless");
    assert_eq!(span.old_range.location, "絵文字🙂".encode_utf16().count());
    assert_eq!(span.old_range.length, "タイプレス".encode_utf16().count());
}

#[test]
fn utf16_range_text_reads_ranges_with_surrogates() {
    let value = "絵文字🙂タイプレス";
    let range = TextRange {
        location: "絵文字🙂".encode_utf16().count(),
        length: "タイプレス".encode_utf16().count(),
    };

    assert_eq!(utf16_range_text(value, range).as_deref(), Some("タイプレス"));
}

#[test]
fn changed_span_of_equal_texts_is_none() {
    assert!(changed_span("同じ", "同じ").is_none());
}

#[test]
fn changed_span_reports_pure_insertion() {
    let span = changed_span("ab", "aXb").expect("span");
    assert_eq!(span.from, "");
    assert_eq!(span.to, "X");
    assert_eq!(span.old_range.location, 1);
    assert_eq!(span.new_range.length, 1);
}

#[test]
fn utf16_offset_inside_a_surrogate_pair_is_no_boundary() {
    let value = "🙂a";
    assert_eq!(utf16_offset_to_byte_index(value, 0), Some(0));
    assert_eq!(utf16_offset_to_byte_index(value, 1), None);
    assert_eq!(utf16_offset_to_byte_index(value, 2), Some(4));
    assert_eq!(utf16_offset_to_byte_index(value, 3), Some(5));
    assert_eq!(utf16_offset_to_byte_index(value, 4), None);
}

#[test]
fn text_range_overlap_and_end() {
    let a = TextRange { location: 2, length: 3 };
    let b = TextRange { location: 4, length: 1 };
    let c = TextRange { location: 5, length: 2 };
    assert_eq!(a.end(), 5);
    assert!(a.overlaps(b));
    assert!(!a.overlaps(c));
}
