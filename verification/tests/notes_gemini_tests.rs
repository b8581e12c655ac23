use enja::gemini::{extract_text_from_chunk, feed_stream, process_sse_block, ChunkCandidate};
use enja::gemini::{
    api_error_message, chunk_text, encode_query_component, gemini_request_error, response_text,
    sse_events, sse_payloads, take_sse_blocks, SseItem, SsePayload, TranslateEvent,
};
use enja::notes::{
    ensure_extension, extension_for_mime, normalize_color, normalize_title, prepare_note_image,
    sanitize_file_name, sanitize_path_part, sticky_note_id_from_label, sticky_window_label,
};

#[test]
fn note_titles_and_colors_are_normalized() {
    assert_eq!(normalize_title("   "), "無題のメモ");
    assert_eq!(normalize_title("  買い物  "), "買い物");
    assert_eq!(normalize_title(&"あ".repeat(130)).chars().count(), 120);
    assert_eq!(normalize_color("mint"), "mint");
    assert_eq!(normalize_color("purple"), "lemon");
}

#[test]
fn window_labels_round_trip() {
    assert_eq!(sticky_window_label("abc"), "sticky-abc");
    assert_eq!(sticky_note_id_from_label("sticky-abc").as_deref(), Some("abc"));
    assert_eq!(sticky_note_id_from_label("main"), None);
}

#[test]
fn image_names_are_sanitized() {
    assert_eq!(extension_for_mime("image/jpg").as_deref(), Some("jpg"));
    assert_eq!(extension_for_mime("image/bmp"), None);
    assert_eq!(sanitize_path_part("a/b c-_d.e"), "abc-_de");
    assert_eq!(sanitize_file_name("--my photo!.png..").as_deref(), Some("my-photo-.png"));
    assert_eq!(sanitize_file_name("---"), None);
    assert_eq!(ensure_extension("shot.PNG".to_string(), "png"), "shot.PNG");
    assert_eq!(ensure_extension("shot".to_string(), "png"), "shot.png");
}

#[test]
fn prepared_image_decodes_data_url_and_names_file() {
    let image = prepare_note_image("note/1", "image/png", "data:image/png;base64,aGk=", None, 42)
        .expect("image");
    assert_eq!(image.bytes, b"hi".to_vec());
    assert_eq!(image.dir_part, "note1");
    assert_eq!(image.file_name, "42-image-42.png");
    let named = prepare_note_image("n", "image/gif", "aGk=", Some("cat.gif".to_string()), 7)
        .expect("image");
    assert_eq!(named.file_name, "7-cat.gif");
    assert!(prepare_note_image("n", "image/bmp", "aGk=", None, 1).is_err());
    assert!(prepare_note_image("n", "image/png", "!!!", None, 1).is_err());
}

#[test]
fn query_components_are_percent_encoded() {
    assert_eq!(encode_query_component("Az09-_.~"), "Az09-_.~");
    assert_eq!(encode_query_component("a b/c"), "a%20b%2Fc");
}

#[test]
fn sse_blocks_are_split_at_blank_lines() {
    let mut buffer = String::new();
    let blocks = take_sse_blocks(&mut buffer, "data: 1\r\n\r\ndata: 2\n");
    assert_eq!(blocks, vec!["data: 1".to_string()]);
    assert_eq!(buffer, "data: 2\n");
    let blocks = take_sse_blocks(&mut buffer, "\n");
    assert_eq!(blocks, vec!["data: 2".to_string()]);
    assert_eq!(buffer, "");
}

#[test]
fn sse_payloads_skip_comments_and_stop_at_done() {
    let payloads = sse_payloads(": keep-alive\ndata: {\"a\":1}\n\ndata: [DONE]\ndata: later");
    assert_eq!(
        payloads,
        vec![SsePayload::Data("{\"a\":1}".to_string()), SsePayload::Done]
    );
}

#[test]
fn sse_events_report_chunks_errors_and_done() {
    let (events, stop) = sse_events(vec![
        SseItem::Invalid,
        SseItem::Chunk { text: Some("こん".to_string()) },
        SseItem::Chunk { text: Some(String::new()) },
        SseItem::ApiError { message: None },
        SseItem::Chunk { text: Some("後".to_string()) },
    ]);
    assert!(stop);
    assert_eq!(
        events,
        vec![
            TranslateEvent::Chunk { text: "こん".to_string() },
            TranslateEvent::Error { message: "Gemini API error".to_string() },
        ]
    );
    let (events, stop) = sse_events(vec![SseItem::Done]);
    assert!(stop);
    assert_eq!(events, vec![TranslateEvent::Done]);
}

#[test]
fn generated_text_is_joined_and_must_not_be_blank() {
    assert_eq!(chunk_text(&vec![Some("a".to_string()), None, Some("b".to_string())]).as_deref(), Some("ab"));
    assert_eq!(chunk_text(&vec![None]), None);
    assert_eq!(response_text(&vec!["a".to_string(), "b".to_string()]).unwrap(), "ab");
    assert!(response_text(&vec![" ".to_string()]).is_err());
    assert_eq!(api_error_message(Some("quota".to_string())), "quota");
    assert_eq!(gemini_request_error(false, "x".to_string()), "x");
    assert!(gemini_request_error(true, "x".to_string()).contains("タイムアウト"));
}

#[test]
fn pasted_images_stay_in_their_note_folder() {
    let prepared = enja::notes::prepare_note_image(
        "../../etc",
        "image/png",
        "data:image/png;base64,iVBORw0KGgo=",
        Some("../secret/..".to_string()),
        7,
    )
    .unwrap();
    assert_eq!(prepared.dir_part, "etc");
    assert!(!prepared.file_name.contains('/'));
    assert!(prepared.file_name.starts_with("7-"));
    assert!(prepared.file_name.ends_with(".png"));
}

#[test]
fn chunk_text_joins_every_candidates_parts() {
    let one = vec![ChunkCandidate { parts: Some(vec![Some("A".to_string()), Some("B".to_string())]) }];
    assert_eq!(extract_text_from_chunk(&one).as_deref(), Some("AB"));
    let many = vec![
        ChunkCandidate { parts: Some(vec![Some("翻訳".to_string()), None]) },
        ChunkCandidate { parts: None },
        ChunkCandidate { parts: Some(vec![Some("です".to_string())]) },
    ];
    assert_eq!(extract_text_from_chunk(&many).as_deref(), Some("翻訳です"));
    assert_eq!(extract_text_from_chunk(&Vec::new()), None);
    assert_eq!(extract_text_from_chunk(&vec![ChunkCandidate { parts: Some(vec![None]) }]), None);
}

#[test]
fn stream_blocks_become_events() {
    let (events, stop) = process_sse_block(
        ": keep-alive\ndata: {\"candidates\":[{\"content\":{\"parts\":[{\"text\":\"A\"},{\"text\":\"B\"}]}}]}\ndata: not json\ndata: {\"candidates\":[]}",
    );
    assert_eq!(events, vec![TranslateEvent::Chunk { text: "AB".to_string() }]);
    assert!(!stop);

    let (events, stop) = process_sse_block("data: {\"error\":{\"message\":\"quota\"}}\ndata: [DONE]");
    assert_eq!(events, vec![TranslateEvent::Error { message: "quota".to_string() }]);
    assert!(stop);

    let (events, stop) = process_sse_block("data: {\"error\":{\"code\":500}}");
    assert_eq!(events, vec![TranslateEvent::Error { message: "Gemini API error".to_string() }]);
    assert!(stop);
}

#[test]
fn feed_stream_stops_at_the_first_ending_block() {
    let mut buffer = String::new();
    let chunk = "data: {\"candidates\":[{\"content\":{\"parts\":[{\"text\":\"訳\"}]}}]}\r\n\r\ndata: [DONE]\n\ndata: {\"candidates\":[{\"content\":{\"parts\":[{\"text\":\"x\"}]}}]}\n\ndata: par";
    let (events, stop) = feed_stream(&mut buffer, chunk);
    assert_eq!(events, vec![TranslateEvent::Chunk { text: "訳".to_string() }, TranslateEvent::Done]);
    assert!(stop);
    assert_eq!(buffer, "data: par");

    let mut buffer = "data: {\"candidates\":[{\"content\":{\"parts\":[{\"te".to_string();
    let (events, stop) = feed_stream(&mut buffer, "xt\":\"続き\"}]}}]}\n\n");
    assert_eq!(events, vec![TranslateEvent::Chunk { text: "続き".to_string() }]);
    assert!(!stop);
    assert_eq!(buffer, "");
}
