use scriptscore_state::report::{
    canvas_comment_contains_generated_report, escape_html, escape_preserving_line_breaks, jpeg_data_uri,
    report_asset_name, report_asset_placeholder, report_asset_prewarm_worker_count, sanitize_asset_component,
    report_asset_record, report_asset_sources, sha256_hex, substitute_report_asset_sources, wrap_generated_report_comment, MAX_REPORT_ASSET_PREWARM_WORKERS,
};

#[test]
fn canvas_report_detection_matches_marker_only() {
    assert!(canvas_comment_contains_generated_report("<!-- results-report:v1 -->"));
    assert!(canvas_comment_contains_generated_report(
        "\u{2063}\u{2063}\u{200B}\u{200D}\u{2060}\u{200C}\u{2063}\u{200B}<p>anything</p>"
    ));
    assert!(canvas_comment_contains_generated_report(
        "<div style=\"display:none\">results-report:v1; fingerprint=fp_1</div>"
    ));
    assert!(!canvas_comment_contains_generated_report("Teacher comment"));
}

#[test]
fn report_asset_prewarm_worker_count_stays_bounded_by_submission_count_and_limit() {
    assert_eq!(report_asset_prewarm_worker_count(1, Some(8)), 1);
    assert_eq!(report_asset_prewarm_worker_count(2, Some(8)), 2);
    assert!(report_asset_prewarm_worker_count(16, Some(64)) <= MAX_REPORT_ASSET_PREWARM_WORKERS);
    assert_eq!(report_asset_prewarm_worker_count(16, None), 2);
    assert_eq!(report_asset_prewarm_worker_count(0, Some(8)), 1);
}

#[test]
fn html_escaping_replaces_markup_characters() {
    assert_eq!(escape_html("<a href=\"x\">Tom & Jerry's</a>"), "&lt;a href=&quot;x&quot;&gt;Tom &amp; Jerry&#39;s&lt;/a&gt;");
    assert_eq!(escape_preserving_line_breaks("a<b\nc"), "a&lt;b<br />c");
}

#[test]
fn generated_comment_carries_both_markers_and_detects_itself() {
    let comment = wrap_generated_report_comment("<p>Report</p>", Some("fp_1"));
    assert!(comment.starts_with("\u{2063}\u{2063}"));
    assert!(comment.contains("<!-- results-report:v1; fingerprint=fp_1 -->"));
    assert!(comment.contains("display:none"));
    assert!(comment.ends_with("<p>Report</p>"));
    assert!(canvas_comment_contains_generated_report(&comment));
    let pending = wrap_generated_report_comment("<p>Report</p>", Some("  "));
    assert!(pending.contains("fingerprint=pending"));
}

#[test]
fn asset_names_and_placeholders() {
    assert_eq!(sanitize_asset_component("q 1/ä"), "q_1__");
    assert_eq!(report_asset_name("q1"), "q1.jpg");
    assert_eq!(report_asset_placeholder("q1.jpg"), "__RESULTS_LMS_ASSET_q1.jpg__");
    let template = format!("<img src=\"{}\">", report_asset_placeholder("q1.jpg"));
    let sources = vec![("q1.jpg".to_string(), "data:image/jpeg;base64,AAAA".to_string())];
    assert_eq!(substitute_report_asset_sources(&template, &sources), "<img src=\"data:image/jpeg;base64,AAAA\">");
}

#[test]
fn jpeg_data_uri_encodes_bytes_in_base64() {
    assert_eq!(jpeg_data_uri(&vec![0xff, 0xd8, 0xff]), "data:image/jpeg;base64,/9j/");
    assert_eq!(jpeg_data_uri(&b"Man".to_vec()), "data:image/jpeg;base64,TWFu");
    assert_eq!(jpeg_data_uri(&b"Ma".to_vec()), "data:image/jpeg;base64,TWE=");
    assert_eq!(jpeg_data_uri(&b"M".to_vec()), "data:image/jpeg;base64,TQ==");
    assert_eq!(jpeg_data_uri(&vec![0xfb, 0xef, 0xbe, 0x00]), "data:image/jpeg;base64,++++AA==");
}

#[test]
fn sha256_hex_of_known_input() {
    assert_eq!(sha256_hex(&b"abc".to_vec()), "ba7816bf8f01cfea414140de5dae2223b00361a396177a9cb410ff61f20015ad");
    assert_eq!(sha256_hex(&Vec::new()).len(), 64);
}

#[test]
fn report_image_sources_are_jpeg_data_uris_and_records_carry_the_digest() {
    let sources = report_asset_sources(&vec![("q_1.jpg".to_string(), b"abc".to_vec())]);
    assert_eq!(sources, vec![("q_1.jpg".to_string(), "data:image/jpeg;base64,YWJj".to_string())]);
    let record = report_asset_record("q 1", "/p/q_1.jpg", &b"abc".to_vec());
    assert_eq!(record.question_id, "q 1");
    assert_eq!(record.local_asset_name, "q_1.jpg");
    assert_eq!(record.local_file_path, "/p/q_1.jpg");
    assert_eq!(record.asset_fingerprint, "ba7816bf8f01cfea414140de5dae2223b00361a396177a9cb410ff61f20015ad");
}
