use rcurl::materialize::{
    parse_content_length, plan_materialization, run_download, terminal_print_action,
    MaterializePlan, PrintAction, ProgressState, TERMINAL_BODY_CEILING,
};

#[test]
fn headers_only_wins_over_everything() {
    let plan = plan_materialization(
        true,
        &Some("out.bin".to_string()),
        &Some("999999999999".to_string()),
    );
    assert!(matches!(plan, MaterializePlan::HeadersOnly));
}

#[test]
fn oversized_terminal_body_is_refused() {
    let plan = plan_materialization(false, &None, &Some("104857601".to_string()));
    assert!(matches!(plan, MaterializePlan::RefuseTooLarge));
}

#[test]
fn body_at_the_ceiling_still_prints() {
    assert_eq!(TERMINAL_BODY_CEILING, 104857600);
    let plan = plan_materialization(false, &None, &Some("104857600".to_string()));
    assert!(matches!(plan, MaterializePlan::BufferAndPrint));
}

#[test]
fn missing_length_prints_to_terminal() {
    let plan = plan_materialization(false, &None, &None);
    assert!(matches!(plan, MaterializePlan::BufferAndPrint));
}

#[test]
fn file_sink_is_not_subject_to_the_ceiling() {
    let plan = plan_materialization(
        false,
        &Some("out.bin".to_string()),
        &Some("999999999999".to_string()),
    );
    match plan {
        MaterializePlan::StreamToFile { path, expected_len } => {
            assert_eq!(path, "out.bin");
            assert_eq!(expected_len, 999999999999);
        },
        _ => panic!("expected a file plan"),
    }
}

#[test]
fn unreadable_length_streams_as_unknown() {
    let plan = plan_materialization(false, &Some("f".to_string()), &Some("abc".to_string()));
    match plan {
        MaterializePlan::StreamToFile { expected_len, .. } => assert_eq!(expected_len, 0),
        _ => panic!("expected a file plan"),
    }
}

#[test]
fn content_length_parses_plain_decimals_only() {
    assert_eq!(parse_content_length(&Some("500000".to_string())), Some(500000));
    assert_eq!(parse_content_length(&Some("0".to_string())), Some(0));
    assert_eq!(parse_content_length(&Some("".to_string())), None);
    assert_eq!(parse_content_length(&Some("12x".to_string())), None);
    assert_eq!(parse_content_length(&Some("99999999999999999999999".to_string())), None);
    assert_eq!(parse_content_length(&None), None);
}

#[test]
fn progress_reaches_the_total_exactly_once() {
    let chunks: Vec<u64> = vec![100000, 100000, 100000, 100000, 100000];
    let (downloaded, completions) = run_download(500000, &chunks);
    assert_eq!(downloaded, 500000);
    assert_eq!(completions, 1);
}

#[test]
fn progress_never_passes_the_total() {
    let chunks: Vec<u64> = vec![400000, 400000];
    let (downloaded, completions) = run_download(500000, &chunks);
    assert_eq!(downloaded, 500000);
    assert_eq!(completions, 1);
}

#[test]
fn short_download_never_completes() {
    let chunks: Vec<u64> = vec![100, 200];
    let (downloaded, completions) = run_download(500000, &chunks);
    assert_eq!(downloaded, 300);
    assert_eq!(completions, 0);
}

#[test]
fn advance_reports_the_completing_chunk() {
    let mut st = ProgressState::new(10);
    assert!(!st.advance(4));
    assert!(st.advance(6));
    assert!(!st.advance(1));
    assert_eq!(st.downloaded, 10);
}

#[test]
fn invalid_utf8_warns_instead_of_printing() {
    assert!(matches!(terminal_print_action(true), PrintAction::PrintBody));
    assert!(matches!(terminal_print_action(false), PrintAction::WarnNotUtf8));
}
