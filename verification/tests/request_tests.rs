use rcurl::cli::Cli;
use rcurl::request::{
    boundary_of_content_type, build_request_plan, encode_multipart, form_part_for_field,
    form_part_for_file, multipart_content_type, parse_form_field, parse_header_line,
    resolve_method, FormPart, InputError, ParsedFormField,
};

fn base_cli() -> Cli {
    let mut cli = Cli::new();
    cli.url = Some("http://example.com/".to_string());
    cli
}

#[test]
fn method_defaults_to_get() {
    assert_eq!(resolve_method(&base_cli(), false), "GET");
}

#[test]
fn body_implies_post_and_upload_implies_put() {
    let mut cli = base_cli();
    cli.body_option = Some("a=b".to_string());
    assert_eq!(resolve_method(&cli, false), "POST");
    let mut cli2 = base_cli();
    cli2.uploadfile_option = Some("f.txt".to_string());
    assert_eq!(resolve_method(&cli2, false), "PUT");
}

#[test]
fn explicit_method_wins_over_inference() {
    let mut cli = base_cli();
    cli.body_option = Some("a=b".to_string());
    cli.method_option = Some("PATCH".to_string());
    assert_eq!(resolve_method(&cli, true), "PATCH");
}

#[test]
fn headers_only_is_the_final_override() {
    let mut cli = base_cli();
    cli.body_option = Some("a=b".to_string());
    cli.method_option = Some("PATCH".to_string());
    cli.header_option = true;
    assert_eq!(resolve_method(&cli, true), "HEAD");
}

#[test]
fn header_lines_split_at_the_first_colon() {
    let (name, value) = parse_header_line("Content-Type: application/json").unwrap();
    assert_eq!(name, "content-type");
    assert_eq!(value, "application/json");
    let (n2, v2) = parse_header_line("X-Odd:a:b").unwrap();
    assert_eq!(n2, "x-odd");
    assert_eq!(v2, "a:b");
}

#[test]
fn header_without_separator_is_an_input_error() {
    assert!(matches!(parse_header_line("NoColonHere"), Err(InputError::MalformedHeader)));
}

#[test]
fn baseline_headers_are_present_and_overridable() {
    let cli = base_cli();
    let plan = build_request_plan(&cli, None, &Vec::new(), None).unwrap();
    assert_eq!(plan.method, "GET");
    assert!(plan.headers.iter().any(|(n, v)| n == "accept" && v == "*/*"));
    assert!(plan.headers.iter().any(|(n, v)| n == "user-agent" && v == "rcurl/0.1.0"));
    assert!(plan.body.is_empty());

    let mut cli2 = base_cli();
    cli2.headers = vec!["User-Agent: custom/1".to_string()];
    let plan2 = build_request_plan(&cli2, None, &Vec::new(), None).unwrap();
    let uas: Vec<_> = plan2.headers.iter().filter(|(n, _)| n == "user-agent").collect();
    assert_eq!(uas.len(), 1);
    assert_eq!(uas[0].1, "custom/1");
}

#[test]
fn literal_body_sets_urlencoded_content_type() {
    let mut cli = base_cli();
    cli.body_option = Some("k=v".to_string());
    let plan = build_request_plan(&cli, None, &Vec::new(), None).unwrap();
    assert!(plan.headers.iter().any(|(n, v)| n == "content-type"
        && v == "application/x-www-form-urlencoded"));
    assert_eq!(plan.body, b"k=v".to_vec());
    // a user header overrides the implied content type
    cli.headers = vec!["Content-Type: application/json".to_string()];
    let plan2 = build_request_plan(&cli, None, &Vec::new(), None).unwrap();
    let cts: Vec<_> = plan2.headers.iter().filter(|(n, _)| n == "content-type").collect();
    assert_eq!(cts.len(), 1);
    assert_eq!(cts[0].1, "application/json");
}

#[test]
fn upload_bytes_become_the_body() {
    let mut cli = base_cli();
    cli.uploadfile_option = Some("f.bin".to_string());
    let plan = build_request_plan(&cli, Some(vec![1u8, 2, 3]), &Vec::new(), None).unwrap();
    assert_eq!(plan.method, "PUT");
    assert_eq!(plan.body, vec![1u8, 2, 3]);
}

#[test]
fn malformed_user_header_fails_the_build() {
    let mut cli = base_cli();
    cli.headers = vec!["fine: yes".to_string(), "broken".to_string()];
    assert!(matches!(
        build_request_plan(&cli, None, &Vec::new(), None),
        Err(InputError::MalformedHeader)
    ));
}

#[test]
fn form_fields_split_at_the_first_equals() {
    match parse_form_field("name=value=more").unwrap() {
        ParsedFormField::Field { name, value } => {
            assert_eq!(name, "name");
            assert_eq!(value, "value=more");
        },
        _ => panic!("expected a literal field"),
    }
}

#[test]
fn at_sign_marks_a_file_attachment() {
    match parse_form_field("photo=@/tmp/cat.png").unwrap() {
        ParsedFormField::FilePath { name, path } => {
            assert_eq!(name, "photo");
            assert_eq!(path, "/tmp/cat.png");
        },
        _ => panic!("expected a file field"),
    }
}

#[test]
fn form_field_without_equals_is_an_input_error() {
    assert!(matches!(parse_form_field("oops"), Err(InputError::MalformedFormField)));
}

#[test]
fn multipart_document_bytes_are_exact() {
    let parts = vec![FormPart {
        name: "cute".to_string(),
        filename: None,
        content_type: None,
        data: b"yes".to_vec(),
    }];
    let doc = encode_multipart("XYZ", &parts);
    let expected = b"--XYZ\r\nContent-Disposition: form-data; name=\"cute\"\r\n\r\nyes\r\n--XYZ--\r\n";
    assert_eq!(doc, expected.to_vec());
}

#[test]
fn multipart_file_part_carries_filename_and_type() {
    let parts = vec![FormPart {
        name: "f".to_string(),
        filename: Some("a.txt".to_string()),
        content_type: Some("text/plain".to_string()),
        data: b"hi".to_vec(),
    }];
    let doc = encode_multipart("B", &parts);
    let expected = b"--B\r\nContent-Disposition: form-data; name=\"f\"; filename=\"a.txt\"\r\nContent-Type: text/plain\r\n\r\nhi\r\n--B--\r\n";
    assert_eq!(doc, expected.to_vec());
}

#[test]
fn drawn_content_type_carries_a_fresh_boundary() {
    let ct = multipart_content_type();
    assert!(ct.starts_with("multipart/form-data; boundary="));
    let boundary = boundary_of_content_type(&ct).unwrap();
    assert_eq!(boundary.chars().count(), 68);
    assert!(!boundary.contains('\r') && !boundary.contains('\n') && !boundary.contains('"'));
    // two draws must not collide
    let ct2 = multipart_content_type();
    assert_ne!(ct, ct2);
}

#[test]
fn file_parts_guess_their_type_from_the_extension() {
    let part = form_part_for_file("photo".to_string(), "/tmp/cat.png", vec![7u8]).unwrap();
    assert_eq!(part.filename.as_deref(), Some("cat.png"));
    assert_eq!(part.content_type.as_deref(), Some("image/png"));
    assert_eq!(part.data, vec![7u8]);
    let part2 = form_part_for_file("blob".to_string(), "/tmp/data.qqq", vec![]).unwrap();
    assert_eq!(part2.content_type.as_deref(), Some("application/octet-stream"));
}

#[test]
fn a_path_without_a_file_name_is_refused() {
    assert!(matches!(
        form_part_for_file("x".to_string(), "/tmp/dir/", vec![]),
        Err(InputError::MissingFileName)
    ));
}

#[test]
fn literal_parts_carry_their_value_bytes() {
    let part = form_part_for_field("k".to_string(), "v1");
    assert_eq!(part.data, b"v1".to_vec());
    assert!(part.filename.is_none() && part.content_type.is_none());
}

#[test]
fn form_requests_post_a_multipart_body() {
    let cli = base_cli();
    let ct = multipart_content_type();
    let parts = vec![form_part_for_field("a".to_string(), "b")];
    let plan = build_request_plan(&cli, None, &parts, Some(ct.clone())).unwrap();
    assert_eq!(plan.method, "POST");
    assert!(plan.headers.iter().any(|(n, v)| n == "content-type" && *v == ct));
    let boundary = boundary_of_content_type(&ct).unwrap();
    let expected = encode_multipart(&boundary, &parts);
    assert_eq!(plan.body, expected);
}
