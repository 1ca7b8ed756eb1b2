use s3_transfer::TransferError;
use s3_transfer::upload::UploadResponseData;
use s3_transfer::upload::build_upload_url;
use s3_transfer::upload::interpret_upload_response;
use s3_transfer::upload::parse_upload_response;

#[test]
fn upload_url_percent_encodes_both_parameters() {
    let url = build_upload_url("example.com", "s 1/2");
    assert_eq!(
        url,
        "https://backend-analytics.soly.vn/foxia/upload-profile-v2?domain=example.com&sessionId=s%201%2F2"
    );
}

#[test]
fn url_resolution_prefers_profile_url() {
    let body = "{\"data\":{\"success\":true,\"message\":null,\
                \"profileUrl\":\"https://cdn/p.zip\",\"url\":\"https://cdn/u.zip\"}}";
    let url = interpret_upload_response(200, body).expect("both fields present");
    assert_eq!(url, "https://cdn/p.zip");
}

#[test]
fn url_resolution_falls_back_to_url() {
    let body = "{\"data\":{\"success\":true,\"url\":\"https://cdn/u.zip\"}}";
    let url = interpret_upload_response(200, body).expect("url field present");
    assert_eq!(url, "https://cdn/u.zip");
}

#[test]
fn missing_both_urls_fails() {
    let body = "{\"data\":{\"success\":true,\"message\":\"stored\"}}";
    let err = interpret_upload_response(200, body).expect_err("no URL field");
    assert!(matches!(err, TransferError::MissingUrl));
}

#[test]
fn http_failure_propagates_status_and_body() {
    let err = interpret_upload_response(500, "internal error").expect_err("hard failure");
    match err {
        TransferError::HttpStatus { status, body } => {
            assert_eq!(status, 500);
            assert_eq!(body, "internal error");
        }
        _ => panic!("expected the HTTP status failure"),
    }
}

#[test]
fn http_failure_wins_over_parsing() {
    let body = "{\"data\":{\"success\":false}}";
    let err = interpret_upload_response(503, body).expect_err("hard failure");
    match err {
        TransferError::HttpStatus { status, body: b } => {
            assert_eq!(status, 503);
            assert_eq!(b, body);
        }
        _ => panic!("a non-success status must fail before parsing"),
    }
}

#[test]
fn undecodable_body_is_invalid_response() {
    let err = interpret_upload_response(200, "plain text").expect_err("not JSON");
    match err {
        TransferError::InvalidResponse { body } => assert_eq!(body, "plain text"),
        _ => panic!("expected the invalid-response failure"),
    }
    let err = interpret_upload_response(200, "{\"data\":{}}").expect_err("no success flag");
    assert!(matches!(err, TransferError::InvalidResponse { .. }));
}

#[test]
fn parse_fills_every_field() {
    let body = "{\"data\":{\"success\":false,\"message\":\"m\",\
                \"profileUrl\":\"p\",\"url\":\"u\"}}";
    let resp = parse_upload_response(body).expect("well-formed body");
    assert!(!resp.data.success);
    assert_eq!(resp.data.message.as_deref(), Some("m"));
    assert_eq!(resp.data.profile_url.as_deref(), Some("p"));
    assert_eq!(resp.data.url.as_deref(), Some("u"));
}

#[test]
fn resolve_url_precedence_on_plain_data() {
    let both = UploadResponseData {
        success: true,
        message: None,
        profile_url: Some("p".to_string()),
        url: Some("u".to_string()),
    };
    assert_eq!(both.resolve_url().as_deref(), Some("p"));
    let only_url = UploadResponseData {
        success: true,
        message: None,
        profile_url: None,
        url: Some("u".to_string()),
    };
    assert_eq!(only_url.resolve_url().as_deref(), Some("u"));
    let neither =
        UploadResponseData { success: true, message: None, profile_url: None, url: None };
    assert_eq!(neither.resolve_url(), None);
}
