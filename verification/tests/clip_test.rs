use image_tags::clip::{
    after_body, after_error_text, after_send, clip_request, decode_body, read_clip_member,
    read_encoded, ClipConfig, ClipStep, MemberReading, SendReply,
};
use image_tags::embedding::is_valid_embedding;
use image_tags::error::ImageAnalysisError;
use image_tags::json::Member;

fn config(url: &str, model_name: &str) -> ClipConfig {
    ClipConfig { url: url.to_owned(), model_name: model_name.to_owned(), timeout: 30 }
}

fn failure(error: &str) -> ImageAnalysisError {
    ImageAnalysisError::ClipEncodingError { error: error.to_owned() }
}

fn strings(list: &[&str]) -> Vec<String> {
    list.iter().map(|s| s.to_string()).collect()
}

fn body(text: &str) -> Result<String, ImageAnalysisError> {
    after_body(Ok(text.as_bytes().to_vec()))
}

#[test]
fn requests_go_to_predict() {
    let request = clip_request(&config("http://ml:3003", "LABSE-Vit-L-14"), "toad");
    assert_eq!(request.url, "http://ml:3003/predict");
    assert_eq!(request.entries, "{\"clip\":{\"textual\":{\"modelName\":\"LABSE-Vit-L-14\"}}}");
    assert_eq!(request.text, "toad");
    assert_eq!(request.timeout, 30);
}

#[test]
fn slashes_at_the_end_of_the_address_do_not_matter() {
    assert_eq!(clip_request(&config("http://ml//", "m"), "t").url, "http://ml/predict");
    assert_eq!(clip_request(&config("///", "m"), "t").url, "/predict");
    assert_eq!(clip_request(&config("", "m"), "t").url, "/predict");
}

#[test]
fn model_names_are_json_strings() {
    let entries = clip_request(&config("", "a\"b\\c\n\t\r\u{8}\u{c}\u{1}\u{1f}\u{7f}\u{e9}/"), "t").entries;
    assert_eq!(
        entries,
        "{\"clip\":{\"textual\":{\"modelName\":\"a\\\"b\\\\c\\n\\t\\r\\b\\f\\u0001\\u001f\u{7f}\u{e9}/\"}}}"
    );
}

#[test]
fn replies_are_read_or_refused() {
    assert_eq!(
        after_send(SendReply::TimedOut),
        ClipStep::Failed { error: failure("CLIP encoding request timed out") }
    );
    assert_eq!(
        after_send(SendReply::Failed { error: "refused".to_owned() }),
        ClipStep::Failed { error: failure("HTTP error: refused") }
    );
    assert_eq!(after_send(SendReply::Answered { status: 200 }), ClipStep::ReadBody);
    assert_eq!(after_send(SendReply::Answered { status: 299 }), ClipStep::ReadBody);
    assert_eq!(
        after_send(SendReply::Answered { status: 199 }),
        ClipStep::ReadErrorText { status: 199 }
    );
    assert_eq!(
        after_send(SendReply::Answered { status: 300 }),
        ClipStep::ReadErrorText { status: 300 }
    );
}

#[test]
fn an_error_reply_is_quoted() {
    assert_eq!(
        after_error_text(503, "busy"),
        failure("HTTP 503 from ML container: busy")
    );
    assert_eq!(after_error_text(0, ""), failure("HTTP 0 from ML container: "));
    assert_eq!(after_error_text(65535, "x"), failure("HTTP 65535 from ML container: x"));
}

#[test]
fn an_embedding_in_a_string() {
    assert_eq!(body("{\"clip\":\"[0.5, -1, 1e-7]\"}"), Ok("[0.5,-1,0.0000001]".to_owned()));
    assert_eq!(body("{\"clip\":\"[]\"}"), Ok("[]".to_owned()));
}

#[test]
fn an_embedding_in_an_array() {
    assert_eq!(
        body(" {\"other\":1,\"clip\":[0.5,-1,1e-7,18446744073709551615]} "),
        Ok("[0.5,-1,0.0000001,18446744073709552000]".to_owned())
    );
    assert_eq!(body("{\"clip\":[]}"), Ok("[]".to_owned()));
}

#[test]
fn both_forms_of_an_embedding_agree() {
    for text in ["[0.5, -1, 1e-7]", "[-0, 1E5, 18446744073709551616]", " [1] ", "[1e300]"] {
        let array = decode_body(format!("{{\"clip\":{}}}", text).as_bytes());
        let string = decode_body(format!("{{\"clip\":\"{}\"}}", text).as_bytes());
        assert!(array.is_ok());
        assert_eq!(array, string);
    }
}

#[test]
fn encoded_embeddings_are_valid() {
    for text in ["[0.5,-1,1e-7]", "[-0.0]", "[1e300,1e-300]", "[123456789012345678]"] {
        assert!(is_valid_embedding(&body(&format!("{{\"clip\":\"{}\"}}", text)).unwrap()));
        assert!(is_valid_embedding(&body(&format!("{{\"clip\":{}}}", text)).unwrap()));
    }
}

#[test]
fn a_text_that_is_no_list_of_numbers() {
    for text in ["[1, \"a\"]", "[1,", "{}", "7", "", "[null]", "[1] x"] {
        let error = serde_json::from_str::<Vec<f64>>(text).unwrap_err();
        let reply = serde_json::Value::Object(
            [("clip".to_owned(), serde_json::Value::from(text))].into_iter().collect(),
        );
        assert_eq!(
            body(&reply.to_string()),
            Err(failure(&format!("Failed to parse embedding string: {}", error)))
        );
    }
}

#[test]
fn replies_without_an_embedding() {
    assert_eq!(body("{}"), Err(failure("Missing 'clip' field in ML response")));
    assert_eq!(body("[1,2]"), Err(failure("Missing 'clip' field in ML response")));
    assert_eq!(
        body("{\"clip\":null}"),
        Err(failure("Unexpected type for 'clip' field in ML response"))
    );
    assert_eq!(
        body("{\"clip\":7}"),
        Err(failure("Unexpected type for 'clip' field in ML response"))
    );
    assert_eq!(
        body("{\"clip\":true}"),
        Err(failure("Unexpected type for 'clip' field in ML response"))
    );
    assert_eq!(
        body("{\"clip\":{\"a\":1}}"),
        Err(failure("Unexpected type for 'clip' field in ML response"))
    );
    assert_eq!(
        body("{\"clip\":[1,\"2\"]}"),
        Err(failure("Non-numeric value in embedding array"))
    );
    assert_eq!(
        body("{\"clip\":"),
        Err(failure("Failed to parse ML response: error decoding response body"))
    );
    assert_eq!(
        after_body(Err("reset".to_owned())),
        Err(failure("Failed to parse ML response: reset"))
    );
}

#[test]
fn numbers_of_a_body() {
    assert_eq!(decode_body(b"{\"clip\":[1,2.50]}"), Ok(strings(&["1", "2.5"])));
    assert_eq!(decode_body(b"{\"clip\":\"[1,2.50]\"}"), Ok(strings(&["1", "2.5"])));
    assert_eq!(
        decode_body(b"\xff"),
        Err(failure("Failed to parse ML response: error decoding response body"))
    );
}

#[test]
fn members_are_read() {
    assert_eq!(
        read_clip_member(Some(Member::Text { text: "[1]".to_owned() })),
        MemberReading::Encoded { text: "[1]".to_owned() }
    );
    assert_eq!(
        read_clip_member(Some(Member::List { items: vec![Some("1".to_owned())] })),
        MemberReading::Numbers { numbers: strings(&["1"]) }
    );
    assert_eq!(
        read_clip_member(Some(Member::List { items: vec![Some("1".to_owned()), None] })),
        MemberReading::Failed { error: failure("Non-numeric value in embedding array") }
    );
    assert_eq!(
        read_encoded(Err("bad".to_owned())),
        Err(failure("Failed to parse embedding string: bad"))
    );
    assert_eq!(read_encoded(Ok(strings(&["1"]))), Ok(strings(&["1"])));
}
