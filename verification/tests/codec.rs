use flate2::write::ZlibEncoder;
use flate2::Compression;
use std::io::Write;
use truth_store::codec::{
    decode_inflated, decode_object, decode_read, decode_text, DecodeError, DecodeStage, FileRead,
};
use truth_store::json::{parse, Json};

fn compress(content: &[u8]) -> Vec<u8> {
    let mut encoder = ZlibEncoder::new(Vec::new(), Compression::default());
    encoder.write_all(content).unwrap();
    encoder.finish().unwrap()
}

fn text(s: &str) -> Json {
    Json::Text(s.to_string())
}

fn member(name: &str, value: Json) -> (String, Json) {
    (name.to_string(), value)
}

#[test]
fn decoding_a_compressed_object_gives_back_its_json() {
    let json = r#"{"content":"water is wet","metadata":{"created_at":"2024-01-01"}}"#;
    let expected = Json::Object(vec![
        member("content", text("water is wet")),
        member("metadata", Json::Object(vec![member("created_at", text("2024-01-01"))])),
    ]);
    assert_eq!(decode_object(&compress(json.as_bytes())), Ok(expected));
}

#[test]
fn decoding_agrees_with_parsing_the_text() {
    let json = r#"[1, 2.5, -3, "x", null, true, false, {"k": []}]"#;
    let decoded = decode_object(&compress(json.as_bytes())).unwrap();
    assert_eq!(decoded, parse(json).unwrap());
}

#[test]
fn every_kind_of_value_is_carried_over() {
    let json = r#"{"a":null,"b":true,"c":12,"d":-0.5,"e":"s","f":[1,"x",[false]],"g":{"h":1e3}}"#;
    let expected = Json::Object(vec![
        member("a", Json::Null),
        member("b", Json::Bool(true)),
        member("c", Json::Number("12".to_string())),
        member("d", Json::Number("-0.5".to_string())),
        member("e", text("s")),
        member(
            "f",
            Json::Array(vec![
                Json::Number("1".to_string()),
                text("x"),
                Json::Array(vec![Json::Bool(false)]),
            ]),
        ),
        member("g", Json::Object(vec![member("h", Json::Number("1000.0".to_string()))])),
    ]);
    assert_eq!(decode_text(json), Ok(expected));
}

#[test]
fn truncated_stream_fails_at_decompression() {
    let mut bytes = compress(br#"{"content":"a claim that is long enough to be cut"}"#);
    bytes.truncate(bytes.len() / 2);
    let error = decode_object(&bytes).unwrap_err();
    assert_eq!(error.stage, DecodeStage::Inflate);
}

#[test]
fn bytes_that_are_no_zlib_stream_fail_at_decompression() {
    let error = decode_object(b"{\"plain\": \"json\"}").unwrap_err();
    assert_eq!(error.stage, DecodeStage::Inflate);
    assert_eq!(error.describe(), format!("Failed to decompress: {}", error.cause));
}

#[test]
fn empty_file_fails_at_decompression() {
    assert_eq!(decode_object(&[]).unwrap_err().stage, DecodeStage::Inflate);
}

#[test]
fn content_that_is_not_utf8_fails_at_the_text_stage() {
    let error = decode_object(&compress(&[0xff, 0xfe, 0x00])).unwrap_err();
    assert_eq!(
        error,
        DecodeError {
            stage: DecodeStage::Utf8,
            cause: "stream did not contain valid UTF-8".to_string()
        }
    );
    assert_eq!(decode_inflated(vec![0xc3]).unwrap_err().stage, DecodeStage::Utf8);
}

#[test]
fn content_that_is_not_json_fails_at_the_json_stage() {
    let error = decode_object(&compress(b"not json")).unwrap_err();
    assert_eq!(error.stage, DecodeStage::Json);
    assert!(error.describe().starts_with("Failed to parse JSON: "));
    assert_eq!(decode_text("{\"open\": ").unwrap_err().stage, DecodeStage::Json);
    assert_eq!(decode_inflated(b"".to_vec()).unwrap_err().stage, DecodeStage::Json);
}

#[test]
fn inflated_bytes_decode_as_utf8_json() {
    assert_eq!(
        decode_inflated("\"caf\u{e9}\"".as_bytes().to_vec()),
        Ok(Json::Text("caf\u{e9}".to_string()))
    );
}

#[test]
fn unreadable_file_fails_at_opening() {
    let read = FileRead::Unreadable("Permission denied (os error 13)".to_string());
    let error = decode_read(&read).unwrap_err();
    assert_eq!(
        error,
        DecodeError {
            stage: DecodeStage::Open,
            cause: "Permission denied (os error 13)".to_string()
        }
    );
    assert_eq!(error.describe(), "Failed to open file: Permission denied (os error 13)");
}

#[test]
fn readable_file_is_decoded() {
    let read = FileRead::Bytes(compress(b"[]"));
    assert_eq!(decode_read(&read), Ok(Json::Array(vec![])));
}

#[test]
fn stage_labels() {
    assert_eq!(DecodeStage::Open.label(), "Failed to open file: ");
    assert_eq!(DecodeStage::Inflate.label(), "Failed to decompress: ");
    assert_eq!(DecodeStage::Utf8.label(), "Failed to decode text: ");
    assert_eq!(DecodeStage::Json.label(), "Failed to parse JSON: ");
}

#[test]
fn data_after_the_stream_is_ignored() {
    let mut bytes = compress(b"{}");
    bytes.extend_from_slice(b"trailing");
    assert_eq!(decode_object(&bytes), Ok(Json::Object(vec![])));
}
