use std::io::{Read, Write};
use ventoy_toybox::http::{check_response, status_line, text_error_line, HttpResponse};

fn response(ok: bool, status: u16, status_text: &str, body: &[u8]) -> HttpResponse {
    HttpResponse {
        url: "https://x/a".to_string(),
        ok,
        status,
        status_text: status_text.to_string(),
        bytes: body.to_vec(),
    }
}

#[test]
fn ok_response_is_writable() {
    let resp = response(true, 200, "OK", b"payload bytes");
    assert!(check_response(&resp).is_ok());
}

#[test]
fn failed_response_reports_status_and_url() {
    let resp = response(false, 404, "Not Found", b"");
    let err = check_response(&resp).unwrap_err();
    assert_eq!(err, "404 Not Found for https://x/a");
}

#[test]
fn status_line_format() {
    assert_eq!(status_line(503, "Service Unavailable", "https://s"), "503 Service Unavailable for https://s");
    assert_eq!(status_line(0, "X", "u"), "0 X for u");
    assert_eq!(status_line(65535, "Y", "u"), "65535 Y for u");
}

#[test]
fn text_error_line_format() {
    assert_eq!(
        text_error_line(200, "OK", "https://x/a"),
        "200 OK: failed to get valid utf8 text from response\nhttps://x/a"
    );
}

#[test]
fn download_writes_body_byte_for_byte() {
    // the checked response body, written where the caller says, reads back
    // identical: the directory exists, so the write succeeds
    let body: Vec<u8> = (0u16..600u16).map(|v| (v % 251) as u8).collect();
    let resp = response(true, 200, "OK", &body);
    check_response(&resp).expect("a 2xx response may be written");

    let dir = tempfile::tempdir().expect("temp dir");
    let mut file = tempfile::NamedTempFile::new_in(dir.path()).expect("parent directory exists");
    file.write_all(&resp.bytes).expect("write succeeds");
    file.flush().expect("flush succeeds");

    let mut back = Vec::new();
    let mut reader = file.reopen().expect("file was created");
    reader.read_to_end(&mut back).expect("read succeeds");
    assert_eq!(back, body);
}
