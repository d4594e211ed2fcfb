use karaoke_core::media_server::Answer;
use karaoke_core::media_server::ByteRange;
use karaoke_core::media_server::MediaServerConfig;
use karaoke_core::media_server::MediaServerState;
use karaoke_core::media_server::RangeError;
use karaoke_core::media_server::Request;
use karaoke_core::media_server::RequestError;
use karaoke_core::media_server::answer_request;
use karaoke_core::media_server::create_error_response;
use karaoke_core::media_server::create_full_response;
use karaoke_core::media_server::create_head_response;
use karaoke_core::media_server::handle_range_request;
use karaoke_core::media_server::parse_request;
use karaoke_core::media_server::range_response;
use karaoke_core::media_server::request_error_message;
#[test]
fn base_url_joins_host_and_port() {
    let state = MediaServerState::new(MediaServerConfig { port: 8080, host: "127.0.0.1".to_string() });
    assert_eq!(state.get_base_url(), "http://127.0.0.1:8080");
}

#[test]
fn base_url_of_port_zero_and_largest_port() {
    let low = MediaServerState::new(MediaServerConfig { port: 0, host: "h".to_string() });
    assert_eq!(low.get_base_url(), "http://h:0");
    let high = MediaServerState::new(MediaServerConfig { port: 65535, host: "h".to_string() });
    assert_eq!(high.get_base_url(), "http://h:65535");
}

#[test]
fn full_response_carries_head_and_content() {
    let response = create_full_response(vec![1u8, 2, 3], "audio/mpeg");
    let head = "HTTP/1.1 200 OK\r\nContent-Type: audio/mpeg\r\nContent-Length: 3\r\nAccept-Ranges: bytes\r\nAccess-Control-Allow-Origin: *\r\n\r\n";
    let mut expected = head.as_bytes().to_vec();
    expected.extend_from_slice(&[1, 2, 3]);
    assert_eq!(response, expected);
}

#[test]
fn head_response_has_no_content() {
    let response = create_head_response(1234567, "video/mp4");
    let head = "HTTP/1.1 200 OK\r\nContent-Type: video/mp4\r\nContent-Length: 1234567\r\nAccept-Ranges: bytes\r\nAccess-Control-Allow-Origin: *\r\n\r\n";
    assert_eq!(response, head.as_bytes().to_vec());
}

#[test]
fn error_response_announces_body_length() {
    let response = create_error_response(404, "Not Found");
    let expected = "HTTP/1.1 404 Not Found\r\nContent-Type: text/plain\r\nContent-Length: 13\r\nAccess-Control-Allow-Origin: *\r\n\r\n404 Not Found";
    assert_eq!(response, expected.as_bytes().to_vec());
}

#[test]
fn error_response_counts_bytes_not_characters() {
    let response = create_error_response(500, "é");
    let expected = "HTTP/1.1 500 é\r\nContent-Type: text/plain\r\nContent-Length: 6\r\nAccess-Control-Allow-Origin: *\r\n\r\n500 é";
    assert_eq!(response, expected.as_bytes().to_vec());
}


#[test]
fn request_line_gives_method_and_decoded_path() {
    let request = parse_request("GET /songs/My%20Song/a%C3%A9.mp3 HTTP/1.1\r\nHost: x\r\n\r\n").unwrap();
    assert_eq!(request.method, "GET");
    assert_eq!(request.file_path, "songs/My Song/aé.mp3");
    assert_eq!(request.range, None);
}

#[test]
fn path_without_leading_slash_is_kept() {
    let request = parse_request("HEAD file.txt").unwrap();
    assert_eq!(request.method, "HEAD");
    assert_eq!(request.file_path, "file.txt");
    let double = parse_request("GET //etc/x HTTP/1.1").unwrap();
    assert_eq!(double.file_path, "/etc/x");
}

#[test]
fn invalid_percent_sequences_are_kept_or_replaced() {
    let request = parse_request("GET /a%zzb%ff HTTP/1.1").unwrap();
    assert_eq!(request.file_path, "a%zzb\u{FFFD}");
}

#[test]
fn range_header_is_found_in_any_case_and_trimmed() {
    let request = parse_request("GET /f HTTP/1.1\r\nHost: x\r\n  RaNgE :  bytes=0-9  \r\n\r\n").unwrap();
    assert_eq!(request.range, Some("bytes=0-9".to_string()));
}

#[test]
fn last_range_header_counts() {
    let request = parse_request("GET /f HTTP/1.1\nRange: bytes=0-1\nrange: bytes=2-3\n").unwrap();
    assert_eq!(request.range, Some("bytes=2-3".to_string()));
}

#[test]
fn headers_end_at_the_first_empty_line() {
    let request = parse_request("GET /f HTTP/1.1\r\nHost: x\r\n\r\nRange: bytes=0-1\r\n").unwrap();
    assert_eq!(request.range, None);
}

#[test]
fn header_value_may_hold_colons() {
    let request = parse_request("GET /f HTTP/1.1\r\nRange: a:b:c\r\n").unwrap();
    assert_eq!(request.range, Some("a:b:c".to_string()));
}

#[test]
fn empty_request_is_refused() {
    assert_eq!(parse_request("").err(), Some(RequestError::Empty));
    assert_eq!(request_error_message(RequestError::Empty), "Empty request");
}

#[test]
fn request_line_with_one_word_is_refused() {
    assert_eq!(parse_request("GET\r\n").err(), Some(RequestError::InvalidRequestLine));
    assert_eq!(parse_request("\r\nGET /f HTTP/1.1").err(), Some(RequestError::InvalidRequestLine));
    assert_eq!(parse_request("   \t ").err(), Some(RequestError::InvalidRequestLine));
    assert_eq!(request_error_message(RequestError::InvalidRequestLine), "Invalid request line");
}

#[test]
fn single_range_is_answered_with_partial_content() {
    let answer = range_response(ByteRange { start: 2, length: 5 }, 10, "audio/mpeg", false);
    let head = "HTTP/1.1 206 Partial Content\r\nContent-Type: audio/mpeg\r\nContent-Range: bytes 2-6/10\r\nContent-Length: 5\r\nAccept-Ranges: bytes\r\nAccess-Control-Allow-Origin: *\r\nAccess-Control-Expose-Headers: content-range\r\n\r\n";
    assert_eq!(
        answer,
        Answer::Partial { head: head.as_bytes().to_vec(), body: ByteRange { start: 2, length: 5 } }
    );
    let only_head = range_response(ByteRange { start: 2, length: 5 }, 10, "audio/mpeg", true);
    assert_eq!(only_head, Answer::Complete(head.as_bytes().to_vec()));
}

#[test]
fn range_header_is_clamped_to_the_file() {
    let outcome = handle_range_request(10, "t", "bytes=5-100", false).unwrap().unwrap();
    let head = "HTTP/1.1 206 Partial Content\r\nContent-Type: t\r\nContent-Range: bytes 5-9/10\r\nContent-Length: 5\r\nAccept-Ranges: bytes\r\nAccess-Control-Allow-Origin: *\r\nAccess-Control-Expose-Headers: content-range\r\n\r\n";
    assert_eq!(
        outcome,
        Answer::Partial { head: head.as_bytes().to_vec(), body: ByteRange { start: 5, length: 5 } }
    );
    let suffix = handle_range_request(10, "t", "bytes=-3", false).unwrap().unwrap();
    match suffix {
        Answer::Partial { body, .. } => assert_eq!(body, ByteRange { start: 7, length: 3 }),
        _ => panic!("a suffix range has a body"),
    }
}

#[test]
fn several_ranges_are_not_satisfiable() {
    let outcome = handle_range_request(10, "t", "bytes=0-1,3-4", false).unwrap().unwrap();
    assert_eq!(outcome, Answer::Complete(create_error_response(416, "Range Not Satisfiable")));
    let none = handle_range_request(10, "t", "", false).unwrap().unwrap();
    assert_eq!(none, Answer::Complete(create_error_response(416, "Range Not Satisfiable")));
}

#[test]
fn unreadable_range_header_is_an_error() {
    assert_eq!(
        handle_range_request(10, "t", "lines=0-1", false),
        Some(Err(RequestError::Range(RangeError::InvalidRange)))
    );
    assert_eq!(
        handle_range_request(10, "t", "bytes=10-", false),
        Some(Err(RequestError::Range(RangeError::NoOverlap)))
    );
    assert_eq!(
        request_error_message(RequestError::Range(RangeError::InvalidRange)),
        "Range parse error: InvalidRange"
    );
    assert_eq!(
        request_error_message(RequestError::Range(RangeError::NoOverlap)),
        "Range parse error: NoOverlap"
    );
}

#[test]
fn range_without_bytes_has_no_answer() {
    assert_eq!(handle_range_request(0, "t", "bytes=-5", false), None);
}

#[test]
fn request_without_range_is_answered_by_method() {
    let get = Request { method: "GET".to_string(), file_path: "f".to_string(), range: None };
    assert_eq!(answer_request(&get, 10, "t"), Some(Ok(Answer::Whole)));
    let head = Request { method: "HEAD".to_string(), file_path: "f".to_string(), range: None };
    assert_eq!(
        answer_request(&head, 10, "t"),
        Some(Ok(Answer::Complete(create_head_response(10, "t"))))
    );
    let lower = Request { method: "head".to_string(), file_path: "f".to_string(), range: None };
    assert_eq!(answer_request(&lower, 10, "t"), Some(Ok(Answer::Whole)));
}

#[test]
fn request_with_range_is_answered_by_range() {
    let request = Request {
        method: "HEAD".to_string(),
        file_path: "f".to_string(),
        range: Some("bytes=0-0".to_string()),
    };
    assert_eq!(
        answer_request(&request, 10, "t"),
        Some(Ok(range_response(ByteRange { start: 0, length: 1 }, 10, "t", true)))
    );
}
