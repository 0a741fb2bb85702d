use paykan::{HttpLazyStreamReader, HttpMethod, HttpVersion, ParseError, Poll};

/// A connection that delivers `data` in reads of the given sizes, the last
/// size again and again, and then reports its end.
struct Wire {
    data: Vec<u8>,
    sizes: Vec<usize>,
    at: usize,
    reads: usize,
}

impl Wire {
    fn whole(text: &str) -> Wire {
        Wire { data: text.as_bytes().to_vec(), sizes: vec![1024], at: 0, reads: 0 }
    }

    fn chunked(text: &str, sizes: &[usize]) -> Wire {
        Wire { data: text.as_bytes().to_vec(), sizes: sizes.to_vec(), at: 0, reads: 0 }
    }

    fn read(&mut self) -> Vec<u8> {
        let size = self.sizes[self.reads.min(self.sizes.len() - 1)];
        self.reads += 1;
        let end = (self.at + size).min(self.data.len());
        let chunk = self.data[self.at..end].to_vec();
        self.at = end;
        chunk
    }
}

fn pump<T>(
    reader: &mut HttpLazyStreamReader,
    wire: &mut Wire,
    ask: fn(&mut HttpLazyStreamReader) -> Result<Poll<T>, ParseError>,
) -> Result<T, ParseError> {
    loop {
        match ask(reader)? {
            Poll::Ready(value) => return Ok(value),
            Poll::Pending => {
                assert!(reader.starved());
                let chunk = wire.read();
                assert!(reader.refill(Some(&chunk)));
            }
        }
    }
}

fn method(reader: &mut HttpLazyStreamReader, wire: &mut Wire) -> Result<HttpMethod, ParseError> {
    pump(reader, wire, |r| r.method())
}

fn resource(reader: &mut HttpLazyStreamReader, wire: &mut Wire) -> Result<String, ParseError> {
    pump(reader, wire, |r| r.resource())
}

fn version(reader: &mut HttpLazyStreamReader, wire: &mut Wire) -> Result<HttpVersion, ParseError> {
    pump(reader, wire, |r| r.version())
}

fn header(
    reader: &mut HttpLazyStreamReader,
    wire: &mut Wire,
    name: &str,
) -> Result<Option<String>, ParseError> {
    loop {
        match reader.header(name)? {
            Poll::Ready(value) => return Ok(value),
            Poll::Pending => {
                assert!(reader.starved());
                let chunk = wire.read();
                assert!(reader.refill(Some(&chunk)));
            }
        }
    }
}

fn all_headers(reader: &mut HttpLazyStreamReader, wire: &mut Wire) -> Result<(), ParseError> {
    loop {
        match reader.header_inner("", true)? {
            Poll::Ready(_) => return Ok(()),
            Poll::Pending => {
                let chunk = wire.read();
                assert!(reader.refill(Some(&chunk)));
            }
        }
    }
}

fn text(value: &str) -> Option<String> {
    Some(value.to_string())
}

const TWO_HEADERS: &str = "GET /x HTTP/1.1\r\nA:1\r\nB:2\r\n\r\n";
const END_TO_END: &str = "GET / HTTP/1.1\r\nHost:example.com\r\nConnection:close\r\n\r\n";

#[test]
fn test_method_can_pattern_match() {
    let payload = format!("{} /hello.htm HTTP/1.1", "GET");
    let mut wire = Wire::whole(&payload);
    let mut reader = HttpLazyStreamReader::new();
    let result = method(&mut reader, &mut wire).unwrap();
    if let HttpMethod::Get = result {
    } else {
        assert!(false, "should match");
    }
}

fn first_method_then_resource(m_str: &str, m_enum: HttpMethod, expected_resource: &str) {
    let payload = format!("{} {} HTTP/1.1", m_str, expected_resource);
    let mut wire = Wire::whole(&payload);
    let mut reader = HttpLazyStreamReader::new();
    assert_eq!(m_enum, method(&mut reader, &mut wire).unwrap());
    assert_eq!(m_enum, method(&mut reader, &mut wire).unwrap());
    assert_eq!(resource(&mut reader, &mut wire).unwrap(), expected_resource);
    assert_eq!(resource(&mut reader, &mut wire).unwrap(), expected_resource);
}

fn first_resource_then_method(m_str: &str, m_enum: HttpMethod, expected_resource: &str) {
    let payload = format!("{} {} HTTP/1.1", m_str, expected_resource);
    let mut wire = Wire::whole(&payload);
    let mut reader = HttpLazyStreamReader::new();
    assert_eq!(resource(&mut reader, &mut wire).unwrap(), expected_resource);
    assert_eq!(resource(&mut reader, &mut wire).unwrap(), expected_resource);
    assert_eq!(m_enum, method(&mut reader, &mut wire).unwrap());
    assert_eq!(m_enum, method(&mut reader, &mut wire).unwrap());
}

#[test]
fn test_first_method_get_resource_home() {
    first_method_then_resource("GET", HttpMethod::Get, "/home");
}

#[test]
fn test_first_method_post_resource_home() {
    first_method_then_resource("POST", HttpMethod::Post, "/home");
}

#[test]
fn test_first_method_put_resource_home() {
    first_method_then_resource("PUT", HttpMethod::Put, "/home");
}

#[test]
fn test_first_method_delete_resource_home() {
    first_method_then_resource("DELETE", HttpMethod::Delete, "/home");
}

#[test]
fn test_first_method_head_resource_home() {
    first_method_then_resource("HEAD", HttpMethod::Head, "/home");
}

#[test]
fn test_first_method_get_resource_root() {
    first_method_then_resource("GET", HttpMethod::Get, "/");
}

#[test]
fn test_first_method_post_resource_root() {
    first_method_then_resource("POST", HttpMethod::Post, "/");
}

#[test]
fn test_first_method_put_resource_root() {
    first_method_then_resource("PUT", HttpMethod::Put, "/");
}

#[test]
fn test_first_method_delete_resource_root() {
    first_method_then_resource("DELETE", HttpMethod::Delete, "/");
}

#[test]
fn test_first_method_head_resource_root() {
    first_method_then_resource("HEAD", HttpMethod::Head, "/");
}

#[test]
fn test_first_resource_home_method_get() {
    first_resource_then_method("GET", HttpMethod::Get, "/home");
}

#[test]
fn test_first_resource_home_method_post() {
    first_resource_then_method("POST", HttpMethod::Post, "/home");
}

#[test]
fn test_first_resource_home_method_put() {
    first_resource_then_method("PUT", HttpMethod::Put, "/home");
}

#[test]
fn test_first_resource_home_method_delete() {
    first_resource_then_method("DELETE", HttpMethod::Delete, "/home");
}

#[test]
fn test_first_resource_home_method_head() {
    first_resource_then_method("HEAD", HttpMethod::Head, "/home");
}

#[test]
fn test_first_resource_root_method_get() {
    first_resource_then_method("GET", HttpMethod::Get, "/");
}

#[test]
fn test_first_resource_root_method_post() {
    first_resource_then_method("POST", HttpMethod::Post, "/");
}

#[test]
fn test_first_resource_root_method_put() {
    first_resource_then_method("PUT", HttpMethod::Put, "/");
}

#[test]
fn test_first_resource_root_method_delete() {
    first_resource_then_method("DELETE", HttpMethod::Delete, "/");
}

#[test]
fn test_first_resource_root_method_head() {
    first_resource_then_method("HEAD", HttpMethod::Head, "/");
}

#[test]
fn accessor_called_twice_gives_the_same_and_reads_no_further() {
    let mut wire = Wire::whole(END_TO_END);
    let mut reader = HttpLazyStreamReader::new();
    assert_eq!(method(&mut reader, &mut wire), Ok(HttpMethod::Get));
    let reads = wire.reads;
    assert_eq!(reader.method(), Ok(Poll::Ready(HttpMethod::Get)));
    assert_eq!(reader.method(), Ok(Poll::Ready(HttpMethod::Get)));
    assert_eq!(wire.reads, reads);
    // The resource is still the next token: the second call took nothing.
    assert_eq!(reader.resource(), Ok(Poll::Ready("/".to_string())));
    assert_eq!(reader.resource(), Ok(Poll::Ready("/".to_string())));
    assert_eq!(reader.version(), Ok(Poll::Ready(HttpVersion::Http1_1)));
    assert_eq!(reader.version(), Ok(Poll::Ready(HttpVersion::Http1_1)));
    assert_eq!(reader.header("Host"), Ok(Poll::Ready(text("example.com"))));
    assert_eq!(reader.header("Host"), Ok(Poll::Ready(text("example.com"))));
    // The second lookup of Host did not read the line that follows it.
    assert_eq!(reader.header("Connection"), Ok(Poll::Ready(text("close"))));
}

#[test]
fn pending_answer_is_repeated_until_bytes_come() {
    let mut reader = HttpLazyStreamReader::new();
    assert_eq!(reader.method(), Ok(Poll::Pending));
    assert_eq!(reader.method(), Ok(Poll::Pending));
    assert!(reader.refill(Some(b"GE")));
    assert_eq!(reader.method(), Ok(Poll::Pending));
    assert_eq!(reader.method(), Ok(Poll::Pending));
    assert!(reader.starved());
    assert!(reader.refill(Some(b"T /")));
    assert_eq!(reader.method(), Ok(Poll::Ready(HttpMethod::Get)));
    assert!(!reader.starved());
}

#[test]
fn headers_are_found_in_any_order() {
    let mut wire = Wire::whole(TWO_HEADERS);
    let mut reader = HttpLazyStreamReader::new();
    assert_eq!(header(&mut reader, &mut wire, "B"), Ok(text("2")));
    assert_eq!(header(&mut reader, &mut wire, "A"), Ok(text("1")));
}

#[test]
fn missing_header_leaves_the_store_intact() {
    let mut wire = Wire::whole(TWO_HEADERS);
    let mut reader = HttpLazyStreamReader::new();
    assert_eq!(header(&mut reader, &mut wire, "Z"), Ok(None));
    assert_eq!(header(&mut reader, &mut wire, "A"), Ok(text("1")));
    assert_eq!(header(&mut reader, &mut wire, "B"), Ok(text("2")));
    assert_eq!(header(&mut reader, &mut wire, "Z"), Ok(None));
}

#[test]
fn resource_reads_the_method_on_the_way() {
    let mut wire = Wire::whole("POST /y HTTP/1.0\r\n\r\n");
    let mut reader = HttpLazyStreamReader::new();
    assert_eq!(resource(&mut reader, &mut wire).unwrap(), "/y");
    let reads = wire.reads;
    assert_eq!(reader.method(), Ok(Poll::Ready(HttpMethod::Post)));
    assert_eq!(wire.reads, reads);
    assert_eq!(reader.version(), Ok(Poll::Ready(HttpVersion::Http1_0)));
}

fn end_to_end(wire: &mut Wire) {
    let mut reader = HttpLazyStreamReader::new();
    assert_eq!(method(&mut reader, wire), Ok(HttpMethod::Get));
    assert_eq!(resource(&mut reader, wire).unwrap(), "/");
    assert_eq!(version(&mut reader, wire), Ok(HttpVersion::Http1_1));
    assert_eq!(header(&mut reader, wire, "Host"), Ok(text("example.com")));
    assert_eq!(header(&mut reader, wire, "Connection"), Ok(text("close")));
    assert_eq!(header(&mut reader, wire, "Missing"), Ok(None));
}

#[test]
fn request_is_read_end_to_end() {
    end_to_end(&mut Wire::whole(END_TO_END));
}

#[test]
fn unknown_method_fails_and_so_does_the_resource_after_it() {
    let mut wire = Wire::whole("FOO / HTTP/1.1\r\n\r\n");
    let mut reader = HttpLazyStreamReader::new();
    assert_eq!(method(&mut reader, &mut wire), Err(ParseError::UnknownMethod));
    assert_eq!(resource(&mut reader, &mut wire), Err(ParseError::UnknownMethod));
    assert_eq!(version(&mut reader, &mut wire), Err(ParseError::UnknownMethod));
    assert_eq!(header(&mut reader, &mut wire, "Host"), Err(ParseError::UnknownMethod));
    assert_eq!(method(&mut reader, &mut wire), Err(ParseError::UnknownMethod));
}

#[test]
fn failure_is_not_retried_on_the_next_token() {
    let mut wire = Wire::whole("FOO GET / HTTP/1.1\r\n\r\n");
    let mut reader = HttpLazyStreamReader::new();
    assert_eq!(method(&mut reader, &mut wire), Err(ParseError::UnknownMethod));
    assert_eq!(method(&mut reader, &mut wire), Err(ParseError::UnknownMethod));
}

#[test]
fn request_reads_the_same_in_small_chunks() {
    end_to_end(&mut Wire::chunked(END_TO_END, &[1]));
    end_to_end(&mut Wire::chunked(END_TO_END, &[2]));
    end_to_end(&mut Wire::chunked(END_TO_END, &[3, 1, 7, 2, 5]));
    end_to_end(&mut Wire::chunked(END_TO_END, &[13, 4, 1, 1, 9, 30]));
    end_to_end(&mut Wire::chunked(END_TO_END, &[16]));
    for size in 1..END_TO_END.len() + 2 {
        end_to_end(&mut Wire::chunked(END_TO_END, &[size]));
    }
}

#[test]
fn headers_in_any_order_read_the_same_in_small_chunks() {
    for size in 1..TWO_HEADERS.len() + 2 {
        let mut wire = Wire::chunked(TWO_HEADERS, &[size]);
        let mut reader = HttpLazyStreamReader::new();
        assert_eq!(header(&mut reader, &mut wire, "B"), Ok(text("2")));
        assert_eq!(header(&mut reader, &mut wire, "Z"), Ok(None));
        assert_eq!(header(&mut reader, &mut wire, "A"), Ok(text("1")));
        assert_eq!(method(&mut reader, &mut wire), Ok(HttpMethod::Get));
        assert_eq!(resource(&mut reader, &mut wire).unwrap(), "/x");
    }
}

#[test]
fn block_of_full_capacity_is_read_to_its_last_byte() {
    let mut request = String::from("GET /");
    while request.len() < 1023 {
        request.push('a');
    }
    request.push(' ');
    assert_eq!(request.len(), 1024);
    request.push_str("HTTP/1.1\r\n\r\n");
    let mut wire = Wire::whole(&request);
    let mut reader = HttpLazyStreamReader::new();
    let got = resource(&mut reader, &mut wire).unwrap();
    assert_eq!(got.len(), 1019);
    assert_eq!(wire.reads, 1);
    assert_eq!(version(&mut reader, &mut wire), Ok(HttpVersion::Http1_1));
    assert_eq!(wire.reads, 2);
}

#[test]
fn every_version_of_the_request_line_is_known() {
    for (word, expected) in [
        ("HTTP/0.9", HttpVersion::Http0_9),
        ("HTTP/1.0", HttpVersion::Http1_0),
        ("HTTP/1.1", HttpVersion::Http1_1),
    ] {
        let mut wire = Wire::whole(&format!("GET / {}\r\n\r\n", word));
        let mut reader = HttpLazyStreamReader::new();
        assert_eq!(version(&mut reader, &mut wire), Ok(expected));
        let mut wire = Wire::whole(&format!("GET / {}\n", word));
        let mut reader = HttpLazyStreamReader::new();
        assert_eq!(version(&mut reader, &mut wire), Ok(expected));
    }
}

#[test]
fn other_versions_are_refused_and_the_text_is_kept() {
    let mut wire = Wire::whole("GET / HTTP/2.0\r\n\r\n");
    let mut reader = HttpLazyStreamReader::new();
    assert_eq!(version(&mut reader, &mut wire), Err(ParseError::UnsupportedVersion));
    assert_eq!(reader.refused_text(), b"HTTP/2.0\r");
    assert_eq!(reader.method(), Ok(Poll::Ready(HttpMethod::Get)));
    assert_eq!(reader.resource(), Ok(Poll::Ready("/".to_string())));
    assert_eq!(reader.header("Host"), Err(ParseError::UnsupportedVersion));

    let mut wire = Wire::whole("GET / HTTP/1.1\r\r\n");
    let mut reader = HttpLazyStreamReader::new();
    assert_eq!(version(&mut reader, &mut wire), Err(ParseError::UnsupportedVersion));
}

#[test]
fn nul_byte_is_refused_in_every_token() {
    for request in ["G\0ET / HTTP/1.1\r\n", "GET /\0 HTTP/1.1\r\n", "GET / HTTP\0/1.1\r\n"] {
        let mut wire = Wire::whole(request);
        let mut reader = HttpLazyStreamReader::new();
        assert_eq!(version(&mut reader, &mut wire), Err(ParseError::NulByte));
    }
    let mut wire = Wire::whole("GET / HTTP/1.1\r\nHo\0st:x\r\n\r\n");
    let mut reader = HttpLazyStreamReader::new();
    assert_eq!(version(&mut reader, &mut wire), Ok(HttpVersion::Http1_1));
    assert_eq!(header(&mut reader, &mut wire, "Host"), Err(ParseError::NulByte));
}

#[test]
fn resource_that_is_not_utf8_is_refused() {
    let mut reader = HttpLazyStreamReader::new();
    assert!(reader.refill(Some(b"GET /\xff\xfe HTTP/1.1\r\n")));
    assert_eq!(reader.resource(), Err(ParseError::InvalidUtf8));
    assert_eq!(reader.method(), Ok(Poll::Ready(HttpMethod::Get)));
    assert_eq!(reader.version(), Err(ParseError::InvalidUtf8));
}

#[test]
fn resource_beyond_ascii_is_decoded() {
    let mut wire = Wire::chunked("GET /caf\u{e9}/\u{1f600} HTTP/1.1\r\n", &[1]);
    let mut reader = HttpLazyStreamReader::new();
    assert_eq!(resource(&mut reader, &mut wire).unwrap(), "/caf\u{e9}/\u{1f600}");
}

#[test]
fn header_that_is_not_utf8_is_refused() {
    let mut reader = HttpLazyStreamReader::new();
    assert!(reader.refill(Some(b"GET / HTTP/1.1\r\nA:\xc3\r\n\r\n")));
    assert_eq!(reader.header("A"), Err(ParseError::InvalidUtf8));
}

#[test]
fn only_the_first_colon_of_a_line_ends_the_name() {
    let mut wire = Wire::whole("GET / HTTP/1.1\r\nHost:example.com:8080\r\nEmpty:\r\n:v\r\n\r\n");
    let mut reader = HttpLazyStreamReader::new();
    assert_eq!(header(&mut reader, &mut wire, "Host"), Ok(text("example.com:8080")));
    assert_eq!(header(&mut reader, &mut wire, "Empty"), Ok(text("")));
    assert_eq!(header(&mut reader, &mut wire, ""), Ok(text("v")));
}

#[test]
fn header_names_are_told_apart_by_case_and_values_kept_as_written() {
    let mut wire = Wire::whole("GET / HTTP/1.1\r\nHost: a b \r\n\r\n");
    let mut reader = HttpLazyStreamReader::new();
    assert_eq!(header(&mut reader, &mut wire, "host"), Ok(None));
    assert_eq!(header(&mut reader, &mut wire, "Host"), Ok(text(" a b ")));
}

#[test]
fn first_line_of_a_name_keeps_its_value() {
    let request = "GET / HTTP/1.1\r\nA:1\r\nA:2\r\nB:3\r\n\r\n";
    let mut wire = Wire::whole(request);
    let mut reader = HttpLazyStreamReader::new();
    assert_eq!(header(&mut reader, &mut wire, "A"), Ok(text("1")));
    assert_eq!(header(&mut reader, &mut wire, "B"), Ok(text("3")));
    assert_eq!(header(&mut reader, &mut wire, "A"), Ok(text("1")));

    let mut wire = Wire::whole(request);
    let mut reader = HttpLazyStreamReader::new();
    assert_eq!(header(&mut reader, &mut wire, "B"), Ok(text("3")));
    assert_eq!(header(&mut reader, &mut wire, "A"), Ok(text("1")));
}

#[test]
fn lines_may_end_with_a_bare_line_feed() {
    let mut wire = Wire::whole("GET / HTTP/1.1\nA:1\nB:2\n\r\n");
    let mut reader = HttpLazyStreamReader::new();
    assert_eq!(header(&mut reader, &mut wire, "B"), Ok(text("2")));
    assert_eq!(header(&mut reader, &mut wire, "C"), Ok(None));
}

#[test]
fn blank_line_must_be_followed_by_a_carriage_return() {
    let mut wire = Wire::whole("GET / HTTP/1.1\nA:1\n\n\r");
    let mut reader = HttpLazyStreamReader::new();
    assert_eq!(header(&mut reader, &mut wire, "Z"), Ok(None));

    let mut wire = Wire::whole("GET / HTTP/1.1\nA:1\n\nB:2\n");
    let mut reader = HttpLazyStreamReader::new();
    assert_eq!(header(&mut reader, &mut wire, "B"), Err(ParseError::TrailingData(b'B')));
    assert_eq!(header(&mut reader, &mut wire, "A"), Ok(text("1")));
    assert_eq!(header(&mut reader, &mut wire, "B"), Err(ParseError::TrailingData(b'B')));

    let mut wire = Wire::whole("GET / HTTP/1.1\nA:1\n\n\n");
    let mut reader = HttpLazyStreamReader::new();
    assert_eq!(header(&mut reader, &mut wire, "Z"), Err(ParseError::TrailingData(b'\n')));
}

#[test]
fn end_of_the_stream_completes_what_was_begun() {
    let mut wire = Wire::whole("GET");
    let mut reader = HttpLazyStreamReader::new();
    assert_eq!(method(&mut reader, &mut wire), Ok(HttpMethod::Get));
    assert_eq!(resource(&mut reader, &mut wire).unwrap(), "");
    assert_eq!(version(&mut reader, &mut wire), Err(ParseError::UnsupportedVersion));

    let mut wire = Wire::whole("GET / HTTP/1.1");
    let mut reader = HttpLazyStreamReader::new();
    assert_eq!(version(&mut reader, &mut wire), Ok(HttpVersion::Http1_1));
    assert_eq!(header(&mut reader, &mut wire, "Host"), Ok(None));

    let mut wire = Wire::whole("GET / HTTP/1.1\r\nHost:x");
    let mut reader = HttpLazyStreamReader::new();
    assert_eq!(header(&mut reader, &mut wire, "Z"), Ok(None));
    assert_eq!(header(&mut reader, &mut wire, "Host"), Ok(text("x")));

    let mut wire = Wire::whole("");
    let mut reader = HttpLazyStreamReader::new();
    assert_eq!(method(&mut reader, &mut wire), Err(ParseError::UnknownMethod));
}

#[test]
fn failed_read_ends_the_stream() {
    let mut reader = HttpLazyStreamReader::new();
    assert!(reader.refill(Some(b"PUT")));
    assert_eq!(reader.method(), Ok(Poll::Pending));
    assert!(reader.refill(None));
    assert!(!reader.starved());
    assert_eq!(reader.method(), Ok(Poll::Ready(HttpMethod::Put)));
}

#[test]
fn whole_header_section_can_be_read_at_once() {
    let mut wire = Wire::chunked(TWO_HEADERS, &[5]);
    let mut reader = HttpLazyStreamReader::new();
    assert_eq!(all_headers(&mut reader, &mut wire), Ok(()));
    let reads = wire.reads;
    assert_eq!(reader.header("A"), Ok(Poll::Ready(text("1"))));
    assert_eq!(reader.header("B"), Ok(Poll::Ready(text("2"))));
    assert_eq!(reader.header("C"), Ok(Poll::Ready(None)));
    assert_eq!(wire.reads, reads);
}

#[test]
fn lookup_of_the_whole_section_answers_only_from_the_store() {
    let mut reader = HttpLazyStreamReader::new();
    assert!(reader.refill(Some(TWO_HEADERS.as_bytes())));
    assert_eq!(reader.header_inner("B", true), Ok(Poll::Ready(None)));
    assert_eq!(reader.header_inner("B", true), Ok(Poll::Ready(text("2"))));
}

#[test]
fn version_numbers_are_those_of_the_protocol() {
    assert_eq!(HttpVersion::Http0_9.number(), 9);
    assert_eq!(HttpVersion::Http1_0.number(), 10);
    assert_eq!(HttpVersion::Http1_1.number(), 11);
    assert_eq!(HttpVersion::Http2_0.number(), 20);
}

#[test]
fn failures_are_malformed_tokens_or_protocol_errors() {
    assert!(ParseError::NulByte.is_malformed_token());
    assert!(ParseError::UnknownMethod.is_malformed_token());
    assert!(ParseError::UnsupportedVersion.is_malformed_token());
    assert!(ParseError::InvalidUtf8.is_malformed_token());
    assert!(!ParseError::TrailingData(b'x').is_malformed_token());
}

#[test]
fn reader_takes_a_read_only_when_it_is_starved() {
    let mut reader = HttpLazyStreamReader::new();
    assert!(reader.refill(Some(b"GET / HT")));
    assert!(!reader.refill(Some(b"TP/1.1\r\n")));
    assert_eq!(reader.method(), Ok(Poll::Ready(HttpMethod::Get)));
    assert!(!reader.refill(Some(b"TP/1.1\r\n")));
    assert_eq!(reader.version(), Ok(Poll::Pending));
    assert!(reader.refill(Some(b"TP/1.1\r\n")));
    assert_eq!(reader.version(), Ok(Poll::Ready(HttpVersion::Http1_1)));
    let block = vec![b'a'; 1025];
    assert!(!reader.refill(Some(&block)));
}
