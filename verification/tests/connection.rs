use solrcopy::connection::{
    Cause, IoKind, Method, ReadError, Reply, SolrClient, SolrError, Synthetic, SOLR_COPY_RETRIES,
    SOLR_COPY_TIMEOUT, SOLR_DEBUG_TIMEOUT, SOLR_DEF_RETRIES, SOLR_DEF_TIMEOUT,
};

fn answer(status: u16, line: &str, body: &str) -> Reply {
    Reply {
        status,
        status_line: line.to_string(),
        synthetic: None,
        body: Ok(body.to_string()),
    }
}

fn unavailable() -> Reply {
    answer(503, "HTTP/1.1 503 Service Unavailable", "")
}

fn made_up(status: u16, cause: Cause, status_text: &str, body_text: &str) -> Reply {
    Reply {
        status,
        status_line: format!("HTTP/1.1 {} {}", status, status_text),
        synthetic: Some(Synthetic {
            cause,
            status_text: status_text.to_string(),
            body_text: body_text.to_string(),
        }),
        body: Ok(body_text.to_string()),
    }
}

fn unread(status: u16, text: &str, debug: &str) -> Reply {
    Reply {
        status,
        status_line: format!("HTTP/1.1 {} OK", status),
        synthetic: None,
        body: Err(ReadError { text: text.to_string(), debug: debug.to_string() }),
    }
}

fn details(outcome: Option<Result<String, SolrError>>) -> String {
    match outcome {
        Some(Err(error)) => error.details,
        Some(Ok(body)) => panic!("the exchange ended in the body {:?}", body),
        None => panic!("another attempt was asked for"),
    }
}

#[test]
fn error_without_body() {
    let error = SolrError::new("it broke".to_string(), String::new());
    assert_eq!(error.details, "Solr Error: it broke");
    assert_eq!(error.say(), "Solr Error: it broke");
    assert_eq!(error.description(), "Solr Error: it broke");
}

#[test]
fn error_with_body() {
    let error = SolrError::new("it broke".to_string(), "<html/>".to_string());
    assert_eq!(error.details, "Solr Error: it broke -> Reponse: <html/>");
}

#[test]
fn error_with_empty_message() {
    let error = SolrError::new(String::new(), String::new());
    assert_eq!(error.details, "Solr Error: ");
}

#[test]
fn names_and_defaults_of_the_settings() {
    assert_eq!(SOLR_COPY_TIMEOUT, "SOLR_COPY_TIMEOUT");
    assert_eq!(SOLR_COPY_RETRIES, "SOLR_COPY_RETRIES");
    assert_eq!(SOLR_DEF_TIMEOUT, 60);
    assert_eq!(SOLR_DEBUG_TIMEOUT, 6);
    assert_eq!(SOLR_DEF_RETRIES, 8);
    assert_eq!(SolrClient::default_timeout(false), 60);
    assert_eq!(SolrClient::default_timeout(true), 6);
}

#[test]
fn new_client_starts_at_zero() {
    let client = SolrClient::new(8, 60);
    assert_eq!(client.get_max_retries(), 8);
    assert_eq!(client.get_retry_count(), 0);
    assert_eq!(client.get_timeout(), 60_000);
    assert_eq!(client.backoff_secs(), 0);
}

#[test]
fn status_classes_of_a_reply() {
    let ok = answer(200, "HTTP/1.1 200 OK", "");
    assert!(ok.ok() && !ok.error() && !ok.client_error() && !ok.server_error());
    let last_ok = answer(299, "HTTP/1.1 299 Odd", "");
    assert!(last_ok.ok());
    let moved = answer(302, "HTTP/1.1 302 Found", "");
    assert!(!moved.ok() && !moved.error());
    let missing = answer(404, "HTTP/1.1 404 Not Found", "");
    assert!(missing.client_error() && missing.error() && !missing.server_error());
    let broken = answer(500, "HTTP/1.1 500 Internal Server Error", "");
    assert!(broken.server_error() && broken.error() && !broken.client_error());
    let last_broken = answer(599, "HTTP/1.1 599 Odd", "");
    assert!(last_broken.server_error());
    let beyond = answer(600, "HTTP/1.1 600 Odd", "");
    assert!(!beyond.error() && !beyond.ok());
    assert!(!ok.synthetic());
    assert!(made_up(500, Cause::ConnectionFailed, "Connection Failed", "").synthetic());
}

#[test]
fn causes_worth_another_attempt() {
    assert!(Cause::ConnectionFailed.retryable());
    assert!(Cause::Io(IoKind::ConnectionRefused).retryable());
    assert!(Cause::Io(IoKind::ConnectionReset).retryable());
    assert!(Cause::Io(IoKind::ConnectionAborted).retryable());
    assert!(Cause::Io(IoKind::NotConnected).retryable());
    assert!(Cause::Io(IoKind::TimedOut).retryable());
    assert!(Cause::Io(IoKind::Interrupted).retryable());
    assert!(Cause::Io(IoKind::Other).retryable());
    assert!(!Cause::Other.retryable());
}

#[test]
fn get_request() {
    let client = SolrClient::new(8, 60);
    let request = client.get_as_text("http://localhost:8983/solr/demo/select?q=*:*");
    assert_eq!(request.method, Method::Get);
    assert_eq!(request.url, "http://localhost:8983/solr/demo/select?q=*:*");
    assert_eq!(request.content_type, None);
    assert_eq!(request.content, "");
    assert_eq!(request.timeout, 60_000);
}

#[test]
fn post_request_as_json() {
    let client = SolrClient::new(8, 6);
    let request = client.post_as_json("http://localhost:8983/solr/demo/update", "[{\"id\":1}]");
    assert_eq!(request.method, Method::Post);
    assert_eq!(request.url, "http://localhost:8983/solr/demo/update");
    assert_eq!(request.content_type, Some("application/json".to_string()));
    assert_eq!(request.content, "[{\"id\":1}]");
    assert_eq!(request.timeout, 6_000);
}

#[test]
fn post_request_as_xml() {
    let client = SolrClient::new(0, 0);
    let request = client.post_as_xml("http://localhost:8983/solr/demo/update", "<commit/>");
    assert_eq!(request.method, Method::Post);
    assert_eq!(request.content_type, Some("application/xml".to_string()));
    assert_eq!(request.content, "<commit/>");
    assert_eq!(request.timeout, 0);
}

#[test]
fn success_returns_the_body() {
    let mut client = SolrClient::new(8, 60);
    let outcome = client.handle_response(answer(200, "HTTP/1.1 200 OK", "{\"status\":0}"));
    match outcome {
        Some(Ok(body)) => assert_eq!(body, "{\"status\":0}"),
        other => panic!("unexpected {:?}", other),
    }
    assert_eq!(client.get_retry_count(), 0);
}

#[test]
fn server_error_is_tried_again() {
    let mut client = SolrClient::new(8, 60);
    assert!(client.handle_response(unavailable()).is_none());
    assert_eq!(client.get_retry_count(), 1);
    assert_eq!(client.backoff_secs(), 5);
    assert!(client.handle_response(answer(502, "HTTP/1.1 502 Bad Gateway", "")).is_none());
    assert_eq!(client.backoff_secs(), 10);
    assert!(client.handle_response(answer(504, "HTTP/1.1 504 Gateway Timeout", "")).is_none());
    assert_eq!(client.backoff_secs(), 15);
}

#[test]
fn success_takes_one_off_the_count() {
    let mut client = SolrClient::new(8, 60);
    assert!(client.handle_response(unavailable()).is_none());
    assert!(client.handle_response(unavailable()).is_none());
    assert_eq!(client.get_retry_count(), 2);
    assert!(client.handle_response(answer(200, "HTTP/1.1 200 OK", "")).is_some());
    assert_eq!(client.get_retry_count(), 1);
    assert!(client.handle_response(answer(200, "HTTP/1.1 200 OK", "")).is_some());
    assert_eq!(client.get_retry_count(), 0);
    assert!(client.handle_response(answer(200, "HTTP/1.1 200 OK", "")).is_some());
    assert_eq!(client.get_retry_count(), 0);
}

#[test]
fn client_error_is_final() {
    let mut client = SolrClient::new(8, 60);
    let outcome = client.handle_response(answer(400, "HTTP/1.1 400 Bad Request", "unknown field"));
    assert_eq!(
        details(outcome),
        "Solr Error: Response Error: HTTP/1.1 400 Bad Request -> Reponse: unknown field"
    );
    assert_eq!(client.get_retry_count(), 0);
}

#[test]
fn client_error_without_body() {
    let mut client = SolrClient::new(8, 60);
    let outcome = client.handle_response(answer(404, "HTTP/1.1 404 Not Found", ""));
    assert_eq!(details(outcome), "Solr Error: Response Error: HTTP/1.1 404 Not Found");
}

#[test]
fn other_statuses_are_final() {
    let mut client = SolrClient::new(8, 60);
    let outcome = client.handle_response(answer(302, "HTTP/1.1 302 Found", "moved"));
    assert_eq!(details(outcome), "Solr Error: Response Error: HTTP/1.1 302 Found -> Reponse: moved");
    let outcome = client.handle_response(answer(199, "HTTP/1.1 199 Odd", ""));
    assert_eq!(details(outcome), "Solr Error: Response Error: HTTP/1.1 199 Odd");
    assert_eq!(client.get_retry_count(), 0);
}

#[test]
fn error_body_that_could_not_be_read() {
    let mut client = SolrClient::new(8, 60);
    let outcome = client.handle_response(unread(404, "stream did not contain valid UTF-8", "Kind(InvalidData)"));
    assert_eq!(
        details(outcome),
        "Solr Error: Response Error: HTTP/1.1 404 OK -> Reponse: stream did not contain valid UTF-8"
    );
}

#[test]
fn body_that_could_not_be_read_is_final() {
    let mut client = SolrClient::new(8, 60);
    let outcome = client.handle_response(unread(200, "unexpected end of file", "Kind(UnexpectedEof)"));
    assert_eq!(
        details(outcome),
        "Solr Error: Receive Error: unexpected end of file -> Reponse: Kind(UnexpectedEof)"
    );
    assert_eq!(client.get_retry_count(), 0);
}

#[test]
fn failed_connection_is_tried_again() {
    let mut client = SolrClient::new(1, 60);
    let refused = || made_up(500, Cause::ConnectionFailed, "Connection Failed", "Connection Failed: refused");
    assert!(client.handle_response(refused()).is_none());
    assert_eq!(client.backoff_secs(), 5);
    let outcome = client.handle_response(refused());
    assert_eq!(
        details(outcome),
        "Solr Error: Generic Error: Connection Failed -> Reponse: Connection Failed: refused"
    );
    assert_eq!(client.get_retry_count(), 1);
}

#[test]
fn io_errors_are_tried_again() {
    let kinds = [
        IoKind::ConnectionRefused,
        IoKind::ConnectionReset,
        IoKind::ConnectionAborted,
        IoKind::NotConnected,
        IoKind::TimedOut,
        IoKind::Interrupted,
        IoKind::Other,
    ];
    let mut client = SolrClient::new(7, 60);
    let mut expected = 0;
    for kind in kinds {
        let reply = made_up(500, Cause::Io(kind), "Network Error", "Network Error: broken pipe");
        assert!(client.handle_response(reply).is_none());
        expected += 1;
        assert_eq!(client.get_retry_count(), expected);
    }
    let reply = made_up(500, Cause::Io(IoKind::TimedOut), "Network Error", "Network Error: timed out");
    assert_eq!(
        details(client.handle_response(reply)),
        "Solr Error: Generic Error: Network Error -> Reponse: Network Error: timed out"
    );
}

#[test]
fn other_transport_faults_are_final() {
    let mut client = SolrClient::new(8, 60);
    let outcome = client.handle_response(made_up(400, Cause::Other, "Bad URL", "Bad URL: nowhere"));
    assert_eq!(details(outcome), "Solr Error: Generic Error: Bad URL -> Reponse: Bad URL: nowhere");
    let outcome = client.handle_response(made_up(500, Cause::Other, "Too Many Redirects", "Too Many Redirects"));
    assert_eq!(
        details(outcome),
        "Solr Error: Generic Error: Too Many Redirects -> Reponse: Too Many Redirects"
    );
    assert_eq!(client.get_retry_count(), 0);
}

#[test]
fn no_retries_allowed() {
    let mut client = SolrClient::new(0, 60);
    let outcome = client.handle_response(unavailable());
    assert_eq!(details(outcome), "Solr Error: Response Error: HTTP/1.1 503 Service Unavailable");
    assert_eq!(client.get_retry_count(), 0);
}

#[test]
fn retries_are_bounded() {
    let max: u64 = 8;
    let mut client = SolrClient::new(max as isize, 60);
    let mut retries: u64 = 0;
    let mut slept: u64 = 0;
    let mut attempts: u64 = 0;
    loop {
        attempts += 1;
        match client.handle_response(unavailable()) {
            None => {
                retries += 1;
                slept += client.backoff_secs();
                assert!(client.get_retry_count() <= client.get_max_retries());
            }
            Some(outcome) => {
                assert!(outcome.is_err());
                break;
            }
        }
        assert!(attempts <= max + 1);
    }
    assert_eq!(retries, 8);
    assert_eq!(attempts, 9);
    assert_eq!(slept, 5 * (1 + 2 + 3 + 4 + 5 + 6 + 7 + 8));
    assert_eq!(slept, 180);
}

#[test]
fn retries_left_over_bound_the_next_request() {
    let mut client = SolrClient::new(3, 60);
    assert!(client.handle_response(unavailable()).is_none());
    assert!(client.handle_response(unavailable()).is_none());
    assert!(client.handle_response(answer(200, "HTTP/1.1 200 OK", "")).is_some());
    assert_eq!(client.get_retry_count(), 1);
    assert!(client.handle_response(unavailable()).is_none());
    assert_eq!(client.backoff_secs(), 10);
    assert!(client.handle_response(unavailable()).is_none());
    assert_eq!(client.backoff_secs(), 15);
    assert!(client.handle_response(unavailable()).is_some());
    assert_eq!(client.get_retry_count(), 3);
}
