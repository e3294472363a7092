//! The rules of the retrying HTTP client: which request is sent, how a reply
//! is classified, when the same request is sent again and after how long a
//! pause, and which error a failed exchange ends in.
//!
//! Nothing here touches the network. The caller sends the [`Request`], writes
//! what came back as a [`Reply`], and hands it to
//! [`SolrClient::handle_response`]; when that answers `None` the caller sleeps
//! for [`SolrClient::backoff_secs`] seconds and sends the same request again.

use vstd::prelude::*;
use vstd::string::*;

verus! {

// ------------------------------------------------------------------ the error

/// The error in which an exchange with the server ends.
#[derive(Debug)]
pub struct SolrError {
    pub details: String,
}

/// The text of an error with the given message and response body: the body
/// is left out when it is empty.
pub open spec fn error_text(message: Seq<char>, body: Seq<char>) -> Seq<char> {
    if body.len() == 0 {
        "Solr Error: "@ + message
    } else {
        "Solr Error: "@ + message + " -> Reponse: "@ + body
    }
}

impl SolrError {
    /// The error for `message`, with the response's `body` where there is one.
    pub fn new(message: String, body: String) -> (error: Self)
        ensures
            error.details@ == error_text(message@, body@),
    {
        let mut msg = String::from_str("Solr Error: ");
        msg.append(message.as_str());
        if !body.as_str().is_empty() {
            msg.append(" -> Reponse: ");
            msg.append(body.as_str());
        }
        SolrError { details: msg }
    }

    /// The error's text, as a new string.
    pub fn say(&self) -> (text: String)
        ensures
            text@ == self.details@,
    {
        self.details.clone()
    }

    /// The error's text, borrowed.
    pub fn description(&self) -> (text: &str)
        ensures
            text@ == self.details@,
    {
        self.details.as_str()
    }
}

// ------------------------------------------------------------------ the reply

/// The kinds of I/O error that the retry rules tell apart.
#[derive(Clone, Copy, Debug, PartialEq, Eq, Structural)]
pub enum IoKind {
    ConnectionRefused,
    ConnectionReset,
    ConnectionAborted,
    NotConnected,
    TimedOut,
    Interrupted,
    Other,
}

/// Why the transport gave up before the server answered.
#[derive(Clone, Copy, Debug, PartialEq, Eq, Structural)]
pub enum Cause {
    /// No connection to the server could be made.
    ConnectionFailed,
    /// An I/O error while sending or receiving.
    Io(IoKind),
    /// Anything else: a bad URL, a failed name lookup, too many redirects, a
    /// status line or header that could not be read, a proxy fault.
    Other,
}

/// A reply that the transport made up because no answer came.
#[derive(Clone, Debug)]
pub struct Synthetic {
    pub cause: Cause,
    /// The short name of the fault.
    pub status_text: String,
    /// The fault in full.
    pub body_text: String,
}

/// A body that could not be read to a string.
#[derive(Clone, Debug)]
pub struct ReadError {
    /// The error as it prints.
    pub text: String,
    /// The error as it prints for debugging.
    pub debug: String,
}

/// What came back for one request.
#[derive(Debug)]
pub struct Reply {
    pub status: u16,
    /// The whole status line, such as `HTTP/1.1 200 OK`.
    pub status_line: String,
    /// Present when the transport made the reply up.
    pub synthetic: Option<Synthetic>,
    /// The body read to a string, or why it could not be read.
    pub body: Result<String, ReadError>,
}

impl Reply {
    /// Whether the status is 2xx.
    pub open spec fn spec_ok(&self) -> bool {
        200 <= self.status <= 299
    }

    /// Whether the status is 4xx.
    pub open spec fn spec_client_error(&self) -> bool {
        400 <= self.status <= 499
    }

    /// Whether the status is 5xx.
    pub open spec fn spec_server_error(&self) -> bool {
        500 <= self.status <= 599
    }

    /// Whether the status is 4xx or 5xx.
    pub open spec fn spec_error(&self) -> bool {
        self.spec_client_error() || self.spec_server_error()
    }

    /// Whether the transport made the reply up.
    pub open spec fn spec_synthetic(&self) -> bool {
        self.synthetic is Some
    }

    /// Whether the status is 2xx.
    #[verifier::when_used_as_spec(spec_ok)]
    pub fn ok(&self) -> (b: bool)
        ensures
            b == self.spec_ok(),
    {
        self.status >= 200 && self.status <= 299
    }

    /// Whether the status is 4xx.
    #[verifier::when_used_as_spec(spec_client_error)]
    pub fn client_error(&self) -> (b: bool)
        ensures
            b == self.spec_client_error(),
    {
        self.status >= 400 && self.status <= 499
    }

    /// Whether the status is 5xx.
    #[verifier::when_used_as_spec(spec_server_error)]
    pub fn server_error(&self) -> (b: bool)
        ensures
            b == self.spec_server_error(),
    {
        self.status >= 500 && self.status <= 599
    }

    /// Whether the status is 4xx or 5xx.
    #[verifier::when_used_as_spec(spec_error)]
    pub fn error(&self) -> (b: bool)
        ensures
            b == self.spec_error(),
    {
        self.client_error() || self.server_error()
    }

    /// Whether the transport made the reply up.
    #[verifier::when_used_as_spec(spec_synthetic)]
    pub fn synthetic(&self) -> (b: bool)
        ensures
            b == self.spec_synthetic(),
    {
        self.synthetic.is_some()
    }
}

// --------------------------------------------------------- the classification

/// The three classes of outcome.
#[derive(Clone, Copy, Debug, PartialEq, Eq, Structural)]
pub enum Class {
    /// A 2xx status and a body that could be read.
    Success,
    /// Worth sending the same request again.
    Retryable,
    /// Final: the exchange ends in an error.
    Terminal,
}

impl Cause {
    /// Whether a fault of this cause is worth another attempt: a failed
    /// connection and every I/O error are, the rest is not.
    pub open spec fn spec_retryable(&self) -> bool {
        match *self {
            Cause::ConnectionFailed => true,
            Cause::Io(_) => true,
            Cause::Other => false,
        }
    }

    /// Whether a fault of this cause is worth another attempt. The I/O kinds
    /// are told apart here so that a rule for one of them has a place to go;
    /// today all of them are retried.
    #[verifier::when_used_as_spec(spec_retryable)]
    pub fn retryable(&self) -> (b: bool)
        ensures
            b == self.spec_retryable(),
    {
        match self {
            Cause::ConnectionFailed => true,
            Cause::Io(kind) => match kind {
                IoKind::ConnectionRefused
                | IoKind::ConnectionReset
                | IoKind::ConnectionAborted
                | IoKind::NotConnected
                | IoKind::TimedOut
                | IoKind::Interrupted => true,
                IoKind::Other => true,
            },
            Cause::Other => false,
        }
    }
}

/// Whether a reply whose status is not 2xx is worth another attempt: a
/// made-up reply goes by its cause, a real one is exactly when its status is
/// 5xx.
pub open spec fn rejected_retryable(reply: Reply) -> bool {
    match reply.synthetic {
        Some(made_up) => made_up.cause.spec_retryable(),
        None => reply.spec_server_error(),
    }
}

/// The message of the error for a reply whose status is not 2xx.
pub open spec fn rejected_message(reply: Reply) -> Seq<char> {
    match reply.synthetic {
        Some(made_up) => "Generic Error: "@ + made_up.status_text@,
        None => "Response Error: "@ + reply.status_line@,
    }
}

/// The body that goes with [`rejected_message`]: of a real reply its body, or
/// the reason why that could not be read.
pub open spec fn rejected_body(reply: Reply) -> Seq<char> {
    match reply.synthetic {
        Some(made_up) => made_up.body_text@,
        None => match reply.body {
            Ok(content) => content@,
            Err(unread) => unread.text@,
        },
    }
}

/// The message of the error for a body that could not be read.
pub open spec fn unread_message(unread: ReadError) -> Seq<char> {
    "Receive Error: "@ + unread.text@
}

/// The class of a reply. Only a 2xx status is a success, and only when the
/// body could be read; a body that could not be read is final. Of the rest,
/// see [`rejected_retryable`].
pub open spec fn classify(reply: Reply) -> Class {
    if reply.spec_ok() {
        if reply.body is Ok {
            Class::Success
        } else {
            Class::Terminal
        }
    } else if rejected_retryable(reply) {
        Class::Retryable
    } else {
        Class::Terminal
    }
}

/// The text of the error that a reply ends in, where it is no success.
pub open spec fn failure_text(reply: Reply) -> Seq<char> {
    if reply.spec_ok() {
        match reply.body {
            Ok(_) => Seq::empty(),
            Err(unread) => error_text(unread_message(unread), unread.debug@),
        }
    } else {
        error_text(rejected_message(reply), rejected_body(reply))
    }
}

/// Whether the client, with `count` retries behind it of `max` allowed,
/// asks for another attempt after `reply`.
pub open spec fn retries(count: nat, max: nat, reply: Reply) -> bool {
    classify(reply) == Class::Retryable && count < max
}

/// How an exchange ends after `reply`, where it ends: in the body, or in the
/// text of the error.
pub open spec fn verdict(reply: Reply) -> Result<Seq<char>, Seq<char>> {
    match classify(reply) {
        Class::Success => Ok(reply.body->Ok_0@),
        _ => Err(failure_text(reply)),
    }
}

/// The retry count after `reply`: one less after a success, but never below
/// zero; one more where another attempt is asked for; else unchanged.
pub open spec fn next_count(count: nat, max: nat, reply: Reply) -> nat {
    match classify(reply) {
        Class::Success => if count > 0 {
            (count - 1) as nat
        } else {
            0
        },
        Class::Retryable => if count < max {
            count + 1
        } else {
            count
        },
        Class::Terminal => count,
    }
}

/// The pause before attempt number `count + 1`, in seconds.
pub open spec fn backoff(count: nat) -> nat {
    5 * count
}

/// The views of what [`SolrClient::handle_response`] hands back.
pub open spec fn outcome_view(outcome: Option<Result<String, SolrError>>) -> Option<
    Result<Seq<char>, Seq<char>>,
> {
    match outcome {
        None => None,
        Some(Ok(body)) => Some(Ok(body@)),
        Some(Err(error)) => Some(Err(error.details@)),
    }
}

/// What the client, with `count` retries behind it of `max` allowed, makes
/// of `reply`: `None` where the same request is to be sent again, else how
/// the exchange ends.
pub open spec fn answer(count: nat, max: nat, reply: Reply) -> Option<
    Result<Seq<char>, Seq<char>>,
> {
    if retries(count, max, reply) {
        None
    } else {
        Some(verdict(reply))
    }
}

// ---------------------------------------------------------------- the request

/// The two methods that the client uses.
#[derive(Clone, Copy, Debug, PartialEq, Eq, Structural)]
pub enum Method {
    Get,
    Post,
}

/// A request, ready to be sent.
#[derive(Clone, Debug, PartialEq, Eq)]
pub struct Request {
    pub method: Method,
    pub url: String,
    /// The value of the `Content-Type` header; a GET has none.
    pub content_type: Option<String>,
    /// The body; empty for a GET.
    pub content: String,
    /// The connect, read and write timeout alike, in milliseconds.
    pub timeout: u64,
}

// ----------------------------------------------------------------- the client

/// Name of the environment variable that holds the timeout, in seconds.
pub const SOLR_COPY_TIMEOUT: &'static str = "SOLR_COPY_TIMEOUT";

/// Name of the environment variable that holds the number of retries.
pub const SOLR_COPY_RETRIES: &'static str = "SOLR_COPY_RETRIES";

/// The timeout where the environment names none, in seconds.
pub const SOLR_DEF_TIMEOUT: isize = 60;

/// The timeout of a debug build where the environment names none, in seconds.
pub const SOLR_DEBUG_TIMEOUT: isize = 6;

/// The number of retries where the environment names none.
pub const SOLR_DEF_RETRIES: isize = 8;

/// The retry state of one HTTP client, and the timeout of its requests.
/// A client serves one writer: it is not shared.
#[derive(Debug)]
pub struct SolrClient {
    max_retries: usize,
    retry_count: usize,
    timeout: u64,
}

impl SolrClient {
    /// The most retries that one request may take.
    pub closed spec fn max_retries(&self) -> nat {
        self.max_retries as nat
    }

    /// The retries that count at the moment: each retry adds one, each
    /// success takes one off.
    pub closed spec fn retry_count(&self) -> nat {
        self.retry_count as nat
    }

    /// The timeout of each request, in milliseconds.
    pub closed spec fn timeout(&self) -> nat {
        self.timeout as nat
    }

    /// The invariant: the count never passes the maximum, and the longest
    /// pause fits in 64 bits as milliseconds.
    #[verifier::type_invariant]
    pub closed spec fn wf(&self) -> bool {
        &&& self.retry_count <= self.max_retries
        &&& 5000 * self.max_retries <= u64::MAX
    }

    /// A client that allows `retries` retries per request and gives each
    /// request `timeout` seconds.
    pub fn new(retries: isize, timeout: isize) -> (client: Self)
        requires
            0 <= retries,
            0 <= timeout,
            5000 * retries <= u64::MAX,
            1000 * timeout <= u64::MAX,
        ensures
            client.wf(),
            client.max_retries() == retries,
            client.retry_count() == 0,
            client.timeout() == 1000 * timeout,
    {
        SolrClient {
            max_retries: retries as usize,
            retry_count: 0,
            timeout: (timeout as u64) * 1000,
        }
    }

    /// The timeout in seconds where the environment names none.
    pub fn default_timeout(debug: bool) -> (seconds: isize)
        ensures
            seconds == if debug {
                SOLR_DEBUG_TIMEOUT
            } else {
                SOLR_DEF_TIMEOUT
            },
    {
        if debug {
            SOLR_DEBUG_TIMEOUT
        } else {
            SOLR_DEF_TIMEOUT
        }
    }

    /// The most retries that one request may take.
    pub fn get_max_retries(&self) -> (max: usize)
        ensures
            max == self.max_retries(),
    {
        self.max_retries
    }

    /// The retries that count at the moment; never more than the maximum.
    pub fn get_retry_count(&self) -> (count: usize)
        ensures
            count == self.retry_count(),
            count <= self.max_retries(),
    {
        proof {
            use_type_invariant(self);
        }
        self.retry_count
    }

    /// The timeout of each request, in milliseconds.
    pub fn get_timeout(&self) -> (millis: u64)
        ensures
            millis == self.timeout(),
    {
        self.timeout
    }

    /// The pause that is due before the next attempt, in seconds: five times
    /// the retry count. It is to be slept through each time
    /// [`SolrClient::handle_response`] answers `None`.
    pub fn backoff_secs(&self) -> (secs: u64)
        ensures
            secs == backoff(self.retry_count()),
            1000 * secs <= u64::MAX,
    {
        proof {
            use_type_invariant(self);
        }
        5 * (self.retry_count as u64)
    }

    /// The GET request for `url`, whose reply's body is wanted as text.
    pub fn get_as_text(&self, url: &str) -> (request: Request)
        ensures
            request.method == Method::Get,
            request.url@ == url@,
            request.content_type is None,
            request.content@ == Seq::<char>::empty(),
            request.timeout == self.timeout(),
    {
        Request {
            method: Method::Get,
            url: url.to_owned(),
            content_type: None,
            content: String::new(),
            timeout: self.timeout,
        }
    }

    /// The POST request that sends `content` to `url` as JSON.
    pub fn post_as_json(&self, url: &str, content: &str) -> (request: Request)
        ensures
            request.method == Method::Post,
            request.url@ == url@,
            request.content_type matches Some(kind) && kind@ == "application/json"@,
            request.content@ == content@,
            request.timeout == self.timeout(),
    {
        self.post_with_content_type(url, "application/json", content)
    }

    /// The POST request that sends `content` to `url` as XML.
    pub fn post_as_xml(&self, url: &str, content: &str) -> (request: Request)
        ensures
            request.method == Method::Post,
            request.url@ == url@,
            request.content_type matches Some(kind) && kind@ == "application/xml"@,
            request.content@ == content@,
            request.timeout == self.timeout(),
    {
        self.post_with_content_type(url, "application/xml", content)
    }

    /// The POST request that sends `content` to `url` under the given
    /// `Content-Type`.
    fn post_with_content_type(&self, url: &str, content_type: &str, content: &str) -> (request:
        Request)
        ensures
            request.method == Method::Post,
            request.url@ == url@,
            request.content_type matches Some(kind) && kind@ == content_type@,
            request.content@ == content@,
            request.timeout == self.timeout(),
    {
        Request {
            method: Method::Post,
            url: url.to_owned(),
            content_type: Some(content_type.to_owned()),
            content: content.to_owned(),
            timeout: self.timeout,
        }
    }

    /// Takes the reply to the request that is under way and says how to go
    /// on: `None` means that the same request is to be sent again, after the
    /// pause of [`SolrClient::backoff_secs`]; anything else ends the
    /// exchange. A success takes one off the retry count, a retry adds one,
    /// and the count never passes the maximum.
    pub fn handle_response(&mut self, response: Reply) -> (outcome: Option<
        Result<String, SolrError>,
    >)
        ensures
            final(self).max_retries() == old(self).max_retries(),
            final(self).timeout() == old(self).timeout(),
            final(self).retry_count() == next_count(
                old(self).retry_count(),
                old(self).max_retries(),
                response,
            ),
            final(self).retry_count() <= final(self).max_retries(),
            outcome_view(outcome) == answer(
                old(self).retry_count(),
                old(self).max_retries(),
                response,
            ),
    {
        proof {
            use_type_invariant(&*self);
        }
        let result = Self::get_result_from(response);
        match result {
            Ok(retrieved) => {
                if self.retry_count > 0 {
                    self.retry_count -= 1;
                }
                Some(Ok(retrieved))
            },
            Err(failure) => {
                match self.handle_failure(failure) {
                    None => {
                        self.retry_count += 1;
                        None
                    },
                    Some(failed) => Some(Err(failed)),
                }
            },
        }
    }

    /// Parts a reply three ways: the body of a success; a reply whose status
    /// is not 2xx, whole; or the reason why a body could not be read.
    fn get_result_from(response: Reply) -> (result: Result<String, Result<Reply, ReadError>>)
        ensures
            match result {
                Ok(body) => classify(response) == Class::Success && response.body == Ok::<
                    String,
                    ReadError,
                >(body),
                Err(Ok(rejected)) => !response.spec_ok() && rejected == response,
                Err(Err(unread)) => response.spec_ok() && response.body == Err::<String, ReadError>(
                    unread,
                ),
            },
    {
        if !response.ok() {
            Err(Ok(response))
        } else {
            match response.body {
                Ok(body) => Ok(body),
                Err(read_error) => Err(Err(read_error)),
            }
        }
    }

    /// Decides on a failure: `None` where another attempt is due, which
    /// takes a retry that is left and a failure that is worth one; else the
    /// error. A body that could not be read is never tried again.
    fn handle_failure(&self, failure: Result<Reply, ReadError>) -> (outcome: Option<SolrError>)
        ensures
            match failure {
                Ok(rejected) => match outcome {
                    None => self.retry_count() < self.max_retries() && rejected_retryable(
                        rejected,
                    ),
                    Some(error) => !(self.retry_count() < self.max_retries() && rejected_retryable(
                        rejected,
                    )) && error.details@ == error_text(
                        rejected_message(rejected),
                        rejected_body(rejected),
                    ),
                },
                Err(unread) => outcome matches Some(error) && error.details@ == error_text(
                    unread_message(unread),
                    unread.debug@,
                ),
            },
    {
        let can_retry = self.retry_count < self.max_retries;
        match failure {
            Ok(response) => {
                if response.synthetic() {
                    Self::handle_synthetic_error(can_retry, response)
                } else {
                    Self::handle_solr_error(can_retry, response)
                }
            },
            Err(read_error) => Some(Self::handle_receive_error(read_error)),
        }
    }

    /// Decides on a reply that the transport made up: another attempt where
    /// one is allowed and the cause is worth it, else the error.
    fn handle_synthetic_error(can_retry: bool, response: Reply) -> (outcome: Option<SolrError>)
        requires
            response.spec_synthetic(),
        ensures
            match outcome {
                None => can_retry && rejected_retryable(response),
                Some(error) => !(can_retry && rejected_retryable(response)) && error.details@
                    == error_text(rejected_message(response), rejected_body(response)),
            },
    {
        match response.synthetic {
            Some(cause) => {
                match cause.cause {
                    Cause::ConnectionFailed => Self::convert_synthetic_error(can_retry, &cause),
                    Cause::Io(error_kind) => {
                        match error_kind {
                            IoKind::ConnectionRefused
                            | IoKind::ConnectionReset
                            | IoKind::ConnectionAborted
                            | IoKind::NotConnected
                            | IoKind::TimedOut
                            | IoKind::Interrupted => Self::convert_synthetic_error(
                                can_retry,
                                &cause,
                            ),
                            IoKind::Other => Self::convert_synthetic_error(can_retry, &cause),
                        }
                    },
                    Cause::Other => Self::convert_synthetic_error(false, &cause),
                }
            },
            None => None,
        }
    }

    /// `None` where another attempt is allowed, else the error that names
    /// the fault.
    fn convert_synthetic_error(can_retry: bool, cause: &Synthetic) -> (outcome: Option<
        SolrError,
    >)
        ensures
            match outcome {
                None => can_retry,
                Some(error) => !can_retry && error.details@ == error_text(
                    "Generic Error: "@ + cause.status_text@,
                    cause.body_text@,
                ),
            },
    {
        if can_retry {
            return None;
        }
        let mut message = String::from_str("Generic Error: ");
        message.append(cause.status_text.as_str());
        let body = cause.body_text.clone();
        Some(SolrError::new(message, body))
    }

    /// Decides on a reply of the server whose status is not 2xx: another
    /// attempt where one is allowed and the status is 5xx, else the error
    /// that holds the status line and the body.
    fn handle_solr_error(can_retry: bool, response: Reply) -> (outcome: Option<SolrError>)
        requires
            !response.spec_synthetic(),
        ensures
            match outcome {
                None => can_retry && rejected_retryable(response),
                Some(error) => !(can_retry && rejected_retryable(response)) && error.details@
                    == error_text(rejected_message(response), rejected_body(response)),
            },
    {
        let mut message = String::from_str("Response Error: ");
        message.append(response.status_line.as_str());
        if can_retry && response.server_error() {
            return None;
        }
        let body = match response.body {
            Ok(content) => content,
            Err(unread) => unread.text,
        };
        Some(SolrError::new(message, body))
    }

    /// The error for a body that could not be read.
    fn handle_receive_error(error: ReadError) -> (failed: SolrError)
        ensures
            failed.details@ == error_text(unread_message(error), error.debug@),
    {
        let mut message = String::from_str("Receive Error: ");
        message.append(error.text.as_str());
        SolrError::new(message, error.debug)
    }
}

// ------------------------------------------------------------------- the laws

/// The sum `1 + 2 + ... + n`.
pub open spec fn triangle(n: nat) -> nat
    decreases n,
{
    if n == 0 {
        0
    } else {
        n + triangle((n - 1) as nat)
    }
}

/// The retries that a client asks for while it is fed `replies` in turn, up
/// to the first reply that ends the exchange. It starts with `count` retries
/// behind it, of `max` allowed.
pub open spec fn retries_taken(count: nat, max: nat, replies: Seq<Reply>) -> nat
    decreases replies.len(),
{
    if replies.len() > 0 && retries(count, max, replies[0]) {
        1 + retries_taken(count + 1, max, replies.drop_first())
    } else {
        0
    }
}

/// The seconds of pause that go with [`retries_taken`].
pub open spec fn backoff_taken(count: nat, max: nat, replies: Seq<Reply>) -> nat
    decreases replies.len(),
{
    if replies.len() > 0 && retries(count, max, replies[0]) {
        backoff(count + 1) + backoff_taken(count + 1, max, replies.drop_first())
    } else {
        0
    }
}

/// Whether one of `replies`, fed in turn, ends the exchange.
pub open spec fn ends_within(count: nat, max: nat, replies: Seq<Reply>) -> bool
    decreases replies.len(),
{
    replies.len() > 0 && (!retries(count, max, replies[0]) || ends_within(
        count + 1,
        max,
        replies.drop_first(),
    ))
}

/// The triangle numbers do not decrease.
pub proof fn lemma_triangle_monotonic(i: nat, j: nat)
    requires
        i <= j,
    ensures
        triangle(i) <= triangle(j),
    decreases j,
{
    if i < j {
        lemma_triangle_monotonic(i, (j - 1) as nat);
    }
}

/// Retries are bounded. Whatever the replies, one request takes no more
/// retries than the client has left, so never more than `max`; and the
/// pauses between its attempts add up to no more than
/// `5 * (1 + 2 + ... + max)` seconds.
pub proof fn lemma_retries_bounded(count: nat, max: nat, replies: Seq<Reply>)
    requires
        count <= max,
    ensures
        retries_taken(count, max, replies) <= max - count,
        retries_taken(count, max, replies) <= max,
        backoff_taken(count, max, replies) == 5 * (triangle(
            count + retries_taken(count, max, replies),
        ) - triangle(count)),
        backoff_taken(count, max, replies) <= 5 * triangle(max),
    decreases replies.len(),
{
    if replies.len() > 0 && retries(count, max, replies[0]) {
        lemma_retries_bounded(count + 1, max, replies.drop_first());
    } else {
    }
    lemma_triangle_monotonic(count + retries_taken(count, max, replies), max);
}

/// Every exchange ends. Whatever the replies, the client asks for another
/// attempt at most as often as it has retries left: the reply to attempt
/// number `max - count + 1`, at the latest, ends the exchange.
pub proof fn lemma_exchange_ends(count: nat, max: nat, replies: Seq<Reply>)
    requires
        count <= max,
        replies.len() > max - count,
    ensures
        ends_within(count, max, replies),
    decreases replies.len(),
{
    if retries(count, max, replies[0]) {
        lemma_exchange_ends(count + 1, max, replies.drop_first());
    }
}

/// The count stays within its bounds: after any reply it is at most `max`,
/// it moves by at most one, and a success never raises it.
pub proof fn lemma_count_bounded(count: nat, max: nat, reply: Reply)
    requires
        count <= max,
    ensures
        next_count(count, max, reply) <= max,
        next_count(count, max, reply) <= count + 1,
        count <= next_count(count, max, reply) + 1,
        answer(count, max, reply) is None <==> next_count(count, max, reply) == count + 1,
        classify(reply) == Class::Success ==> next_count(count, max, reply) <= count,
{
}

} // verus!
