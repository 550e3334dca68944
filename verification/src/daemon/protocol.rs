//! The protocol of the semantic daemon, as far as its lifecycle needs it.

use crate::error::{VaultError, VaultErrorView};
use crate::json::{json_at, json_quoted, quote_json, read_json, Json, JsonView};
use crate::number::{decimal, to_decimal};
use crate::text::{cat2, cat4, cat5};
use vstd::prelude::*;

verus! {

/// The version of the protocol.
pub const DAEMON_API_VERSION: u32 = 1;

/// The error code for a client whose protocol versions do not fit.
pub const ERR_INCOMPATIBLE_API_VERSION: i64 = -32001;

/// The error code for a method that the daemon does not know.
pub const ERR_METHOD_NOT_FOUND: i64 = -32601;

/// What a healthy daemon reports. A daemon that does not report its process
/// leaves zero.
#[derive(Debug, PartialEq, Eq)]
pub struct HealthResult {
    pub daemon_version: String,
    pub daemon_api_version: u32,
    pub pid: u32,
}

/// What a healthy daemon reports, with its text as characters.
#[verifier::ext_equal]
pub struct HealthView {
    pub daemon_version: Seq<char>,
    pub daemon_api_version: u32,
    pub pid: u32,
}

impl View for HealthResult {
    type V = HealthView;

    open spec fn view(&self) -> HealthView {
        HealthView {
            daemon_version: self.daemon_version@,
            daemon_api_version: self.daemon_api_version,
            pid: self.pid,
        }
    }
}

/// What a health probe found.
#[derive(Debug, PartialEq, Eq)]
pub enum HealthProbeOutcome {
    Healthy(HealthResult),
    /// Nothing answers.
    Unreachable,
    /// The daemon speaks another version of the protocol.
    Incompatible(String),
    /// The answer is not one to a health request.
    Invalid(String),
}

/// What a health probe found, with texts as characters.
pub enum ProbeView {
    Healthy(HealthView),
    Unreachable,
    Incompatible(Seq<char>),
    Invalid(Seq<char>),
}

impl View for HealthProbeOutcome {
    type V = ProbeView;

    open spec fn view(&self) -> ProbeView {
        match self {
            HealthProbeOutcome::Healthy(health) => ProbeView::Healthy(health@),
            HealthProbeOutcome::Unreachable => ProbeView::Unreachable,
            HealthProbeOutcome::Incompatible(message) => ProbeView::Incompatible(message@),
            HealthProbeOutcome::Invalid(message) => ProbeView::Invalid(message@),
        }
    }
}

/// A probe or its error, as mathematical values.
pub open spec fn probe_view(probe: Result<HealthProbeOutcome, VaultError>) -> Result<
    ProbeView,
    VaultErrorView,
> {
    match probe {
        Ok(outcome) => Ok(outcome@),
        Err(error) => Err(error@),
    }
}

/// The request for the health of the daemon, one line of JSON.
pub fn health_request(client_version: &str) -> (line: String)
    ensures
        line@ == "{\"id\":1,\"jsonrpc\":\"2.0\",\"method\":\"health\",\"params\":{\"client_name\":\"obsidian-mcp\",\"client_version\":"@
            + json_quoted(client_version@) + ",\"max_api_version\":"@ + decimal(
            DAEMON_API_VERSION as nat,
        ) + ",\"min_api_version\":"@ + decimal(DAEMON_API_VERSION as nat) + "}}\n"@,
{
    let version = quote_json(client_version);
    let number = to_decimal(DAEMON_API_VERSION as u64);
    let mut line = cat5(
        "{\"id\":1,\"jsonrpc\":\"2.0\",\"method\":\"health\",\"params\":{\"client_name\":\"obsidian-mcp\",\"client_version\":",
        version.as_str(),
        ",\"max_api_version\":",
        number.as_str(),
        ",\"min_api_version\":",
    );
    line.append(number.as_str());
    line.append("}}\n");
    line
}

/// What the answer to a health request amounts to.
#[derive(Debug, PartialEq, Eq)]
pub enum HealthReply {
    /// The connection was closed without an answer.
    Closed,
    /// The daemon speaks another version of the protocol.
    Incompatible(String),
    /// The answer is not one to a health request.
    Invalid(String),
    /// The result has to be read as what a healthy daemon reports.
    Result,
}

/// What the answer to a health request amounts to, with texts as characters.
pub enum ReplyView {
    Closed,
    Incompatible(Seq<char>),
    Invalid(Seq<char>),
    Result,
}

impl View for HealthReply {
    type V = ReplyView;

    open spec fn view(&self) -> ReplyView {
        match self {
            HealthReply::Closed => ReplyView::Closed,
            HealthReply::Incompatible(message) => ReplyView::Incompatible(message@),
            HealthReply::Invalid(message) => ReplyView::Invalid(message@),
            HealthReply::Result => ReplyView::Result,
        }
    }
}

/// What an answer amounts to whose parts were read: the error, its code and its
/// message, and the result.
pub open spec fn reply_of(
    error: JsonView,
    code: JsonView,
    message: JsonView,
    result: JsonView,
) -> ReplyView {
    if error == JsonView::Missing {
        if result == JsonView::Missing {
            ReplyView::Invalid("missing result in daemon health response"@)
        } else {
            ReplyView::Result
        }
    } else {
        let number = match code {
            JsonView::Integer(value) => value,
            _ => 0i64,
        };
        let text = match message {
            JsonView::Text(value) => value,
            _ => "daemon health error"@,
        };
        if number == ERR_INCOMPATIBLE_API_VERSION {
            ReplyView::Incompatible(text)
        } else {
            ReplyView::Invalid(text)
        }
    }
}

/// What an answer amounts to whose parts were read.
pub fn classify_reply(error: Json, code: Json, message: Json, result: Json) -> (reply: HealthReply)
    ensures
        reply@ == reply_of(error@, code@, message@, result@),
{
    let has_error = match error {
        Json::Missing => false,
        _ => true,
    };
    if !has_error {
        return match result {
            Json::Missing => HealthReply::Invalid(
                "missing result in daemon health response".to_owned(),
            ),
            _ => HealthReply::Result,
        };
    }
    let number: i64 = match code {
        Json::Integer(value) => value,
        _ => 0,
    };
    let text = match message {
        Json::Text(value) => value,
        _ => "daemon health error".to_owned(),
    };
    if number == ERR_INCOMPATIBLE_API_VERSION {
        HealthReply::Incompatible(text)
    } else {
        HealthReply::Invalid(text)
    }
}

/// The error for an answer that is no JSON.
pub open spec fn reply_fault(cause: Seq<char>) -> VaultErrorView {
    VaultErrorView::DaemonBootstrap("failed to parse daemon health response JSON: "@ + cause)
}

/// What the answer to a health request says, by the name of what the JSON reader
/// finds in it.
pub open spec fn health_reply(line: Seq<char>) -> Result<ReplyView, VaultErrorView> {
    if line.len() == 0 {
        Ok(ReplyView::Closed)
    } else {
        match (
            json_at(line, "/error"@),
            json_at(line, "/error/code"@),
            json_at(line, "/error/message"@),
            json_at(line, "/result"@),
        ) {
            (Ok(error), Ok(code), Ok(message), Ok(result)) => Ok(
                reply_of(error, code, message, result),
            ),
            (Err(cause), _, _, _) => Err(reply_fault(cause)),
            (_, Err(cause), _, _) => Err(reply_fault(cause)),
            (_, _, Err(cause), _) => Err(reply_fault(cause)),
            (_, _, _, Err(cause)) => Err(reply_fault(cause)),
        }
    }
}

fn member(line: &str, pointer: &str) -> (result: Result<Json, VaultError>)
    ensures
        match json_at(line@, pointer@) {
            Ok(value) => result matches Ok(found) && found@ == value,
            Err(cause) => result matches Err(error) && error@ == reply_fault(cause),
        },
{
    match read_json(line, pointer) {
        Ok(value) => Ok(value),
        Err(cause) => Err(
            VaultError::DaemonBootstrap(
                cat2("failed to parse daemon health response JSON: ", cause.as_str()),
            ),
        ),
    }
}

/// What the answer to a health request says; an empty line stands for a closed
/// connection.
pub fn request_health(line: &str) -> (result: Result<HealthReply, VaultError>)
    ensures
        match result {
            Ok(reply) => health_reply(line@) == Ok::<ReplyView, VaultErrorView>(reply@),
            Err(error) => health_reply(line@) == Err::<ReplyView, VaultErrorView>(error@),
        },
{
    if line.unicode_len() == 0 {
        return Ok(HealthReply::Closed);
    }
    let error = match member(line, "/error") {
        Ok(value) => value,
        Err(failure) => {
            return Err(failure);
        },
    };
    let code = match member(line, "/error/code") {
        Ok(value) => value,
        Err(failure) => {
            return Err(failure);
        },
    };
    let message = match member(line, "/error/message") {
        Ok(value) => value,
        Err(failure) => {
            return Err(failure);
        },
    };
    match member(line, "/result") {
        Ok(result) => Ok(classify_reply(error, code, message, result)),
        Err(failure) => Err(failure),
    }
}

/// What a health probe found: the reply, and the result of it where one has to
/// be read.
pub open spec fn probe_of(reply: ReplyView, decoded: Result<HealthView, Seq<char>>) -> Result<
    ProbeView,
    VaultErrorView,
> {
    match reply {
        ReplyView::Closed => Ok(ProbeView::Unreachable),
        ReplyView::Incompatible(message) => Ok(ProbeView::Incompatible(message)),
        ReplyView::Invalid(message) => Ok(ProbeView::Invalid(message)),
        ReplyView::Result => match decoded {
            Ok(health) => Ok(ProbeView::Healthy(health)),
            Err(cause) => Err(
                VaultErrorView::DaemonBootstrap(
                    "failed to decode daemon health result: "@ + cause,
                ),
            ),
        },
    }
}

/// A decoded health report or what is wrong with it.
pub open spec fn decoded_view(decoded: Result<HealthResult, String>) -> Result<
    HealthView,
    Seq<char>,
> {
    match decoded {
        Ok(health) => Ok(health@),
        Err(cause) => Err(cause@),
    }
}

/// What a health probe found: the reply, and the result of it where one has to
/// be read.
pub fn probe_outcome(reply: HealthReply, decoded: Result<HealthResult, String>) -> (result: Result<
    HealthProbeOutcome,
    VaultError,
>)
    ensures
        probe_view(result) == probe_of(reply@, decoded_view(decoded)),
{
    match reply {
        HealthReply::Closed => Ok(HealthProbeOutcome::Unreachable),
        HealthReply::Incompatible(message) => Ok(HealthProbeOutcome::Incompatible(message)),
        HealthReply::Invalid(message) => Ok(HealthProbeOutcome::Invalid(message)),
        HealthReply::Result => match decoded {
            Ok(health) => Ok(HealthProbeOutcome::Healthy(health)),
            Err(cause) => Err(
                VaultError::DaemonBootstrap(
                    cat2("failed to decode daemon health result: ", cause.as_str()),
                ),
            ),
        },
    }
}

/// What went wrong while a health request was sent.
#[derive(Debug, Clone, Copy, PartialEq, Eq, Structural)]
pub enum ExchangeFailure {
    Write,
    Finish,
    Flush,
    Read,
}

/// The error of a health request that could not be sent or answered.
pub fn exchange_error(failure: ExchangeFailure, cause: &str) -> (error: VaultError)
    ensures
        error@ == VaultErrorView::DaemonBootstrap(
            match failure {
                ExchangeFailure::Write => "failed to write daemon health request: "@,
                ExchangeFailure::Finish => "failed to finish daemon health request: "@,
                ExchangeFailure::Flush => "failed to flush daemon health request: "@,
                ExchangeFailure::Read => "failed to read daemon health response: "@,
            } + cause@,
        ),
{
    let head = match failure {
        ExchangeFailure::Write => "failed to write daemon health request: ",
        ExchangeFailure::Finish => "failed to finish daemon health request: ",
        ExchangeFailure::Flush => "failed to flush daemon health request: ",
        ExchangeFailure::Read => "failed to read daemon health response: ",
    };
    VaultError::DaemonBootstrap(cat2(head, cause))
}

/// Why a connection to the daemon was not made.
#[derive(Debug, Clone, Copy, PartialEq, Eq, Structural)]
pub enum ConnectFailure {
    NotFound,
    Refused,
    Reset,
    /// All instances of a named pipe are busy.
    Busy,
    Other,
}

/// What a connection that was not made says: that nothing answers, or an error.
pub fn connection_failed(failure: ConnectFailure, endpoint: &str, windows: bool, cause: &str) -> (
result: Result<HealthProbeOutcome, VaultError>)
    ensures
        ({
            let quiet = failure == ConnectFailure::NotFound || failure == ConnectFailure::Refused
                || (!windows && failure == ConnectFailure::Reset) || (windows && failure
                == ConnectFailure::Busy);
            probe_view(result) == if quiet {
                Ok(ProbeView::Unreachable)
            } else {
                Err(
                    VaultErrorView::DaemonBootstrap(
                        if windows {
                            "failed to connect to daemon named pipe '"@
                        } else {
                            "failed to connect to daemon endpoint '"@
                        } + endpoint@ + "': "@ + cause@,
                    ),
                )
            }
        }),
{
    let quiet = failure == ConnectFailure::NotFound || failure == ConnectFailure::Refused || (
    !windows && failure == ConnectFailure::Reset) || (windows && failure == ConnectFailure::Busy);
    if quiet {
        return Ok(HealthProbeOutcome::Unreachable);
    }
    let head = if windows {
        "failed to connect to daemon named pipe '"
    } else {
        "failed to connect to daemon endpoint '"
    };
    Err(VaultError::DaemonBootstrap(cat4(head, endpoint, "': ", cause)))
}

/// A daemon counts as healthy exactly where its reply holds no error, holds a result
/// and the result could be decoded, and then with what was decoded.
pub proof fn only_a_decoded_result_is_healthy(
    error: JsonView,
    code: JsonView,
    message: JsonView,
    result: JsonView,
    decoded: Result<HealthView, Seq<char>>,
    health: HealthView,
)
    ensures
        probe_of(reply_of(error, code, message, result), decoded) == Ok::<ProbeView, VaultErrorView>(
            ProbeView::Healthy(health),
        ) <==> error == JsonView::Missing && result != JsonView::Missing && decoded == Ok::<
            HealthView,
            Seq<char>,
        >(health),
        probe_of(reply_of(error, code, message, result), decoded) is Err <==> error
            == JsonView::Missing && result != JsonView::Missing && decoded is Err,
{
}

/// An error in the reply is one of incompatibility exactly where it bears that code,
/// and its message is handed on where it is a text. A reply without result or error is
/// invalid.
pub proof fn reply_errors_are_told_apart(
    error: JsonView,
    code: JsonView,
    message: JsonView,
    result: JsonView,
    text: Seq<char>,
)
    ensures
        reply_of(error, code, message, result) is Incompatible <==> error != JsonView::Missing && code
            == JsonView::Integer(-32001i64),
        reply_of(error, code, message, result) is Invalid <==> (error != JsonView::Missing && code
            != JsonView::Integer(-32001i64)) || (error == JsonView::Missing && result
            == JsonView::Missing),
        error != JsonView::Missing && code == JsonView::Integer(-32001i64) ==> reply_of(
            error,
            code,
            JsonView::Text(text),
            result,
        ) == ReplyView::Incompatible(text),
        error != JsonView::Missing && code != JsonView::Integer(-32001i64) ==> reply_of(
            error,
            code,
            JsonView::Text(text),
            result,
        ) == ReplyView::Invalid(text),
        reply_of(error, code, message, result) !is Closed,
{
}

/// A daemon that closes the connection without a line is one that is not reachable;
/// refusals and incompatibilities come through a probe with their message.
pub proof fn a_closed_connection_is_unreachable(
    line: Seq<char>,
    text: Seq<char>,
    decoded: Result<HealthView, Seq<char>>,
)
    ensures
        health_reply(line) == Ok::<ReplyView, VaultErrorView>(ReplyView::Closed) <==> line.len() == 0,
        probe_of(ReplyView::Closed, decoded) == Ok::<ProbeView, VaultErrorView>(
            ProbeView::Unreachable,
        ),
        probe_of(ReplyView::Incompatible(text), decoded) == Ok::<ProbeView, VaultErrorView>(
            ProbeView::Incompatible(text),
        ),
        probe_of(ReplyView::Invalid(text), decoded) == Ok::<ProbeView, VaultErrorView>(
            ProbeView::Invalid(text),
        ),
{
}

} // verus!
