//! Asking a running HTTP service for its version.

use crate::number::{decimal, to_decimal};
use crate::text::{
    cat2, cat3, cat4, cat5, chars_of, lines, same, slice_text, split_first, split_lines,
    split_once, split_words, texts, trim, trimmed, words,
};
use crate::upgrade::{upgrade_error_text, UpgradeError, UpgradeErrorView};
use vstd::prelude::*;

verus! {

/// How many bytes of a reply are read at most, give or take one read.
pub const REPLY_LIMIT: usize = 65536;

/// What a healthy service reports.
#[derive(Debug, PartialEq, Eq)]
pub struct HealthObservation {
    pub version: String,
}

/// The body of a health reply.
#[derive(Debug, PartialEq, Eq)]
pub struct HealthBody {
    pub status: String,
    pub server: String,
    pub version: String,
}

/// The host to connect to for a service that listens on `host`: loopback for an
/// address that stands for all interfaces, and an address without its brackets.
pub open spec fn reachable_host(host: Seq<char>) -> Seq<char> {
    let value = trimmed(host);
    if value.len() == 0 || value == "0.0.0.0"@ {
        "127.0.0.1"@
    } else if value == "::"@ || value == "[::]"@ {
        "::1"@
    } else if value[0] == '[' && value.last() == ']' {
        value.subrange(1, value.len() - 1)
    } else {
        value
    }
}

/// The host to connect to for a service that listens on `host`.
pub fn connect_host(host: &str) -> (reachable: String)
    ensures
        reachable@ == reachable_host(host@),
{
    let value = trim(host);
    let chars = chars_of(value.as_str());
    let total: usize = chars.len();
    if total == 0 || same(value.as_str(), "0.0.0.0") {
        "127.0.0.1".to_owned()
    } else if same(value.as_str(), "::") || same(value.as_str(), "[::]") {
        "::1".to_owned()
    } else if chars[0] == '[' && chars[total - 1] == ']' {
        assert(total >= 2);
        slice_text(&chars, 1, total - 1)
    } else {
        value
    }
}

/// The value of the `Host` header; an IPv6 address stands in brackets.
pub open spec fn host_header(host: Seq<char>, port: u16, is_ipv6: bool) -> Seq<char> {
    if is_ipv6 {
        "["@ + host + "]:"@ + decimal(port as nat)
    } else {
        host + ":"@ + decimal(port as nat)
    }
}

/// The value of the `Host` header; an IPv6 address stands in brackets.
pub fn format_host_header(host: &str, port: u16, is_ipv6: bool) -> (header: String)
    ensures
        header@ == host_header(host@, port, is_ipv6),
{
    let number = to_decimal(port as u64);
    if is_ipv6 {
        cat4("[", host, "]:", number.as_str())
    } else {
        cat3(host, ":", number.as_str())
    }
}

/// The request for the health of a service.
pub fn health_request(host: &str, port: u16, is_ipv6: bool) -> (request: String)
    ensures
        request@ == "GET /health HTTP/1.0\r\nHost: "@ + host_header(host@, port, is_ipv6)
            + "\r\nConnection: close\r\n\r\n"@,
{
    let header = format_host_header(host, port, is_ipv6);
    cat3("GET /health HTTP/1.0\r\nHost: ", header.as_str(), "\r\nConnection: close\r\n\r\n")
}

/// Whether more of a reply is to be read.
pub fn reads_on(received: usize) -> (more: bool)
    ensures
        more == (received < REPLY_LIMIT),
{
    received < REPLY_LIMIT
}

/// Whether a failed read ends a reply instead of spoiling it: the peer reset the
/// connection after it had sent something.
pub fn ends_reply(connection_reset: bool, received: usize) -> (ends: bool)
    ensures
        ends == (connection_reset && received > 0),
{
    connection_reset && received > 0
}

/// The errors of a health request, before a reply is understood.
#[derive(Debug, PartialEq, Eq)]
pub enum ProbeFailure {
    /// The host name did not resolve.
    Unresolved(String),
    /// Nothing answers at an address.
    Unreachable { address: String, error: String },
    /// The reply is no text.
    NotText(String),
}

/// The error of a health request.
pub fn probe_error(failure: &ProbeFailure, connect_host: &str, port: u16) -> (error: UpgradeError)
    ensures
        error@ == UpgradeErrorView::Activation(
            match failure {
                ProbeFailure::Unresolved(cause) => "cannot resolve "@ + connect_host@ + ":"@
                    + decimal(port as nat) + ": "@ + cause@,
                ProbeFailure::Unreachable { address, error: cause } =>
                    "cannot connect to http://"@ + address@ + "/health: "@ + cause@,
                ProbeFailure::NotText(cause) => "health response is not UTF-8: "@ + cause@,
            },
        ),
{
    let text = match failure {
        ProbeFailure::Unresolved(cause) => {
            let number = to_decimal(port as u64);
            let mut text = cat5("cannot resolve ", connect_host, ":", number.as_str(), ": ");
            text.append(cause.as_str());
            text
        },
        ProbeFailure::Unreachable { address, error: cause } => cat4(
            "cannot connect to http://",
            address.as_str(),
            "/health: ",
            cause.as_str(),
        ),
        ProbeFailure::NotText(cause) => cat2("health response is not UTF-8: ", cause.as_str()),
    };
    UpgradeError::Activation(text)
}

/// The error when no address of a host answered: that of the last one.
pub fn no_healthy_address(last: Option<UpgradeError>, connect_host: &str, port: u16) -> (error:
    UpgradeError)
    ensures
        match last {
            Some(cause) => error == cause,
            None => error@ == UpgradeErrorView::Activation(
                "no addresses resolved for "@ + connect_host@ + ":"@ + decimal(port as nat),
            ),
        },
{
    match last {
        Some(cause) => cause,
        None => {
            let number = to_decimal(port as u64);
            UpgradeError::Activation(
                cat4("no addresses resolved for ", connect_host, ":", number.as_str()),
            )
        },
    }
}

/// The head and body of an HTTP reply.
pub open spec fn reply_parts(response: Seq<char>) -> Option<(Seq<char>, Seq<char>)> {
    if split_first(response, "\r\n\r\n"@) is Some {
        split_first(response, "\r\n\r\n"@)
    } else {
        split_first(response, "\n\n"@)
    }
}

/// The status code in the head of a reply: the second word of its first line.
pub open spec fn status_code(head: Seq<char>) -> Seq<char> {
    if lines(head).len() > 0 && words(lines(head)[0]).len() > 1 {
        words(lines(head)[0])[1]
    } else {
        Seq::empty()
    }
}

/// The body of a successful reply.
pub open spec fn health_text(response: Seq<char>) -> Result<Seq<char>, UpgradeErrorView> {
    match reply_parts(response) {
        None => Err(UpgradeErrorView::Activation("health response has no HTTP body"@)),
        Some((head, body)) => if status_code(head) != "200"@ {
            Err(
                UpgradeErrorView::Activation(
                    "health endpoint returned HTTP "@ + status_code(head),
                ),
            )
        } else {
            Ok(body)
        },
    }
}

/// The body of a successful reply.
pub fn health_body(response: &str) -> (result: Result<String, UpgradeError>)
    ensures
        match result {
            Ok(body) => health_text(response@) == Ok::<Seq<char>, UpgradeErrorView>(body@),
            Err(error) => health_text(response@) == Err::<Seq<char>, UpgradeErrorView>(error@),
        },
{
    let parts = match split_once(response, "\r\n\r\n") {
        Some(parts) => Some(parts),
        None => split_once(response, "\n\n"),
    };
    let (head, body) = match parts {
        Some((head, body)) => (head, body),
        None => {
            return Err(
                UpgradeError::Activation("health response has no HTTP body".to_owned()),
            );
        },
    };
    let head_lines = split_lines(head.as_str());
    assert(texts(head_lines@).len() == head_lines@.len());
    let code = if head_lines.len() > 0 {
        let status = split_words(head_lines[0].as_str());
        assert(texts(head_lines@)[0] == head_lines@[0]@);
        assert(texts(status@).len() == status@.len());
        if status.len() > 1 {
            assert(texts(status@)[1] == status@[1]@);
            status[1].clone()
        } else {
            let none = String::new();
            assert(none@ =~= Seq::empty());
            none
        }
    } else {
        let none = String::new();
        assert(none@ =~= Seq::empty());
        none
    };
    assert(code@ == status_code(head@));
    if !same(code.as_str(), "200") {
        return Err(
            UpgradeError::Activation(cat2("health endpoint returned HTTP ", code.as_str())),
        );
    }
    Ok(body)
}

/// The observation in the body of a reply, or the reason why it is not JSON of
/// the right form.
pub fn observe_health(body: Result<HealthBody, String>) -> (result: Result<
    HealthObservation,
    UpgradeError,
>)
    ensures
        match body {
            Err(cause) => result matches Err(error) && error@ == UpgradeErrorView::Activation(
                "health endpoint returned invalid JSON: "@ + cause@,
            ),
            Ok(health) => if health.status@ == "ok"@ && health.server@ == "obsidian-mcp"@
                && trimmed(health.version@).len() > 0 {
                result matches Ok(observation) && observation.version == health.version
            } else {
                result matches Err(error) && error@ == UpgradeErrorView::Activation(
                    "health endpoint identity is not obsidian-mcp/status=ok"@,
                )
            },
        },
{
    match body {
        Err(cause) => Err(
            UpgradeError::Activation(
                cat2("health endpoint returned invalid JSON: ", cause.as_str()),
            ),
        ),
        Ok(health) => {
            let version = trim(health.version.as_str());
            if !same(health.status.as_str(), "ok") || !same(health.server.as_str(), "obsidian-mcp")
                || version.as_str().unicode_len() == 0 {
                return Err(
                    UpgradeError::Activation(
                        "health endpoint identity is not obsidian-mcp/status=ok".to_owned(),
                    ),
                );
            }
            Ok(HealthObservation { version: health.version })
        },
    }
}

/// What to do after a probe of a service that is to report a version.
#[derive(Debug, PartialEq, Eq)]
pub enum HealthWait {
    /// The service reports the version.
    Ready(HealthObservation),
    /// Time is up.
    Failed(UpgradeError),
    /// Probe again after a while.
    Again,
}

/// What a probe without the expected outcome says.
pub open spec fn probe_diagnostic(
    probe: Result<Seq<char>, UpgradeErrorView>,
    expected: Seq<char>,
) -> Seq<char> {
    match probe {
        Ok(version) => "health reported version '"@ + version + "', expected '"@ + expected + "'"@,
        Err(error) => upgrade_error_text(error),
    }
}

/// The version that a probe observed.
pub open spec fn probed(probe: Result<HealthObservation, UpgradeError>) -> Result<
    Seq<char>,
    UpgradeErrorView,
> {
    match probe {
        Ok(observation) => Ok(observation.version@),
        Err(error) => Err(error@),
    }
}

/// The error when a service did not report the version in time.
pub open spec fn health_timeout(
    probe: Result<Seq<char>, UpgradeErrorView>,
    host: Seq<char>,
    port: u16,
    expected: Seq<char>,
) -> UpgradeErrorView {
    UpgradeErrorView::Activation(
        "timed out waiting for http://"@ + reachable_host(host) + ":"@ + decimal(port as nat)
            + "/health: "@ + probe_diagnostic(probe, expected),
    )
}

/// What to do after a probe at the time `now` of a service that is to report a
/// version until `deadline`.
pub fn wait_for_version(
    probe: Result<HealthObservation, UpgradeError>,
    host: &str,
    port: u16,
    expected_version: &str,
    now: u64,
    deadline: u64,
) -> (wait: HealthWait)
    ensures
        probed(probe) == Ok::<Seq<char>, UpgradeErrorView>(expected_version@) ==> wait
            == HealthWait::Ready(probe->Ok_0),
        probed(probe) != Ok::<Seq<char>, UpgradeErrorView>(expected_version@) ==> if now
            >= deadline {
            wait matches HealthWait::Failed(error) && error@ == health_timeout(
                probed(probe),
                host@,
                port,
                expected_version@,
            )
        } else {
            wait == HealthWait::Again
        },
{
    let diagnostic = match probe {
        Ok(observation) => {
            if same(observation.version.as_str(), expected_version) {
                return HealthWait::Ready(observation);
            }
            cat5(
                "health reported version '",
                observation.version.as_str(),
                "', expected '",
                expected_version,
                "'",
            )
        },
        Err(error) => error.message(),
    };
    if now >= deadline {
        let reachable = connect_host(host);
        let number = to_decimal(port as u64);
        let mut text = cat5(
            "timed out waiting for http://",
            reachable.as_str(),
            ":",
            number.as_str(),
            "/health: ",
        );
        text.append(diagnostic.as_str());
        HealthWait::Failed(UpgradeError::Activation(text))
    } else {
        HealthWait::Again
    }
}

/// A service that listens on all addresses is asked at the loopback address of the same
/// family; brackets around an address are taken off, and any other host is asked as it
/// is.
pub proof fn wildcard_hosts_are_asked_at_loopback(host: Seq<char>)
    ensures
        trimmed(host).len() == 0 || trimmed(host) == "0.0.0.0"@ ==> reachable_host(host)
            == "127.0.0.1"@,
        trimmed(host) == "::"@ || trimmed(host) == "[::]"@ ==> reachable_host(host) == "::1"@,
        trimmed(host).len() > 0 && trimmed(host)[0] != '[' && trimmed(host) != "0.0.0.0"@ && trimmed(
            host,
        ) != "::"@ ==> reachable_host(host) == trimmed(host),
        trimmed(host).len() > 1 && trimmed(host)[0] == '[' && trimmed(host).last() == ']' && trimmed(
            host,
        ) != "[::]"@ ==> reachable_host(host) == trimmed(host).subrange(1, trimmed(host).len() - 1),
{
    reveal_strlit("0.0.0.0");
    reveal_strlit("::");
    reveal_strlit("[::]");
    assert("::"@.len() != "0.0.0.0"@.len());
    assert("[::]"@.len() != "0.0.0.0"@.len());
    assert("0.0.0.0"@[0] == '0');
    assert("::"@[0] == ':');
    assert("[::]"@[0] == '[');
}

/// A reply has a body to read exactly where a blank line ends its head and its status is
/// 200; the body is what stands behind that line.
pub proof fn only_a_good_reply_has_a_body(response: Seq<char>, body: Seq<char>)
    ensures
        health_text(response) == Ok::<Seq<char>, UpgradeErrorView>(body) <==> (reply_parts(response)
            matches Some(parts) && parts.1 == body && lines(parts.0).len() > 0 && words(
            lines(parts.0)[0],
        ).len() > 1 && words(lines(parts.0)[0])[1] == "200"@),
        split_first(response, "\r\n\r\n"@) is Some ==> reply_parts(response) == split_first(
            response,
            "\r\n\r\n"@,
        ),
        split_first(response, "\r\n\r\n"@) is None ==> reply_parts(response) == split_first(
            response,
            "\n\n"@,
        ),
{
    reveal_strlit("200");
    assert("200"@.len() == 3);
}

} // verus!
