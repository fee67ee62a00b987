use vstd::prelude::*;
use vstd::string::*;

use crate::observability::metric_block;
use crate::text::{decimal, has_prefix, push_decimal, starts_with};

verus! {

/// What the observability endpoint serves for a request.
#[derive(Clone, Copy, Debug, PartialEq, Eq, Structural)]
pub enum MetricsRoute {
    Health,
    Metrics,
    NotFound,
}

/// What the UI server serves for a request.
#[derive(Clone, Copy, Debug, PartialEq, Eq, Structural)]
pub enum UiRoute {
    ApiMetrics,
    ApiHealth,
    Static,
    NotFound,
}

pub open spec fn metrics_route_of(line: Seq<char>) -> MetricsRoute {
    if has_prefix(line, "GET /healthz"@) {
        MetricsRoute::Health
    } else if has_prefix(line, "GET /metrics"@) {
        MetricsRoute::Metrics
    } else {
        MetricsRoute::NotFound
    }
}

pub open spec fn ui_route_of(line: Seq<char>) -> UiRoute {
    if has_prefix(line, "GET /api/metrics"@) {
        UiRoute::ApiMetrics
    } else if has_prefix(line, "GET /api/healthz"@) {
        UiRoute::ApiHealth
    } else if has_prefix(line, "GET /"@) {
        UiRoute::Static
    } else {
        UiRoute::NotFound
    }
}

/// Routes a request of the observability endpoint by its first line.
pub fn route_metrics_request(first_line: &str) -> (route: MetricsRoute)
    ensures
        route == metrics_route_of(first_line@),
{
    if starts_with(first_line, "GET /healthz") {
        MetricsRoute::Health
    } else if starts_with(first_line, "GET /metrics") {
        MetricsRoute::Metrics
    } else {
        MetricsRoute::NotFound
    }
}

/// Routes a request of the UI server by its first line.
pub fn route_ui_request(first_line: &str) -> (route: UiRoute)
    ensures
        route == ui_route_of(first_line@),
{
    if starts_with(first_line, "GET /api/metrics") {
        UiRoute::ApiMetrics
    } else if starts_with(first_line, "GET /api/healthz") {
        UiRoute::ApiHealth
    } else if starts_with(first_line, "GET /") {
        UiRoute::Static
    } else {
        UiRoute::NotFound
    }
}

/// The UI asset a request line asks for; the page itself when in doubt.
pub open spec fn static_path_of(line: Seq<char>) -> Seq<char> {
    if has_prefix(line, "GET / "@) {
        "index.html"@
    } else if has_prefix(line, "GET /index.html"@) {
        "index.html"@
    } else if has_prefix(line, "GET /styles.css"@) {
        "styles.css"@
    } else if has_prefix(line, "GET /app.js"@) {
        "app.js"@
    } else {
        "index.html"@
    }
}

/// The UI asset named by a request line.
pub fn parse_static_path(request_line: &str) -> (path: &'static str)
    ensures
        path@ == static_path_of(request_line@),
{
    if starts_with(request_line, "GET / ") {
        return "index.html";
    }
    if starts_with(request_line, "GET /index.html") {
        return "index.html";
    }
    if starts_with(request_line, "GET /styles.css") {
        return "styles.css";
    }
    if starts_with(request_line, "GET /app.js") {
        return "app.js";
    }
    "index.html"
}

pub open spec fn content_type_of(extension: Option<Seq<char>>) -> Seq<char> {
    match extension {
        Some(e) => if e == "html"@ {
            "text/html; charset=utf-8"@
        } else if e == "css"@ {
            "text/css; charset=utf-8"@
        } else if e == "js"@ {
            "application/javascript; charset=utf-8"@
        } else {
            "application/octet-stream"@
        },
        None => "application/octet-stream"@,
    }
}

/// The content type served for a file with the given extension.
pub fn detect_content_type(extension: Option<&str>) -> (content_type: &'static str)
    ensures
        content_type@ == content_type_of(
            match extension {
                Some(e) => Some(e@),
                None => None,
            },
        ),
{
    match extension {
        Some(e) => {
            if crate::text::same_text(e, "html") {
                "text/html; charset=utf-8"
            } else if crate::text::same_text(e, "css") {
                "text/css; charset=utf-8"
            } else if crate::text::same_text(e, "js") {
                "application/javascript; charset=utf-8"
            } else {
                "application/octet-stream"
            }
        },
        None => "application/octet-stream",
    }
}

pub open spec fn reason_phrase_of(status: u16) -> Seq<char> {
    if status == 200 {
        "OK"@
    } else if status == 404 {
        "Not Found"@
    } else {
        "Internal Server Error"@
    }
}

/// The reason phrase sent with a status code.
pub fn reason_phrase(status: u16) -> (reason: &'static str)
    ensures
        reason@ == reason_phrase_of(status),
{
    match status {
        200 => "OK",
        404 => "Not Found",
        _ => "Internal Server Error",
    }
}

/// The status line and headers of a response whose body has `content_length`
/// bytes; the connection is closed after the body.
pub open spec fn response_head_text(status: u16, content_type: Seq<char>, content_length: nat) -> Seq<
    char,
> {
    "HTTP/1.1 "@ + decimal(status as nat) + " "@ + reason_phrase_of(status) + "\r\nContent-Type: "@
        + content_type + "\r\nContent-Length: "@ + decimal(content_length) + "\r\nConnection: close\r\n\r\n"@
}

/// Renders the status line and headers of a response.
pub fn response_head(status: u16, content_type: &str, content_length: usize) -> (head: String)
    ensures
        head@ == response_head_text(status, content_type@, content_length as nat),
{
    let mut head = String::new();
    head.append("HTTP/1.1 ");
    push_decimal(&mut head, status as u64);
    head.append(" ");
    head.append(reason_phrase(status));
    head.append("\r\nContent-Type: ");
    head.append(content_type);
    head.append("\r\nContent-Length: ");
    push_decimal(&mut head, content_length as u64);
    head.append("\r\nConnection: close\r\n\r\n");
    proof {
        assert(head@ =~= response_head_text(status, content_type@, content_length as nat));
    }
    head
}

/// The request the UI server sends upstream to fetch `path` from `target`.
pub open spec fn proxy_request_text(target: Seq<char>, path: Seq<char>) -> Seq<char> {
    "GET "@ + path + " HTTP/1.1\r\nHost: "@ + target + "\r\nConnection: close\r\n\r\n"@
}

/// Renders the upstream request of the UI server's proxy.
pub fn proxy_request(target: &str, path: &str) -> (request: String)
    ensures
        request@ == proxy_request_text(target@, path@),
{
    let mut request = String::new();
    request.append("GET ");
    request.append(path);
    request.append(" HTTP/1.1\r\nHost: ");
    request.append(target);
    request.append("\r\nConnection: close\r\n\r\n");
    proof {
        assert(request@ =~= proxy_request_text(target@, path@));
    }
    request
}

/// The blank line that ends the headers of an HTTP message.
pub open spec fn header_end() -> Seq<char> {
    "\r\n\r\n"@
}

/// Whether the blank line starts at index `i` of `s`.
pub open spec fn blank_line_at(s: Seq<char>, i: int) -> bool {
    0 <= i && i + 4 <= s.len() && s.subrange(i, i + 4) == header_end()
}

/// The first index at or after `from` where the blank line starts, if any.
pub open spec fn find_blank_line(s: Seq<char>, from: nat) -> Option<nat>
    decreases s.len() - from,
{
    if from + 4 > s.len() {
        None
    } else if blank_line_at(s, from as int) {
        Some(from)
    } else {
        find_blank_line(s, from + 1)
    }
}

/// The body of a response as the proxy reads it: the text between the first
/// blank line and the next one (or the end); nothing if there is no blank line.
pub open spec fn response_body_of(response: Seq<char>) -> Seq<char> {
    match find_blank_line(response, 0) {
        None => Seq::empty(),
        Some(start) => {
            let rest = response.subrange(start + 4int, response.len() as int);
            match find_blank_line(rest, 0) {
                None => rest,
                Some(end) => rest.subrange(0, end as int),
            }
        },
    }
}

fn is_blank_line_at(s: &str, len: usize, i: usize) -> (b: bool)
    requires
        len == s@.len(),
        i + 4 <= len,
    ensures
        b == blank_line_at(s@, i as int),
{
    proof {
        reveal_strlit("\r\n\r\n");
    }
    let b = s.get_char(i) == '\r' && s.get_char(i + 1) == '\n' && s.get_char(i + 2) == '\r'
        && s.get_char(i + 3) == '\n';
    proof {
        if b {
            assert(s@.subrange(i as int, i + 4) =~= header_end());
        } else {
            if s@.subrange(i as int, i + 4) == header_end() {
                assert(s@.subrange(i as int, i + 4)[0] == '\r');
                assert(s@.subrange(i as int, i + 4)[1] == '\n');
                assert(s@.subrange(i as int, i + 4)[2] == '\r');
                assert(s@.subrange(i as int, i + 4)[3] == '\n');
            }
        }
    }
    b
}

fn find_blank_line_from(s: &str, from: usize) -> (found: Option<usize>)
    requires
        from <= s@.len(),
    ensures
        match found {
            Some(i) => find_blank_line(s@, from as nat) == Some(i as nat) && i + 4 <= s@.len(),
            None => find_blank_line(s@, from as nat) is None,
        },
    decreases s@.len() - from,
{
    let len = s.unicode_len();
    if len - from < 4 {
        None
    } else if is_blank_line_at(s, len, from) {
        Some(from)
    } else {
        find_blank_line_from(s, from + 1)
    }
}

/// Extracts the body of an upstream response.
pub fn response_body(response: &str) -> (body: String)
    ensures
        body@ == response_body_of(response@),
{
    match find_blank_line_from(response, 0) {
        None => String::new(),
        Some(start) => {
            let len = response.unicode_len();
            let rest = response.substring_char(start + 4, len);
            match find_blank_line_from(rest, 0) {
                None => String::from_str(rest),
                Some(end) => String::from_str(rest.substring_char(0, end)),
            }
        },
    }
}

/// The live endpoint appends its own uptime, already rendered with six
/// decimals, to the metrics it serves.
pub fn append_server_uptime(body: &mut String, uptime: &str)
    ensures
        final(body)@ == old(body)@ + metric_block(
            "empireants_server_uptime_seconds"@,
            "HTTP server uptime."@,
            "gauge"@,
            uptime@,
        ),
{
    crate::observability::push_text_metric(
        body,
        "empireants_server_uptime_seconds",
        "HTTP server uptime.",
        "gauge",
        uptime,
    );
}

} // verus!
