//! Requests to the dashboard and what they are answered.
use super::config::{is_token, is_url_safe};
use crate::number::{decimal, decimal_of, parse_unsigned, unsigned_number};
use crate::text::{
    has_text, holds_text, is_white, lemma_first_index_is, lemma_trimmed_is, line_seq, lines, lossy,
    lossy_text, lowered, opt_str, opt_view, parted, pieces, replace, replaced, same, split,
    split_once, starts_with, to_lower, trim, trimmed, views,
};
use vstd::prelude::*;
use vstd::string::*;
use vstd::utf8::encode_utf8;

verus! {

/// A configuration with more bytes is refused.
pub const MAX_CONFIG_BODY_BYTES: usize = 262_144;

// ---------------------------------------------------------------------------------------------
// Routing
// ---------------------------------------------------------------------------------------------
/// What a request asks for.
#[derive(Debug, Clone, Copy, PartialEq, Eq, Structural)]
pub enum Route {
    /// A connection for messages in both directions.
    WebSocket,
    /// The configuration.
    ReadConfig,
    /// A change of the configuration.
    WriteConfig,
    /// The page of the dashboard, which is also the answer to everything else.
    Page,
}

/// The first line of a request, of which `head` is the beginning.
pub open spec fn first_line(head: Seq<char>) -> Seq<char> {
    let all = line_seq(head);
    if all.len() > 0 {
        all[0]
    } else {
        Seq::empty()
    }
}

/// What a request with this first line asks for.
pub open spec fn route_of(line: Seq<char>) -> Route {
    if holds_text(line, "/ws"@) {
        Route::WebSocket
    } else if holds_text(line, "GET /api/config"@) {
        Route::ReadConfig
    } else if holds_text(line, "POST /api/config"@) {
        Route::WriteConfig
    } else {
        Route::Page
    }
}

/// What a request asks for, of which these bytes are the beginning.
pub fn route(head: &[u8]) -> (out: Route)
    ensures
        out == route_of(first_line(lossy(head@))),
{
    route_of_text(lossy_text(head).as_str())
}

/// What a request asks for, of which this text is the beginning.
pub fn route_of_text(head: &str) -> (out: Route)
    ensures
        out == route_of(first_line(head@)),
{
    let all = lines(head);
    let line = if all.len() > 0 {
        all[0].clone()
    } else {
        String::new()
    };
    proof {
        assert(views(all@).len() == all@.len());
        if all@.len() > 0 {
            assert(views(all@)[0] == all@[0]@);
        }
        assert(line@ =~= first_line(head@));
    }
    if has_text(line.as_str(), "/ws") {
        Route::WebSocket
    } else if has_text(line.as_str(), "GET /api/config") {
        Route::ReadConfig
    } else if has_text(line.as_str(), "POST /api/config") {
        Route::WriteConfig
    } else {
        Route::Page
    }
}

// ---------------------------------------------------------------------------------------------
// Headers
// ---------------------------------------------------------------------------------------------
/// The headers of a request that matter.
#[derive(Debug)]
pub struct HttpHeaders {
    pub content_length: usize,
    pub token: Option<String>,
}

/// The headers of a request that matter, with the token as a character sequence.
pub ghost struct HeadersView {
    pub content_length: nat,
    pub token: Option<Seq<char>>,
}

impl View for HttpHeaders {
    type V = HeadersView;

    open spec fn view(&self) -> HeadersView {
        HeadersView { content_length: self.content_length as nat, token: opt_view(self.token) }
    }
}

impl Default for HttpHeaders {
    fn default() -> (out: HttpHeaders)
        ensures
            out@ == (HeadersView { content_length: 0, token: None }),
    {
        HttpHeaders { content_length: 0, token: None }
    }
}

/// Whether a line, which is given with its line end, ends the headers. A line without any
/// character stands for the end of the request.
pub open spec fn is_headers_end(line: Seq<char>) -> bool {
    line == "\r\n"@ || line.len() == 0 || line == "\n"@
}

/// Whether a line, which is given with its line end, ends the headers.
pub fn ends_headers(line: &str) -> (r: bool)
    ensures
        r == is_headers_end(line@),
{
    same(line, "\r\n") || line.unicode_len() == 0 || same(line, "\n")
}

/// A length in bytes; one that is no number, or too large, counts as zero.
pub open spec fn body_length(value: Seq<char>) -> nat {
    match unsigned_number(value) {
        Some(n) => if n <= usize::MAX {
            n
        } else {
            0
        },
        None => 0,
    }
}

impl HeadersView {
    /// The headers with the one in `line`. Names are taken without regard to case; a line that
    /// has no name, or one of another name, changes nothing.
    pub open spec fn with_line(self, line: Seq<char>) -> HeadersView {
        match parted(line, ':') {
            Some((name, value)) => {
                let key = lowered(trimmed(name));
                let content = trimmed(value);
                if key == "content-length"@ {
                    HeadersView { content_length: body_length(content), ..self }
                } else if key == "x-dashboard-token"@ {
                    HeadersView { token: Some(content), ..self }
                } else if key == "authorization"@ && "Bearer "@.is_prefix_of(content) {
                    HeadersView {
                        token: Some(trimmed(content.skip("Bearer "@.len() as int))),
                        ..self
                    }
                } else {
                    self
                }
            },
            None => self,
        }
    }
}

/// The headers in lines that come with their line ends, up to the line that ends them.
pub open spec fn headers_in(from: HeadersView, all: Seq<Seq<char>>) -> HeadersView
    decreases all.len(),
{
    if all.len() == 0 || is_headers_end(all[0]) {
        from
    } else {
        headers_in(from.with_line(all[0]), all.drop_first())
    }
}

impl HttpHeaders {
    fn take_line(&mut self, line: &str)
        ensures
            final(self)@ == old(self)@.with_line(line@),
    {
        if let Some((name, value)) = split_once(line, ':') {
            let key = to_lower(trim(name.as_str()).as_str());
            let content = trim(value.as_str());
            if same(key.as_str(), "content-length") {
                self.content_length = match parse_unsigned(content.as_str(), usize::MAX as u64) {
                    Some(n) => n as usize,
                    None => 0,
                };
            } else if same(key.as_str(), "x-dashboard-token") {
                self.token = Some(content);
            } else if same(key.as_str(), "authorization") && starts_with(
                content.as_str(),
                "Bearer ",
            ) {
                let from = "Bearer ".unicode_len();
                let to = content.as_str().unicode_len();
                let rest = content.as_str().substring_char(from, to);
                assert(rest@ =~= content@.skip("Bearer "@.len() as int));
                self.token = Some(trim(rest));
            }
        }
    }
}

/// The headers in lines that come with their line ends, up to the line that ends them.
pub fn read_http_headers(all: &Vec<String>) -> (out: HttpHeaders)
    ensures
        out@ == headers_in(
            (HeadersView { content_length: 0, token: None }),
            views(all@),
        ),
{
    let mut headers = HttpHeaders::default();
    let mut i: usize = 0;
    assert(views(all@).skip(0) =~= views(all@));
    while i < all.len()
        invariant
            i <= all@.len(),
            headers_in(headers@, views(all@).skip(i as int)) == headers_in(
                (HeadersView { content_length: 0, token: None }),
                views(all@),
            ),
        decreases all@.len() - i,
    {
        let line = all[i].as_str();
        proof {
            let rest = views(all@).skip(i as int);
            assert(rest[0] == line@);
            assert(rest.drop_first() =~= views(all@).skip(i + 1));
        }
        if ends_headers(line) {
            return headers;
        }
        headers.take_line(line);
        i = i + 1;
    }
    assert(views(all@).skip(i as int).len() == 0);
    headers
}

// ---------------------------------------------------------------------------------------------
// Access
// ---------------------------------------------------------------------------------------------
/// Whether a token gives access. Where none is expected, everyone has access.
pub open spec fn authorized(provided: Option<Seq<char>>, expected: Option<Seq<char>>) -> bool {
    expected matches Some(token) ==> provided == Some(token)
}

/// Whether a token gives access.
pub fn is_authorized(provided: &Option<String>, expected: &Option<String>) -> (r: bool)
    ensures
        r == authorized(opt_view(*provided), opt_view(*expected)),
{
    match expected {
        Some(token) => match provided {
            Some(given) => same(given.as_str(), token.as_str()),
            None => false,
        },
        None => true,
    }
}

/// Whether the query of a request gives access: one of its parameters is the token.
pub open spec fn query_authorized(query: Option<Seq<char>>, expected: Option<Seq<char>>) -> bool {
    match expected {
        None => true,
        Some(token) => match query {
            None => false,
            Some(q) => exists|i: int|
                0 <= i < pieces(q, '&').len() && parted(#[trigger] pieces(q, '&')[i], '=') == Some(
                    ("token"@, token),
                ),
        },
    }
}

/// Whether the query of a request gives access.
pub fn ws_request_authorized(query: Option<&str>, expected: Option<&str>) -> (r: bool)
    ensures
        r == query_authorized(opt_str(query), opt_str(expected)),
{
    let token = match expected {
        Some(token) => token,
        None => {
            return true;
        },
    };
    let text = match query {
        Some(text) => text,
        None => {
            return false;
        },
    };
    let items = split(text, '&');
    let ghost all = pieces(text@, '&');
    assert(views(items@).len() == items@.len());
    let mut i: usize = 0;
    while i < items.len()
        invariant
            query == Some(text),
            expected == Some(token),
            i <= items@.len(),
            items@.len() == all.len(),
            views(items@) == all,
            forall|k: int| 0 <= k < i ==> parted(#[trigger] all[k], '=') != Some(
                ("token"@, token@),
            ),
            all == pieces(text@, '&'),
        decreases items@.len() - i,
    {
        let item = items[i].as_str();
        assert(item@ == all[i as int]) by {
            assert(views(items@)[i as int] == items@[i as int]@);
        }
        if let Some((key, value)) = split_once(item, '=') {
            if same(key.as_str(), "token") && same(value.as_str(), token) {
                assert(parted(pieces(text@, '&')[i as int], '=') == Some(("token"@, token@)));
                return true;
            }
        }
        i = i + 1;
    }
    false
}

/// Why a connection for messages is refused, where it is.
pub fn ws_refusal(query: Option<&str>, expected: Option<&str>) -> (out: Option<&'static str>)
    ensures
        opt_str(out) == if query_authorized(opt_str(query), opt_str(expected)) {
            None
        } else {
            Some("401 Unauthorized"@)
        },
{
    if ws_request_authorized(query, expected) {
        None
    } else {
        Some("401 Unauthorized")
    }
}

// ---------------------------------------------------------------------------------------------
// Replies
// ---------------------------------------------------------------------------------------------
/// A short reply.
#[derive(Debug)]
pub struct HttpReply {
    pub code: u16,
    pub body: String,
}

/// A reply, taken by its view.
pub open spec fn reply_view(reply: Option<HttpReply>) -> Option<(u16, Seq<char>)> {
    match reply {
        Some(r) => Some((r.code, r.body@)),
        None => None,
    }
}

/// The reply by which access to the configuration is refused, where it is.
pub open spec fn config_refused(
    allowed: bool,
    provided: Option<Seq<char>>,
    expected: Option<Seq<char>>,
) -> Option<(u16, Seq<char>)> {
    if !allowed {
        Some((403, "dashboard config API disabled"@))
    } else if !authorized(provided, expected) {
        Some((401, "dashboard auth required"@))
    } else {
        None
    }
}

/// The reply by which access to the configuration is refused, where it is.
pub fn config_refusal(allowed: bool, provided: &Option<String>, expected: &Option<String>) -> (out:
    Option<HttpReply>)
    ensures
        reply_view(out) == config_refused(allowed, opt_view(*provided), opt_view(*expected)),
{
    if !allowed {
        Some(HttpReply { code: 403, body: "dashboard config API disabled".to_owned() })
    } else if !is_authorized(provided, expected) {
        Some(HttpReply { code: 401, body: "dashboard auth required".to_owned() })
    } else {
        None
    }
}

/// The reply by which a change of the configuration is refused before its body is read, where it
/// is.
pub open spec fn change_refused(
    allowed: bool,
    headers: HeadersView,
    expected: Option<Seq<char>>,
) -> Option<(u16, Seq<char>)> {
    match config_refused(allowed, headers.token, expected) {
        Some(reply) => Some(reply),
        None => if headers.content_length == 0 || headers.content_length > MAX_CONFIG_BODY_BYTES {
            Some((413, "invalid config body size"@))
        } else {
            None
        },
    }
}

/// The reply by which a change of the configuration is refused before its body is read, where it
/// is.
pub fn change_refusal(allowed: bool, headers: &HttpHeaders, expected: &Option<String>) -> (out:
    Option<HttpReply>)
    ensures
        reply_view(out) == change_refused(allowed, headers@, opt_view(*expected)),
{
    match config_refusal(allowed, &headers.token, expected) {
        Some(reply) => Some(reply),
        None => if headers.content_length == 0 || headers.content_length > MAX_CONFIG_BODY_BYTES {
            Some(HttpReply { code: 413, body: "invalid config body size".to_owned() })
        } else {
            None
        },
    }
}

/// The text of a short reply.
pub open spec fn reply_text(code: u16, body: Seq<char>) -> Seq<char> {
    "HTTP/1.1 "@ + decimal(code as nat) + " "@ + (if code == 200 {
        "OK"@
    } else {
        "Error"@
    }) + "\r\nContent-Type: text/plain\r\nContent-Length: "@ + decimal(encode_utf8(body).len())
        + "\r\nConnection: close\r\n\r\n"@ + body
}

/// The text of a short reply.
pub fn http_response(code: u16, body: &str) -> (out: String)
    ensures
        out@ == reply_text(code, body@),
{
    let status = if code == 200 {
        "OK"
    } else {
        "Error"
    };
    let mut out = "HTTP/1.1 ".to_owned();
    out.append(decimal_of(code as u128).as_str());
    out.append(" ");
    out.append(status);
    out.append("\r\nContent-Type: text/plain\r\nContent-Length: ");
    out.append(decimal_of(body.as_bytes().len() as u128).as_str());
    out.append("\r\nConnection: close\r\n\r\n");
    out.append(body);
    out
}

/// What a document is.
#[derive(Debug, Clone, Copy, PartialEq, Eq, Structural)]
pub enum Document {
    Page,
    Config,
}

/// The media type of a document.
pub open spec fn media_type(document: Document) -> Seq<char> {
    match document {
        Document::Page => "text/html"@,
        Document::Config => "text/plain"@,
    }
}

/// The text of a reply with a document.
pub open spec fn document_text(document: Document, body: Seq<char>) -> Seq<char> {
    "HTTP/1.1 200 OK\r\nContent-Type: "@ + media_type(document)
        + "; charset=utf-8\r\nContent-Length: "@ + decimal(encode_utf8(body).len())
        + "\r\nConnection: close\r\n\r\n"@ + body
}

/// The text of a reply with a document.
pub fn document_response(document: Document, body: &str) -> (out: String)
    ensures
        out@ == document_text(document, body@),
{
    let media = match document {
        Document::Page => "text/html",
        Document::Config => "text/plain",
    };
    let mut out = "HTTP/1.1 200 OK\r\nContent-Type: ".to_owned();
    out.append(media);
    out.append("; charset=utf-8\r\nContent-Length: ");
    out.append(decimal_of(body.as_bytes().len() as u128).as_str());
    out.append("\r\nConnection: close\r\n\r\n");
    out.append(body);
    out
}

/// The reply with the page of the dashboard, in which the version of the station is filled in.
pub fn serve_html(template: &str, version: &str) -> (out: String)
    ensures
        out@ == document_text(
            Document::Page,
            replaced(template@, "{{STACK_VERSION}}"@, version@),
        ),
{
    proof {
        reveal_strlit("{{STACK_VERSION}}");
    }
    let page = replace(template, "{{STACK_VERSION}}", version);
    document_response(Document::Page, page.as_str())
}

/// The reply with the configuration, or with the reason why it could not be read.
pub fn serve_config_get(content: Result<String, String>) -> (out: String)
    ensures
        out@ == match content {
            Ok(text) => document_text(Document::Config, text@),
            Err(e) => reply_text(500, e@),
        },
{
    match content {
        Ok(text) => document_response(Document::Config, text.as_str()),
        Err(e) => http_response(500, e.as_str()),
    }
}

// ---------------------------------------------------------------------------------------------
// Messages
// ---------------------------------------------------------------------------------------------
/// What comes in on a connection for messages.
#[derive(Debug, Clone, Copy, PartialEq, Eq, Structural)]
pub enum Inbound {
    Text,
    Ping,
    Close,
    /// Another message.
    Other,
    /// Nothing yet.
    Nothing,
    /// The connection has failed.
    Failed,
}

/// What is done about it.
#[derive(Debug, Clone, Copy, PartialEq, Eq, Structural)]
pub enum Reaction {
    /// Take it as a command.
    Command,
    /// Answer it.
    Pong,
    /// Go on.
    Ignore,
    /// End the connection.
    End,
}

/// What is done about a message. Commands are taken only where they are allowed.
pub fn handle_ws(inbound: Inbound, allow_control_commands: bool) -> (out: Reaction)
    ensures
        out == match inbound {
            Inbound::Text => if allow_control_commands {
                Reaction::Command
            } else {
                Reaction::Ignore
            },
            Inbound::Ping => Reaction::Pong,
            Inbound::Close => Reaction::End,
            Inbound::Other => Reaction::Ignore,
            Inbound::Nothing => Reaction::Ignore,
            Inbound::Failed => Reaction::End,
        },
{
    match inbound {
        Inbound::Text => if allow_control_commands {
            Reaction::Command
        } else {
            Reaction::Ignore
        },
        Inbound::Ping => Reaction::Pong,
        Inbound::Close => Reaction::End,
        Inbound::Other => Reaction::Ignore,
        Inbound::Nothing => Reaction::Ignore,
        Inbound::Failed => Reaction::End,
    }
}

// ---------------------------------------------------------------------------------------------
// Laws
// ---------------------------------------------------------------------------------------------
/// Whoever gets at the configuration is allowed to, and has shown the token where one is
/// expected. A change that is accepted has a body, and one that is not too long.
pub proof fn configuration_is_guarded(
    allowed: bool,
    headers: HeadersView,
    expected: Option<Seq<char>>,
)
    ensures
        config_refused(allowed, headers.token, expected) is None <==> allowed && authorized(
            headers.token,
            expected,
        ),
        change_refused(allowed, headers, expected) is None <==> allowed && authorized(
            headers.token,
            expected,
        ) && 0 < headers.content_length <= MAX_CONFIG_BODY_BYTES,
{
}

/// Without the token nobody gets access where one is expected.
pub proof fn token_is_needed(token: Seq<char>)
    ensures
        !authorized(None, Some(token)),
        !query_authorized(None, Some(token)),
{
}

/// A valid token in the query of a request gives access.
pub proof fn token_in_query_is_accepted(token: Seq<char>)
    requires
        is_token(token),
    ensures
        query_authorized(Some("token="@ + token), Some(token)),
{
    reveal_strlit("token=");
    reveal_strlit("token");
    let query = "token="@ + token;
    assert forall|k: int| 0 <= k < query.len() implies query[k] != '&' by {
        if k >= 6 {
            assert(is_url_safe(token[k - 6]));
        }
    }
    lemma_first_index_is(query, '&', query.len() as int);
    assert(pieces(query, '&') =~= seq![query]);
    assert forall|k: int| 0 <= k < 5 implies query[k] != '=' by {}
    lemma_first_index_is(query, '=', 5);
    assert(query.take(5) =~= "token"@);
    assert(query.skip(6) =~= token);
    assert(parted(pieces(query, '&')[0], '=') == Some(("token"@, token)));
}

proof fn lemma_url_safe_is_not_white(c: char)
    requires
        is_url_safe(c),
    ensures
        !is_white(c),
{
}

/// A valid token in a header is understood, in either of two headers.
pub proof fn token_in_header_is_understood(headers: HeadersView, token: Seq<char>)
    requires
        is_token(token),
    ensures
        headers.with_line("Authorization: Bearer "@ + token + "\r\n"@).token == Some(token),
        headers.with_line("X-Dashboard-Token: "@ + token + "\r\n"@).token == Some(token),
{
    lemma_bearer_header(headers, token);
    lemma_token_header(headers, token);
}

proof fn lemma_bearer_header(headers: HeadersView, token: Seq<char>)
    requires
        is_token(token),
    ensures
        headers.with_line("Authorization: Bearer "@ + token + "\r\n"@).token == Some(token),
{
    reveal_strlit("Authorization: Bearer ");
    reveal_strlit("\r\n");
    reveal_strlit("authorization");
    reveal_strlit("content-length");
    reveal_strlit("x-dashboard-token");
    reveal_strlit("Bearer ");
    let n = token.len() as int;
    let line = "Authorization: Bearer "@ + token + "\r\n"@;
    lemma_first_index_is(line, ':', 13);
    let name = line.take(13);
    let value = line.skip(14);
    lemma_trimmed_is(name, 0, 13);
    assert(name.subrange(0, 13) =~= name);
    assert(lowered(name) =~= "authorization"@);
    assert("authorization"@.len() == 13 && "content-length"@.len() == 14
        && "x-dashboard-token"@.len() == 17);
    lemma_url_safe_is_not_white(token[n - 1]);
    lemma_url_safe_is_not_white(token[0]);
    assert(value[7 + n] == token[n - 1]);
    lemma_trimmed_is(value, 1, 8 + n);
    let content = value.subrange(1, 8 + n);
    assert("Bearer "@.is_prefix_of(content)) by {
        assert(content.take(7) =~= "Bearer "@);
    }
    assert(content.skip(7) =~= token);
    lemma_trimmed_is(token, 0, n);
    assert(token.subrange(0, n) =~= token);
}

proof fn lemma_token_header(headers: HeadersView, token: Seq<char>)
    requires
        is_token(token),
    ensures
        headers.with_line("X-Dashboard-Token: "@ + token + "\r\n"@).token == Some(token),
{
    reveal_strlit("X-Dashboard-Token: ");
    reveal_strlit("\r\n");
    reveal_strlit("content-length");
    reveal_strlit("x-dashboard-token");
    let n = token.len() as int;
    let line = "X-Dashboard-Token: "@ + token + "\r\n"@;
    lemma_first_index_is(line, ':', 17);
    let name = line.take(17);
    let value = line.skip(18);
    lemma_trimmed_is(name, 0, 17);
    assert(name.subrange(0, 17) =~= name);
    assert(lowered(name) =~= "x-dashboard-token"@);
    assert("content-length"@.len() == 14 && "x-dashboard-token"@.len() == 17);
    lemma_url_safe_is_not_white(token[n - 1]);
    lemma_url_safe_is_not_white(token[0]);
    assert(value[n] == token[n - 1]);
    lemma_trimmed_is(value, 1, 1 + n);
    assert(value.subrange(1, 1 + n) =~= token);
}

// ---------------------------------------------------------------------------------------------
// Laws of the operations
// ---------------------------------------------------------------------------------------------
/// A request is routed by its first line alone: to messages where that holds their path, and else
/// by method and path of the configuration; everything else is answered with the page.
pub proof fn requests_are_routed_by_their_first_line(
    head: &str,
    all: Vec<String>,
    out: Route,
    line: &str,
    ws: bool,
    get: bool,
    post: bool,
)
    requires
        call_ensures(route_of_text, (head,), out),
        call_ensures(lines, (head,), all),
        all@.len() > 0 ==> line@ == all@[0]@,
        all@.len() == 0 ==> line@.len() == 0,
        call_ensures(has_text, (line, "/ws"), ws),
        call_ensures(has_text, (line, "GET /api/config"), get),
        call_ensures(has_text, (line, "POST /api/config"), post),
    ensures
        out == Route::WebSocket <==> ws,
        out == Route::ReadConfig <==> !ws && get,
        out == Route::WriteConfig <==> !ws && !get && post,
{
    assert(views(all@).len() == all@.len());
    if all@.len() > 0 {
        assert(views(all@)[0] == all@[0]@);
    }
    assert(line@ =~= first_line(head@));
}

/// Bytes are routed as the text that is read from them.
pub proof fn bytes_are_routed_as_text(head: &[u8], out: Route, text: &str, same_out: Route)
    requires
        call_ensures(route, (head,), out),
        text@ == lossy(head@),
        call_ensures(route_of_text, (text,), same_out),
    ensures
        out == same_out,
{
}

/// The headers end at an empty line, with either line end, and at the end of the request.
pub proof fn headers_end_at_an_empty_line(line: &str, r: bool)
    requires
        call_ensures(ends_headers, (line,), r),
    ensures
        r <==> line@.len() == 0 || line@ == seq!['\n'] || line@ == seq!['\r', '\n'],
{
    reveal_strlit("\r\n");
    reveal_strlit("\n");
    assert("\r\n"@ =~= seq!['\r', '\n']);
    assert("\n"@ =~= seq!['\n']);
}

proof fn lemma_headers_end(from: HeadersView, all: Seq<Seq<char>>, more: Seq<Seq<char>>)
    requires
        exists|k: int| 0 <= k < all.len() && is_headers_end(#[trigger] all[k]),
    ensures
        headers_in(from, all + more) == headers_in(from, all),
    decreases all.len(),
{
    let k = choose|k: int| 0 <= k < all.len() && is_headers_end(#[trigger] all[k]);
    assert((all + more)[0] == all[0]);
    if !is_headers_end(all[0]) {
        let rest = all.drop_first();
        assert(rest[k - 1] == all[k]);
        lemma_headers_end(from.with_line(all[0]), rest, more);
        assert((all + more).drop_first() =~= rest + more);
    }
}

proof fn lemma_headers_last(from: HeadersView, all: Seq<Seq<char>>, line: Seq<char>)
    requires
        forall|k: int| 0 <= k < all.len() ==> !is_headers_end(#[trigger] all[k]),
    ensures
        headers_in(from, all.push(line)) == if is_headers_end(line) {
            headers_in(from, all)
        } else {
            headers_in(from, all).with_line(line)
        },
    decreases all.len(),
{
    let longer = all.push(line);
    if all.len() == 0 {
        assert(longer.drop_first().len() == 0);
        assert(headers_in(from.with_line(line), longer.drop_first()) == from.with_line(line));
    } else {
        let rest = all.drop_first();
        assert(longer[0] == all[0]);
        assert(longer.drop_first() =~= rest.push(line));
        assert forall|k: int| 0 <= k < rest.len() implies !is_headers_end(#[trigger] rest[k]) by {
            assert(rest[k] == all[k + 1]);
        }
        lemma_headers_last(from.with_line(all[0]), rest, line);
    }
}

/// Without lines there are no headers. What follows the line that ends them is not read.
pub proof fn headers_are_read_up_to_their_end(
    all: &Vec<String>,
    longer: &Vec<String>,
    more: Seq<String>,
    out: HttpHeaders,
    longer_out: HttpHeaders,
)
    requires
        call_ensures(read_http_headers, (all,), out),
        call_ensures(read_http_headers, (longer,), longer_out),
        longer@ == all@ + more,
    ensures
        all@.len() == 0 ==> out.content_length == 0 && out.token is None,
        (exists|k: int| 0 <= k < all@.len() && is_headers_end((#[trigger] all@[k])@))
            ==> longer_out.content_length == out.content_length && opt_view(longer_out.token)
            == opt_view(out.token),
{
    assert(views(longer@) =~= views(all@) + views(more));
    assert(out@.content_length == out.content_length && longer_out@.content_length
        == longer_out.content_length);
    if exists|k: int| 0 <= k < all@.len() && is_headers_end((#[trigger] all@[k])@) {
        let k = choose|k: int| 0 <= k < all@.len() && is_headers_end((#[trigger] all@[k])@);
        assert(views(all@)[k] == all@[k]@);
        lemma_headers_end(
            HeadersView { content_length: 0, token: None },
            views(all@),
            views(more),
        );
    }
}

/// A further line before the end of the headers changes what was read just by its own header. The
/// length is taken from its header, and is zero where that holds no number that can be a length.
/// The token is taken from its own header, or from an authorization of the kind that bears one.
/// Names are taken without regard to case and to space around them, contents without that space. A
/// line without colon, and a header of any other name or kind, changes nothing.
pub proof fn each_header_changes_its_own(
    all: &Vec<String>,
    line: String,
    longer: &Vec<String>,
    out: HttpHeaders,
    longer_out: HttpHeaders,
    name: Seq<char>,
    value: Seq<char>,
)
    requires
        call_ensures(read_http_headers, (all,), out),
        call_ensures(read_http_headers, (longer,), longer_out),
        longer@ == all@.push(line),
        forall|k: int| 0 <= k < all@.len() ==> !is_headers_end((#[trigger] all@[k])@),
        !is_headers_end(line@),
    ensures
        !line@.contains(':') ==> longer_out.content_length == out.content_length && opt_view(
            longer_out.token,
        ) == opt_view(out.token),
        line@ == name.push(':') + value && !name.contains(':') ==> {
            let key = lowered(trimmed(name));
            let content = trimmed(value);
            let bears = exists|rest: Seq<char>| content == #[trigger] ("Bearer "@ + rest);
            &&& key == "content-length"@ ==> {
                &&& opt_view(longer_out.token) == opt_view(out.token)
                &&& longer_out.content_length == match unsigned_number(content) {
                    Some(n) => if n <= usize::MAX {
                        n
                    } else {
                        0
                    },
                    None => 0,
                }
            }
            &&& key != "content-length"@ ==> longer_out.content_length == out.content_length
            &&& key == "x-dashboard-token"@ ==> (longer_out.token matches Some(t) && t@ == content)
            &&& key == "authorization"@ ==> forall|rest: Seq<char>|
                content == #[trigger] ("Bearer "@ + rest) ==> (longer_out.token matches Some(t) && t@
                    == trimmed(rest))
            &&& key == "authorization"@ && !bears ==> opt_view(longer_out.token) == opt_view(
                out.token,
            )
            &&& key != "x-dashboard-token"@ && key != "authorization"@ ==> opt_view(
                longer_out.token,
            ) == opt_view(out.token)
        },
{
    let from = HeadersView { content_length: 0, token: None };
    assert(views(longer@) =~= views(all@).push(line@));
    assert forall|k: int| 0 <= k < views(all@).len() implies !is_headers_end(
        #[trigger] views(all@)[k],
    ) by {
        assert(views(all@)[k] == all@[k]@);
    }
    lemma_headers_last(from, views(all@), line@);
    assert(longer_out@ == out@.with_line(line@));
    assert(out@.content_length == out.content_length && longer_out@.content_length
        == longer_out.content_length);
    assert(out@.token == opt_view(out.token) && longer_out@.token == opt_view(longer_out.token));
    if !line@.contains(':') {
        assert forall|k: int| 0 <= k < line@.len() implies line@[k] != ':' by {}
        lemma_first_index_is(line@, ':', line@.len() as int);
    }
    if line@ == name.push(':') + value && !name.contains(':') {
        let n = name.len() as int;
        assert forall|k: int| 0 <= k < n implies line@[k] != ':' by {
            assert(line@[k] == name[k]);
        }
        assert(line@[n] == ':');
        lemma_first_index_is(line@, ':', n);
        assert(line@.take(n) =~= name);
        assert(line@.skip(n + 1) =~= value);
        reveal_strlit("authorization");
        reveal_strlit("content-length");
        reveal_strlit("x-dashboard-token");
        assert("authorization"@.len() == 13 && "content-length"@.len() == 14
            && "x-dashboard-token"@.len() == 17);
        let content = trimmed(value);
        let bearer = "Bearer "@;
        assert forall|rest: Seq<char>| content == #[trigger] (bearer + rest) implies
            bearer.is_prefix_of(content) && content.skip(bearer.len() as int) == rest by {
            assert(content.subrange(0, bearer.len() as int) =~= bearer);
            assert(content.skip(bearer.len() as int) =~= rest);
        }
        if bearer.is_prefix_of(content) {
            assert(content =~= bearer + content.skip(bearer.len() as int));
        }
    }
}

/// Where no token is expected everyone has access; where one is, just who provides that one.
pub proof fn the_token_gives_access(
    provided: &Option<String>,
    expected: &Option<String>,
    r: bool,
)
    requires
        call_ensures(is_authorized, (provided, expected), r),
    ensures
        expected is None ==> r,
        expected matches Some(token) ==> (r <==> (provided matches Some(given) && given@ == token@)),
{
}

/// Where no token is expected every query gives access; where one is, just a query that has among
/// its parameters one of the name of the token with that token as its value. A refused connection
/// is answered so.
pub proof fn the_token_in_a_query_gives_access(
    query: &str,
    token: &str,
    items: Vec<String>,
    r: bool,
    open_query: bool,
    open_none: bool,
    no_query: bool,
    refusal: Option<&'static str>,
)
    requires
        call_ensures(ws_request_authorized, (Some(query), Some(token)), r),
        call_ensures(ws_request_authorized, (Some(query), None::<&str>), open_query),
        call_ensures(ws_request_authorized, (None::<&str>, None::<&str>), open_none),
        call_ensures(ws_request_authorized, (None::<&str>, Some(token)), no_query),
        call_ensures(split, (query, '&'), items),
        call_ensures(ws_refusal, (Some(query), Some(token)), refusal),
    ensures
        open_query && open_none && !no_query,
        r <==> exists|i: int|
            0 <= i < items@.len() && (#[trigger] items@[i])@ == "token"@.push('=') + token@,
        refusal is None <==> r,
        refusal matches Some(text) ==> text@ == "401 Unauthorized"@,
{
    let all = pieces(query@, '&');
    assert(views(items@).len() == items@.len());
    reveal_strlit("token");
    let name = "token"@;
    assert forall|i: int| 0 <= i < items@.len() implies (parted(#[trigger] all[i], '=') == Some(
        (name, token@),
    ) <==> items@[i]@ == name.push('=') + token@) by {
        let piece = all[i];
        assert(views(items@)[i] == items@[i]@);
        if piece == name.push('=') + token@ {
            assert forall|k: int| 0 <= k < 5 implies piece[k] != '=' by {
                assert(piece[k] == name[k]);
            }
            lemma_first_index_is(piece, '=', 5);
            assert(piece.take(5) =~= name);
            assert(piece.skip(6) =~= token@);
        }
        if parted(piece, '=') == Some((name, token@)) {
            crate::text::lemma_first_index(piece, '=');
            let j = crate::text::first_index(piece, '=');
            assert(piece =~= piece.take(j).push('=') + piece.skip(j + 1));
        }
    }
    if r {
        let i = choose|i: int|
            0 <= i < all.len() && parted(#[trigger] all[i], '=') == Some((name, token@));
        assert(items@[i]@ == name.push('=') + token@);
    }
    if exists|i: int| 0 <= i < items@.len() && (#[trigger] items@[i])@ == name.push('=') + token@ {
        let i = choose|i: int|
            0 <= i < items@.len() && (#[trigger] items@[i])@ == name.push('=') + token@;
        assert(parted(all[i], '=') == Some((name, token@)));
    }
}

/// The configuration is refused with 403 where it is not open, else with 401 without access. A
/// change of it is refused likewise, and then with 413 where its body has no byte or more than
/// 262144. Nothing else is refused.
pub proof fn refusals_have_their_codes(
    allowed: bool,
    headers: &HttpHeaders,
    expected: &Option<String>,
    read: Option<HttpReply>,
    change: Option<HttpReply>,
    access: bool,
)
    requires
        call_ensures(config_refusal, (allowed, &headers.token, expected), read),
        call_ensures(change_refusal, (allowed, headers, expected), change),
        call_ensures(is_authorized, (&headers.token, expected), access),
    ensures
        !allowed ==> (read matches Some(reply) && reply.code == 403 && reply.body@
            == "dashboard config API disabled"@),
        allowed && !access ==> (read matches Some(reply) && reply.code == 401 && reply.body@
            == "dashboard auth required"@),
        allowed && access ==> read is None,
        read matches Some(reply) ==> (change matches Some(same_reply) && same_reply.code
            == reply.code && same_reply.body@ == reply.body@),
        read is None ==> (change is None <==> 1 <= headers.content_length <= 262_144),
        read is None && change is Some ==> change->0.code == 413 && change->0.body@
            == "invalid config body size"@,
{
    assert(headers@.content_length == headers.content_length);
    assert(headers@.token == opt_view(headers.token));
}

/// A short reply gives its code, whether all went well, and the length of its text in bytes; the
/// text itself stands behind an empty line.
pub proof fn short_replies_are_framed(code: u16, body: &str, out: String)
    requires
        call_ensures(http_response, (code, body), out),
    ensures
        code == 200 ==> out@ == "HTTP/1.1 "@ + decimal(200) + " "@ + "OK"@
            + "\r\nContent-Type: text/plain\r\nContent-Length: "@ + decimal(
            encode_utf8(body@).len(),
        ) + "\r\nConnection: close\r\n\r\n"@ + body@,
        code != 200 ==> out@ == "HTTP/1.1 "@ + decimal(code as nat) + " "@ + "Error"@
            + "\r\nContent-Type: text/plain\r\nContent-Length: "@ + decimal(
            encode_utf8(body@).len(),
        ) + "\r\nConnection: close\r\n\r\n"@ + body@,
{
}

/// A document is given with its media type and its length in bytes, behind an empty line: the page
/// as HTML, the configuration as plain text.
pub proof fn documents_are_framed(body: &str, page: String, config: String)
    requires
        call_ensures(document_response, (Document::Page, body), page),
        call_ensures(document_response, (Document::Config, body), config),
    ensures
        page@ == "HTTP/1.1 200 OK\r\nContent-Type: "@ + "text/html"@
            + "; charset=utf-8\r\nContent-Length: "@ + decimal(encode_utf8(body@).len())
            + "\r\nConnection: close\r\n\r\n"@ + body@,
        config@ == "HTTP/1.1 200 OK\r\nContent-Type: "@ + "text/plain"@
            + "; charset=utf-8\r\nContent-Length: "@ + decimal(encode_utf8(body@).len())
            + "\r\nConnection: close\r\n\r\n"@ + body@,
{
}

/// The page is given with the version filled in wherever it belongs; the configuration as it is, or
/// with an error of the server that holds the reason.
pub proof fn documents_are_served(
    template: &str,
    version: &str,
    out: String,
    filled: String,
    page: &str,
    page_out: String,
    content: String,
    body: &str,
    config: String,
    config_out: String,
    failed: String,
    failed_out: String,
)
    requires
        call_ensures(serve_html, (template, version), out),
        call_ensures(replace, (template, "{{STACK_VERSION}}", version), filled),
        page@ == filled@,
        call_ensures(document_response, (Document::Page, page), page_out),
        body@ == content@,
        call_ensures(serve_config_get, (Ok::<String, String>(content),), config),
        call_ensures(document_response, (Document::Config, body), config_out),
        call_ensures(serve_config_get, (Err::<String, String>(content),), failed),
        call_ensures(http_response, (500u16, body), failed_out),
    ensures
        out@ == page_out@,
        config@ == config_out@,
        failed@ == failed_out@,
{
}

/// A text is taken as a command just where commands are allowed. A ping is answered, the end of a
/// connection and its failure end it, and everything else goes on.
pub proof fn messages_are_reacted_to(inbound: Inbound, allowed: bool, out: Reaction)
    requires
        call_ensures(handle_ws, (inbound, allowed), out),
    ensures
        out == Reaction::Command <==> inbound == Inbound::Text && allowed,
        out == Reaction::Pong <==> inbound == Inbound::Ping,
        out == Reaction::End <==> inbound == Inbound::Close || inbound == Inbound::Failed,
{
}

/// Without headers a request has no length and no token.
pub proof fn requests_without_headers_have_nothing(out: HttpHeaders)
    requires
        call_ensures(HttpHeaders::default, (), out),
    ensures
        out.content_length == 0,
        out.token is None,
{
    assert(out@.content_length == out.content_length && out@.token == opt_view(out.token));
}

/// Replies that look the same have the same code and the same text.
pub proof fn reply_is_known_by_its_view(a: Option<HttpReply>, b: Option<HttpReply>)
    requires
        reply_view(a) == reply_view(b),
    ensures
        a is None <==> b is None,
        a is Some ==> a->0.code == b->0.code && a->0.body@ == b->0.body@,
{
}

} // verus!
