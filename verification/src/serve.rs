//! Serving the output directory over HTTP.
//!
//! The library reads the head of a request, finds the file that the
//! request asks for, and frames the response; listening, reading files and
//! writing to the connection are left to the caller.

use crate::paths;
use crate::text;
use vstd::prelude::*;

verus! {

/// The settings of the server.
#[derive(Debug, Clone, PartialEq, Eq)]
pub struct Config {
    /// The directory that is served.
    pub static_base_path: String,
}

/// Why the server could not start.
#[derive(Debug, Clone, PartialEq, Eq)]
pub enum Error {
    /// The address could not be bound; the text says why.
    Bind(String),
}

/// The value of `c` as a digit in base 36, or 0 where it is no letter or
/// digit of ASCII.
pub open spec fn digit_value(c: char) -> int {
    if '0' <= c && c <= '9' {
        c as int - '0' as int
    } else if 'a' <= c && c <= 'z' {
        c as int - 'a' as int + 10
    } else if 'A' <= c && c <= 'Z' {
        c as int - 'A' as int + 10
    } else {
        0
    }
}

/// The sum of the digit values of the characters of `s`.
pub open spec fn digit_sum(s: Seq<char>) -> int
    decreases s.len(),
{
    if s.len() == 0 {
        0
    } else {
        digit_sum(s.drop_last()) + digit_value(s.last())
    }
}

/// The port for serving `s`: 8000 and the last three decimal places of
/// the digit sum of `s`.
pub open spec fn port_of(s: Seq<char>) -> int {
    8000 + digit_sum(s) % 1000
}

/// The value of `c` as a digit in base 36.
fn digit_value_of(c: char) -> (v: u32)
    ensures
        v as int == digit_value(c),
        v < 36,
{
    if '0' <= c && c <= '9' {
        c as u32 - '0' as u32
    } else if 'a' <= c && c <= 'z' {
        c as u32 - 'a' as u32 + 10
    } else if 'A' <= c && c <= 'Z' {
        c as u32 - 'A' as u32 + 10
    } else {
        0
    }
}

/// The port on which the directory named `s` is served.
pub fn listen_port_from_str(s: &str) -> (port: u32)
    ensures
        port as int == port_of(s@),
        8000 <= port < 9000,
{
    let chars = text::to_chars(s);
    let mut n: u32 = 0;
    let mut i: usize = 0;
    while i < chars.len()
        invariant
            i <= chars.len(),
            n < 1000,
            n as int == digit_sum(chars@.take(i as int)) % 1000,
        decreases chars.len() - i,
    {
        let d = digit_value_of(chars[i]);
        proof {
            let before = chars@.take(i as int);
            let now = chars@.take(i + 1);
            assert(now.drop_last() == before);
            assert(now.last() == chars@[i as int]);
            vstd::arithmetic::div_mod::lemma_add_mod_noop(
                digit_sum(before),
                d as int,
                1000,
            );
            vstd::arithmetic::div_mod::lemma_small_mod(d as nat, 1000);
        }
        n = (n + d) % 1000;
        i = i + 1;
    }
    assert(chars@.take(chars.len() as int) == chars@);
    8000 + n
}

/// The address on which the server listens.
pub fn listen_addr(config: &Config) -> (addr: String)
    ensures
        addr@ == "127.0.0.1:"@ + text::digits(port_of(config.static_base_path@) as nat),
{
    let port = listen_port_from_str(config.static_base_path.as_str());
    let digits = text::decimal(port as usize);
    text::append("127.0.0.1:", text::from_chars(&digits).as_str())
}

/// The head of a request.
#[derive(Debug, Clone, PartialEq, Eq)]
pub struct Request {
    pub method: String,
    /// The path of the request's target.
    pub path: String,
}

/// What a parser of HTTP finds in the head of a request: the method and
/// the target as far as they are complete, or `None` where the head is no
/// request.
pub uninterp spec fn parsed_request(head: Seq<u8>) -> Option<
    (Option<Seq<char>>, Option<Seq<char>>),
>;

/// The path of a request's target, or `None` where the target is no URI.
pub uninterp spec fn uri_path(target: Seq<char>) -> Option<Seq<char>>;

/// The media type that goes with a file extension, if one is known.
pub uninterp spec fn mime_of_ext(ext: Seq<char>) -> Option<Seq<char>>;

/// The bytes that a text stands for in base 64, or `None` where it is no
/// base 64.
pub uninterp spec fn base64_decoded(input: Seq<char>) -> Option<Seq<u8>>;

/// `httparse::Request::parse`, with room for 64 headers: the method and
/// the target that the parser found in `head`, each missing where the head
/// ends before it, or `None` where the parser refuses `head`.
#[verifier::external_body]
fn parse_request(head: &[u8]) -> (r: Option<(Option<String>, Option<String>)>)
    ensures
        parsed_request(head@) == (match r {
            Some((method, target)) => Some((text::opt_view(method), text::opt_view(target))),
            None => None,
        }),
{
    let mut headers = [httparse::EMPTY_HEADER;64];
    let mut request = httparse::Request::new(&mut headers);
    match request.parse(head) {
        Ok(_) => Some((request.method.map(str::to_owned), request.path.map(str::to_owned))),
        Err(_) => None,
    }
}

/// `http::Uri`, parsed from `target`, and its `path`: the path of the
/// target, or `None` where `target` is refused as a URI.
#[verifier::external_body]
fn path_of_target(target: &str) -> (r: Option<String>)
    ensures
        text::opt_view(r) == uri_path(target@),
{
    match target.parse::<http::Uri>() {
        Ok(uri) => Some(uri.path().to_owned()),
        Err(_) => None,
    }
}

/// `mime_guess::from_ext` and `first`: the first media type that is known
/// for the extension `ext`, written out, or `None` where none is known.
#[verifier::external_body]
fn mime_for_ext(ext: &str) -> (r: Option<String>)
    ensures
        text::opt_view(r) == mime_of_ext(ext@),
{
    mime_guess::from_ext(ext).first().map(|mime| mime.to_string())
}

/// `base64::decode`: the bytes that `input` stands for in the standard
/// alphabet, or `None` where `input` is refused.
#[verifier::external_body]
fn base64_decode(input: &str) -> (r: Option<Vec<u8>>)
    ensures
        base64_decoded(input@) == (match r {
            Some(bytes) => Some(bytes@),
            None => None,
        }),
{
    base64::decode(input).ok()
}

/// The request that `parsed` stands for: a missing method counts as `GET`
/// and a missing target as `/`. A head that is no request, and a target
/// that is no URI, are refused.
pub open spec fn request_of(
    parsed: Option<(Option<Seq<char>>, Option<Seq<char>>)>,
) -> Option<(Seq<char>, Seq<char>)> {
    match parsed {
        None => None,
        Some((method, target)) => {
            let method = match method {
                Some(m) => m,
                None => "GET"@,
            };
            let target = match target {
                Some(t) => t,
                None => "/"@,
            };
            match uri_path(target) {
                Some(path) => Some((method, path)),
                None => None,
            }
        },
    }
}

/// Reads the head of a request: its method and the path of its target.
pub fn read_request(head: &[u8]) -> (r: Result<Request, String>)
    ensures
        match request_of(parsed_request(head@)) {
            Some((method, path)) => r matches Ok(req) && req.method@ == method && req.path@
                == path,
            None => r matches Err(message) && message@ == "Failed to read request"@,
        },
{
    let (method, target) = match parse_request(head) {
        Some(found) => found,
        None => {
            return Err("Failed to read request".to_owned());
        },
    };
    let method = match method {
        Some(m) => m,
        None => "GET".to_owned(),
    };
    let target = match target {
        Some(t) => t,
        None => "/".to_owned(),
    };
    match path_of_target(target.as_str()) {
        Some(path) => Ok(Request { method, path }),
        None => Err("Failed to read request".to_owned()),
    }
}

/// The line that is logged for a request.
pub fn log_request(req: &Request) -> (line: String)
    ensures
        line@ == "["@ + req.method@ + "] "@ + req.path@,
{
    let mut out = text::to_chars("[");
    text::extend(&mut out, &text::to_chars(req.method.as_str()));
    text::extend(&mut out, &text::to_chars("] "));
    text::extend(&mut out, &text::to_chars(req.path.as_str()));
    text::from_chars(&out)
}

/// The path in the served directory that a request asks for.
pub open spec fn requested(base: Seq<char>, path: Seq<char>) -> Seq<char> {
    paths::spec_join(base, paths::trim_slashes(path))
}

/// The path in the served directory that `req` asks for.
pub fn requested_path(config: &Config, req: &Request) -> (path: String)
    ensures
        path@ == requested(config.static_base_path@, req.path@),
{
    let rel = paths::trim_leading_slashes(req.path.as_str());
    paths::join(config.static_base_path.as_str(), rel.as_str())
}

/// The file that answers `req`: the requested path itself, or the file
/// `index.html` in it where it is a directory, which `is_dir` says.
pub fn file_path_from_req(config: &Config, req: &Request, is_dir: bool) -> (path: String)
    ensures
        path@ == (if is_dir {
            paths::spec_join(requested(config.static_base_path@, req.path@), "index.html"@)
        } else {
            requested(config.static_base_path@, req.path@)
        }),
{
    let abs_path = requested_path(config, req);
    if is_dir {
        paths::join(abs_path.as_str(), "index.html")
    } else {
        abs_path
    }
}

/// What is sent back: the content and its media type.
#[derive(Debug, Clone, PartialEq, Eq)]
pub struct Body {
    pub content: Vec<u8>,
    pub content_type: String,
}

/// What became of the file that a request asks for.
#[derive(Debug, Clone, PartialEq, Eq)]
pub enum Found {
    /// There is no such file.
    Missing,
    /// The bytes of the file.
    Content(Vec<u8>),
    /// The file could not be read; the text says why.
    Unreadable(String),
}

/// The media type for content of unknown kind.
pub open spec fn octet_stream() -> Seq<char> {
    "application/octet-stream"@
}

/// The media type of the file at `path`, going by its extension.
pub open spec fn media_type(path: Seq<char>) -> Seq<char> {
    match paths::extension(path) {
        Some(ext) => match mime_of_ext(ext) {
            Some(mime) => mime,
            None => octet_stream(),
        },
        None => octet_stream(),
    }
}

/// The icon that is served where the directory has none, in base 64.
pub open spec fn favicon_text() -> Seq<char> {
    "AAABAAEAEBAQAAEABAAoAQAAFgAAACgAAAAQAAAAIAAAAAEABAAAAAAAgAAAAAAAAAAAAAAAEAAAAAAAAAAAAAAAAAAAAAAAAAAAAAAAAAAAAAAAAAAAAAAAAAAAAAAAAAAAAAAAAAAAAAAAAAAAAAAAAAAAAAAAAAAAAAAAAAAAAAAAAAAAAAAAAAAAAAAAAAAAAAAAAAAAAAAAAAAAAAAAAAAAAAAAAAAAAAAAAAAAAAAAAAAAAAAAAAAAAAAAAAAAAAAAAAAAAAAAAAAAAAAAAAAAAAAAAAAAAAAAAAAAAAAAAAAAAAAAAAAAAAAAAAAAAAAAAAAAAAAAAAD//wAA//8AAP//AAD//wAA//8AAP//AAD//wAA//8AAP//AAD//wAA//8AAP//AAD//wAA//8AAP//AAD//wAA"@
}

/// The media type of the file at `path`.
fn media_type_of(path: &str) -> (mime: String)
    ensures
        mime@ == media_type(path@),
{
    let known = match paths::extension_of(path) {
        Some(ext) => mime_for_ext(ext.as_str()),
        None => None,
    };
    match known {
        Some(mime) => mime,
        None => "application/octet-stream".to_owned(),
    }
}

/// The icon that is served where the directory has none.
pub fn favicon() -> (icon: Option<Vec<u8>>)
    ensures
        match base64_decoded(favicon_text()) {
            Some(bytes) => icon matches Some(found) && found@ == bytes,
            None => icon is None,
        },
{
    base64_decode(
        "AAABAAEAEBAQAAEABAAoAQAAFgAAACgAAAAQAAAAIAAAAAEABAAAAAAAgAAAAAAAAAAAAAAAEAAAAAAAAAAAAAAAAAAAAAAAAAAAAAAAAAAAAAAAAAAAAAAAAAAAAAAAAAAAAAAAAAAAAAAAAAAAAAAAAAAAAAAAAAAAAAAAAAAAAAAAAAAAAAAAAAAAAAAAAAAAAAAAAAAAAAAAAAAAAAAAAAAAAAAAAAAAAAAAAAAAAAAAAAAAAAAAAAAAAAAAAAAAAAAAAAAAAAAAAAAAAAAAAAAAAAAAAAAAAAAAAAAAAAAAAAAAAAAAAAAAAAAAAAAAAAAAAAAAAAAAAAD//wAA//8AAP//AAD//wAA//8AAP//AAD//wAA//8AAP//AAD//wAA//8AAP//AAD//wAA//8AAP//AAD//wAA",
    )
}

/// What is sent back for the file at `file_path`. A file that is there
/// is sent with the media type of its extension. In place of a missing
/// `favicon.ico` the built-in icon is sent. Any other missing file, and a
/// file that cannot be read, is refused with a message.
pub fn prepare_response_body(file_path: &str, found: Found) -> (r: Result<Body, String>)
    ensures
        match found {
            Found::Content(bytes) => r matches Ok(body) && body.content == bytes
                && body.content_type@ == media_type(file_path@),
            Found::Unreadable(reason) => r matches Err(message) && message@
                == "Failed to read file: "@ + reason@,
            Found::Missing => if paths::file_name(file_path@) == "favicon.ico"@ && base64_decoded(
                favicon_text(),
            ) is Some {
                r matches Ok(body) && body.content@ == base64_decoded(favicon_text()).unwrap()
                    && body.content_type@ == media_type("favicon.ico"@)
            } else {
                r matches Err(message) && message@ == "Path not found: "@ + file_path@
            },
        },
{
    match found {
        Found::Content(content) => Ok(Body { content, content_type: media_type_of(file_path) }),
        Found::Unreadable(reason) => Err(text::append("Failed to read file: ", reason.as_str())),
        Found::Missing => {
            let name = text::to_chars(paths::file_name_of(file_path).as_str());
            let icon = if text::same(&name, &text::to_chars("favicon.ico")) {
                favicon()
            } else {
                None
            };
            match icon {
                Some(content) => Ok(Body { content, content_type: media_type_of("favicon.ico") }),
                None => Err(text::append("Path not found: ", file_path)),
            }
        },
    }
}

/// A response: its headers, each a name and a value, and its body. Every
/// response is sent with the status 200.
#[derive(Debug, Clone, PartialEq, Eq)]
pub struct Response {
    pub headers: Vec<(String, String)>,
    pub body: Vec<u8>,
}

/// The response that carries `body`: its media type is the first header,
/// and `headers` follow.
pub fn prepare_response(body: Body, headers: &Vec<(String, String)>) -> (res: Response)
    ensures
        res.body == body.content,
        res.headers@.len() == headers@.len() + 1,
        res.headers@[0].0@ == "content-type"@,
        res.headers@[0].1@ == body.content_type@,
        forall|i: int|
            0 <= i < headers@.len() ==> (#[trigger] res.headers@[i + 1]).0@ == headers@[i].0@
                && res.headers@[i + 1].1@ == headers@[i].1@,
{
    let mut all: Vec<(String, String)> = Vec::new();
    all.push(("content-type".to_owned(), body.content_type));
    let mut i: usize = 0;
    while i < headers.len()
        invariant
            i <= headers.len(),
            all@.len() == i + 1,
            all@[0].0@ == "content-type"@,
            all@[0].1@ == body.content_type@,
            forall|j: int|
                0 <= j < i ==> (#[trigger] all@[j + 1]).0@ == headers@[j].0@ && all@[j + 1].1@
                    == headers@[j].1@,
        decreases headers.len() - i,
    {
        all.push((headers[i].0.clone(), headers[i].1.clone()));
        i = i + 1;
    }
    Response { headers: all, body: body.content }
}

/// The lines of the headers, each ended by a carriage return and a line
/// feed.
pub open spec fn header_lines(headers: Seq<(String, String)>) -> Seq<char>
    decreases headers.len(),
{
    if headers.len() == 0 {
        Seq::empty()
    } else {
        header_lines(headers.drop_last()) + headers.last().0@ + ": "@ + headers.last().1@
            + "\r\n"@
    }
}

/// The head of a response with the given headers and a body of
/// `body_len` bytes: the status line, the length of the body, the headers,
/// and an empty line.
pub open spec fn head_of(headers: Seq<(String, String)>, body_len: nat) -> Seq<char> {
    "HTTP/1.1 200 OK\r\nContent-Length: "@ + text::digits(body_len) + "\r\n"@ + header_lines(
        headers,
    ) + "\r\n"@
}

/// The head of the response `res`, as it is written before the body.
pub fn write_response(res: &Response) -> (head: String)
    ensures
        head@ == head_of(res.headers@, res.body@.len()),
{
    let crnl = text::to_chars("\r\n");
    let colon = text::to_chars(": ");
    let mut out = text::to_chars("HTTP/1.1 200 OK\r\nContent-Length: ");
    text::extend(&mut out, &text::decimal(res.body.len()));
    text::extend(&mut out, &crnl);
    let ghost start = out@;
    let mut i: usize = 0;
    while i < res.headers.len()
        invariant
            i <= res.headers.len(),
            crnl@ == "\r\n"@,
            colon@ == ": "@,
            out@ == start + header_lines(res.headers@.take(i as int)),
        decreases res.headers.len() - i,
    {
        proof {
            assert(res.headers@.take(i + 1).drop_last() == res.headers@.take(i as int));
            assert(res.headers@.take(i + 1).last() == res.headers@[i as int]);
        }
        text::extend(&mut out, &text::to_chars(res.headers[i].0.as_str()));
        text::extend(&mut out, &colon);
        text::extend(&mut out, &text::to_chars(res.headers[i].1.as_str()));
        text::extend(&mut out, &crnl);
        i = i + 1;
    }
    assert(res.headers@.take(res.headers.len() as int) == res.headers@);
    text::extend(&mut out, &crnl);
    text::from_chars(&out)
}

} // verus!
