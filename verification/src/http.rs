//! Sequential request handling: configuration, request-line parsing and
//! response formatting for the small static-file server that feeds the pool.

use vstd::prelude::*;

verus! {

/// The listen address and port, taken from the command line.
pub struct Config {
    pub address: String,
    pub port: String,
}

impl Config {
    /// A configuration with both fields still empty.
    pub fn new() -> (c: Config)
        ensures
            c.address@ == Seq::<char>::empty(),
            c.port@ == Seq::<char>::empty(),
    {
        Config { address: String::new(), port: String::new() }
    }

    /// Takes the listen address and port from the first two command-line
    /// arguments after the program name.
    pub fn parse_args(&mut self, args: &Vec<String>)
        requires
            args@.len() >= 3,
        ensures
            final(self).address@ == args@[1]@,
            final(self).port@ == args@[2]@,
    {
        self.address = args[1].clone();
        self.port = args[2].clone();
    }
}

/// The separators inside a request line: blanks, tabs, and the carriage
/// return that precedes the line feed in a network request line.
pub open spec fn is_space(c: char) -> bool {
    c == ' ' || c == '\t' || c == '\r'
}

/// End of the first line of `s`, scanning from `i`: the position of the
/// first line feed at or after `i`, or the length of `s` when there is none.
pub open spec fn line_end(s: Seq<char>, i: int) -> int
    recommends
        0 <= i <= s.len(),
    decreases s.len() - i when 0 <= i <= s.len()
{
    if i < 0 || i >= s.len() {
        s.len() as int
    } else if s[i] == '\n' {
        i
    } else {
        line_end(s, i + 1)
    }
}

/// First position at or after `i` but below `end` holding a non-separator
/// character, or `end` when the rest is all separators.
pub open spec fn skip_spaces(s: Seq<char>, i: int, end: int) -> int
    recommends
        0 <= i <= end <= s.len(),
    decreases end - i when i <= end
{
    if i < 0 || i >= end {
        end
    } else if is_space(s[i]) {
        skip_spaces(s, i + 1, end)
    } else {
        i
    }
}

/// End of the token that starts at `i`: the first position at or after `i`
/// but below `end` holding a separator, or `end`.
pub open spec fn token_end(s: Seq<char>, i: int, end: int) -> int
    recommends
        0 <= i <= end <= s.len(),
    decreases end - i when i <= end
{
    if i < 0 || i >= end {
        end
    } else if is_space(s[i]) {
        i
    } else {
        token_end(s, i + 1, end)
    }
}

/// Where the method token of the request line starts.
pub open spec fn method_start(s: Seq<char>) -> int {
    skip_spaces(s, 0, line_end(s, 0))
}

/// Where the method token ends.
pub open spec fn method_stop(s: Seq<char>) -> int {
    token_end(s, method_start(s), line_end(s, 0))
}

/// Where the path token starts.
pub open spec fn path_start(s: Seq<char>) -> int {
    skip_spaces(s, method_stop(s), line_end(s, 0))
}

/// Where the path token ends.
pub open spec fn path_stop(s: Seq<char>) -> int {
    token_end(s, path_start(s), line_end(s, 0))
}

/// Where the protocol token starts.
pub open spec fn protocol_start(s: Seq<char>) -> int {
    skip_spaces(s, path_stop(s), line_end(s, 0))
}

/// Where the protocol token ends.
pub open spec fn protocol_stop(s: Seq<char>) -> int {
    token_end(s, protocol_start(s), line_end(s, 0))
}

/// A request is parseable when its first line carries at least three
/// separator-delimited tokens: method, path, and protocol.
pub open spec fn request_line_ok(s: Seq<char>) -> bool {
    &&& method_start(s) < line_end(s, 0)
    &&& path_start(s) < line_end(s, 0)
    &&& protocol_start(s) < line_end(s, 0)
}

/// The method token of the request line.
pub open spec fn method_of(s: Seq<char>) -> Seq<char> {
    s.subrange(method_start(s), method_stop(s))
}

/// The path the request resolves to: its path token appended to the static
/// file directory, with one trailing slash removed.
pub open spec fn path_of(s: Seq<char>) -> Seq<char> {
    let token = s.subrange(path_start(s), path_stop(s));
    "./static"@ + (if token.len() > 0 && token.last() == '/' {
        token.drop_last()
    } else {
        token
    })
}

/// The protocol token of the request line.
pub open spec fn protocol_of(s: Seq<char>) -> Seq<char> {
    s.subrange(protocol_start(s), protocol_stop(s))
}

/// A token never ends before it starts, and a token that starts on a
/// non-separator character is not empty.
proof fn lemma_token_end_bounds(s: Seq<char>, i: int, end: int)
    requires
        0 <= i <= end <= s.len(),
    ensures
        i <= token_end(s, i, end) <= end,
        i < end && !is_space(s[i]) ==> token_end(s, i, end) > i,
    decreases end - i,
{
    if i < end && !is_space(s[i]) {
        lemma_token_end_bounds(s, i + 1, end);
    }
}

/// Character position of the end of the first line of `s`.
fn scan_line_end(s: &str) -> (r: usize)
    ensures
        r == line_end(s@, 0),
        r <= s@.len(),
{
    let n = s.unicode_len();
    let mut i: usize = 0;
    while i < n && s.get_char(i) != '\n'
        invariant
            n == s@.len(),
            i <= n,
            line_end(s@, 0) == line_end(s@, i as int),
        decreases n - i,
    {
        i = i + 1;
    }
    i
}

/// First non-separator position in `s` at or after `from` and below `end`.
fn scan_skip_spaces(s: &str, from: usize, end: usize) -> (r: usize)
    requires
        from <= end <= s@.len(),
    ensures
        r == skip_spaces(s@, from as int, end as int),
        from <= r <= end,
        r < end ==> !is_space(s@[r as int]),
{
    let mut i: usize = from;
    while i < end && is_space_char(s.get_char(i))
        invariant
            from <= i <= end,
            end <= s@.len(),
            skip_spaces(s@, from as int, end as int) == skip_spaces(s@, i as int, end as int),
        decreases end - i,
    {
        i = i + 1;
    }
    i
}

/// End of the token starting at `from` in `s`, bounded by `end`.
fn scan_token_end(s: &str, from: usize, end: usize) -> (r: usize)
    requires
        from <= end <= s@.len(),
    ensures
        r == token_end(s@, from as int, end as int),
        from <= r <= end,
{
    let mut i: usize = from;
    while i < end && !is_space_char(s.get_char(i))
        invariant
            from <= i <= end,
            end <= s@.len(),
            token_end(s@, from as int, end as int) == token_end(s@, i as int, end as int),
        decreases end - i,
    {
        i = i + 1;
    }
    i
}

/// Whether `c` separates request-line fields.
fn is_space_char(c: char) -> (r: bool)
    ensures
        r == is_space(c),
{
    c == ' ' || c == '\t' || c == '\r'
}

/// Character-by-character string equality.
pub fn str_eq(a: &str, b: &str) -> (r: bool)
    ensures
        r == (a@ == b@),
{
    let na = a.unicode_len();
    let nb = b.unicode_len();
    if na != nb {
        return false;
    }
    let mut i: usize = 0;
    while i < na
        invariant
            i <= na,
            na == a@.len(),
            na == b@.len(),
            forall|j: int| 0 <= j < i ==> a@[j] == b@[j],
        decreases na - i,
    {
        if a.get_char(i) != b.get_char(i) {
            return false;
        }
        i = i + 1;
    }
    proof {
        assert(a@ =~= b@);
    }
    true
}

/// A parsed request line.
pub struct Request {
    pub method: String,
    pub path: String,
    pub protocol: String,
}

/// The response under construction.
pub struct Response {
    pub protocol: String,
    pub status: String,
    pub body: String,
}

/// Parses one request and builds the response text for it.
pub struct RequestHandler {
    pub request: Request,
    pub response: Response,
}

/// The status line owed to a request: a GET is served when its path exists
/// and answered not-found otherwise; any other method is refused.
pub open spec fn status_of(method: Seq<char>, path_exists: bool) -> Seq<char> {
    if method == "GET"@ {
        if path_exists {
            "200 OK"@
        } else {
            "404 NOT FOUND"@
        }
    } else {
        "405 METHOD NOT ALLOWED"@
    }
}

/// The digit character for a value below ten.
pub open spec fn decimal_digit(n: nat) -> char {
    if n == 0 {
        '0'
    } else if n == 1 {
        '1'
    } else if n == 2 {
        '2'
    } else if n == 3 {
        '3'
    } else if n == 4 {
        '4'
    } else if n == 5 {
        '5'
    } else if n == 6 {
        '6'
    } else if n == 7 {
        '7'
    } else if n == 8 {
        '8'
    } else {
        '9'
    }
}

/// The decimal numeral for `n`, most significant digit first and without
/// leading zeros (`0` itself is the single digit `0`).
pub open spec fn decimal_of(n: nat) -> Seq<char>
    decreases n,
{
    if n < 10 {
        seq![decimal_digit(n)]
    } else {
        decimal_of(n / 10).push(decimal_digit(n % 10))
    }
}

/// The full response text: status line carrying the protocol, the status,
/// and the body's length in bytes, then an empty line, then the body.
pub open spec fn response_text(
    protocol: Seq<char>,
    status: Seq<char>,
    body_bytes: nat,
    body: Seq<char>,
) -> Seq<char> {
    protocol + " "@ + status + " "@ + decimal_of(body_bytes) + "\r\n\r\n"@ + body
}

fn digit_str(d: usize) -> (r: &'static str)
    requires
        d < 10,
    ensures
        r@ == seq![decimal_digit(d as nat)],
{
    proof {
        reveal_strlit("0");
        reveal_strlit("1");
        reveal_strlit("2");
        reveal_strlit("3");
        reveal_strlit("4");
        reveal_strlit("5");
        reveal_strlit("6");
        reveal_strlit("7");
        reveal_strlit("8");
        reveal_strlit("9");
    }
    let r = if d == 0 {
        "0"
    } else if d == 1 {
        "1"
    } else if d == 2 {
        "2"
    } else if d == 3 {
        "3"
    } else if d == 4 {
        "4"
    } else if d == 5 {
        "5"
    } else if d == 6 {
        "6"
    } else if d == 7 {
        "7"
    } else if d == 8 {
        "8"
    } else {
        "9"
    };
    proof {
        assert(r@ =~= seq![decimal_digit(d as nat)]);
    }
    r
}

/// The decimal numeral for `n`.
pub fn decimal_string(n: usize) -> (r: String)
    ensures
        r@ == decimal_of(n as nat),
    decreases n,
{
    if n < 10 {
        digit_str(n).to_owned()
    } else {
        let mut prefix = decimal_string(n / 10);
        prefix.append(digit_str(n % 10));
        proof {
            assert(decimal_of((n / 10) as nat).push(decimal_digit((n % 10) as nat))
                =~= decimal_of((n / 10) as nat) + seq![decimal_digit((n % 10) as nat)]);
        }
        prefix
    }
}

impl RequestHandler {
    /// A handler with an empty request and a response primed for success.
    pub fn new() -> (h: RequestHandler)
        ensures
            h.request.method@ == Seq::<char>::empty(),
            h.request.path@ == Seq::<char>::empty(),
            h.request.protocol@ == Seq::<char>::empty(),
            h.response.protocol@ == "HTTP/1.1"@,
            h.response.status@ == "200 OK"@,
            h.response.body@ == Seq::<char>::empty(),
    {
        RequestHandler {
            request: Request {
                method: String::new(),
                path: String::new(),
                protocol: String::new(),
            },
            response: Response {
                protocol: String::from_str("HTTP/1.1"),
                status: String::from_str("200 OK"),
                body: String::new(),
            },
        }
    }

    /// Splits the first line of the request into its method, path and
    /// protocol fields; the path token is rooted in the static file
    /// directory and loses one trailing slash. The response is untouched.
    pub fn parse_request(&mut self, request: &String)
        requires
            request_line_ok(request@),
        ensures
            final(self).request.method@ == method_of(request@),
            final(self).request.path@ == path_of(request@),
            final(self).request.protocol@ == protocol_of(request@),
            final(self).response == old(self).response,
    {
        let s = request.as_str();
        let end = scan_line_end(s);

        let m0 = scan_skip_spaces(s, 0, end);
        let m1 = scan_token_end(s, m0, end);
        self.request.method = s.substring_char(m0, m1).to_owned();

        let p0 = scan_skip_spaces(s, m1, end);
        let p1 = scan_token_end(s, p0, end);
        proof {
            assert(p0 < p1) by {
                assert(!is_space(s@[p0 as int]));
                lemma_token_end_bounds(s@, p0 as int, end as int);
            }
        }
        let mut path = String::from_str("./static");
        let token_stop = if s.get_char(p1 - 1) == '/' {
            p1 - 1
        } else {
            p1
        };
        path.append(s.substring_char(p0, token_stop));
        proof {
            let token = s@.subrange(p0 as int, p1 as int);
            if s@[p1 - 1] == '/' {
                assert(s@.subrange(p0 as int, p1 - 1) =~= token.drop_last());
            }
            assert(token.len() > 0 && token.last() == s@[p1 - 1]);
        }
        self.request.path = path;

        let r0 = scan_skip_spaces(s, p1, end);
        let r1 = scan_token_end(s, r0, end);
        self.request.protocol = s.substring_char(r0, r1).to_owned();
    }

    /// Whether the request should be answered with the file at its own path
    /// — a GET whose path exists — rather than with the fallback page.
    pub fn serves_request_path(&self, path_exists: bool) -> (r: bool)
        ensures
            r == (self.request.method@ == "GET"@ && path_exists),
    {
        str_eq(self.request.method.as_str(), "GET") && path_exists
    }

    /// Chooses the status the parsed request is owed and assembles the full
    /// response text around `content`, which the caller read from the file
    /// the request resolves to — the requested file when
    /// [`Self::serves_request_path`] says so, the fallback page otherwise.
    pub fn get_response(&mut self, path_exists: bool, content: &String)
        ensures
            final(self).response.status@ == status_of(old(self).request.method@, path_exists),
            final(self).response.body@ == response_text(
                old(self).response.protocol@,
                status_of(old(self).request.method@, path_exists),
                vstd::utf8::encode_utf8(content@).len(),
                content@,
            ),
            final(self).response.protocol@ == old(self).response.protocol@,
            final(self).request == old(self).request,
    {
        if str_eq(self.request.method.as_str(), "GET") {
            if path_exists {
                self.response.status = String::from_str("200 OK");
            } else {
                self.response.status = String::from_str("404 NOT FOUND");
            }
        } else {
            self.response.status = String::from_str("405 METHOD NOT ALLOWED");
        }
        let mut text = String::new();
        text.append(self.response.protocol.as_str());
        text.append(" ");
        text.append(self.response.status.as_str());
        text.append(" ");
        let content_bytes: &[u8] = content.as_str().as_bytes();
        let length = decimal_string(content_bytes.len());
        text.append(length.as_str());
        text.append("\r\n\r\n");
        text.append(content.as_str());
        self.response.body = text;
    }
}

/// Whether the request's first line carries the three fields that
/// [`RequestHandler::parse_request`] demands.
pub fn request_line_well_formed(request: &String) -> (r: bool)
    ensures
        r == request_line_ok(request@),
{
    let s = request.as_str();
    let end = scan_line_end(s);
    let m0 = scan_skip_spaces(s, 0, end);
    if m0 >= end {
        return false;
    }
    let m1 = scan_token_end(s, m0, end);
    let p0 = scan_skip_spaces(s, m1, end);
    if p0 >= end {
        return false;
    }
    let p1 = scan_token_end(s, p0, end);
    let r0 = scan_skip_spaces(s, p1, end);
    r0 < end
}

} // verus!
