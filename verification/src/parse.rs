//! Framing and parsing of the HTTP CONNECT request.
//!
//! A request is a single HTTP/1.x header block: a request line, up to
//! [`MAX_HTTP_HEADERS`] header lines, and an empty line, every line ended by
//! CRLF. The parser accepts exactly the requests whose method is `CONNECT`
//! and hands back the request target verbatim; header lines are accepted but
//! not otherwise validated.

use vstd::prelude::*;

verus! {

/// Carriage return, the first byte of a line ending.
pub const CR: u8 = 13;

/// Line feed, the second byte of a line ending.
pub const LF: u8 = 10;

/// The space that separates the fields of the request line.
pub const SP: u8 = 32;

/// The most header lines a request may carry; one more is a parse failure.
pub const MAX_HTTP_HEADERS: usize = 16;

/// Why parsing failed.
#[derive(Clone, Copy, Debug, PartialEq, Eq, Structural)]
pub enum ParseError {
    /// The bytes are not a well-formed HTTP/1.x request.
    Malformed,
    /// The request is well formed but its method is not `CONNECT`.
    NotConnect,
}

impl ParseError {
    /// A short description, for operator-facing status lines.
    pub fn message(&self) -> (r: &'static str)
        ensures
            *self is Malformed ==> r@ == "failed to parse http request"@,
            *self is NotConnect ==> r@ == "http request not CONNECT"@,
    {
        match self {
            ParseError::Malformed => "failed to parse http request",
            ParseError::NotConnect => "http request not CONNECT",
        }
    }
}

/// The chars of a byte sequence, one char per byte; on the ASCII bytes that
/// the parser admits this is the usual reading.
pub open spec fn ascii_chars(s: Seq<u8>) -> Seq<char> {
    s.map_values(|b: u8| b as char)
}

/// A CRLF pair sits at position `i` of `s`.
pub open spec fn crlf_at(s: Seq<u8>, i: int) -> bool {
    0 <= i && i + 2 <= s.len() && s[i] == CR && s[i + 1] == LF
}

/// The position of the first CRLF pair at or after `i`, if any.
pub open spec fn find_crlf_from(s: Seq<u8>, i: int) -> Option<int>
    decreases s.len() - i,
{
    if i < 0 || i + 2 > s.len() {
        None
    } else if crlf_at(s, i) {
        Some(i)
    } else {
        find_crlf_from(s, i + 1)
    }
}

/// The position of the first occurrence of `b` at or after `i`, if any.
pub open spec fn find_byte_from(s: Seq<u8>, i: int, b: u8) -> Option<int>
    decreases s.len() - i,
{
    if i < 0 || i >= s.len() {
        None
    } else if s[i] == b {
        Some(i)
    } else {
        find_byte_from(s, i + 1, b)
    }
}

/// A visible ASCII byte, the only bytes admitted in the method and target
/// fields of the request line.
pub open spec fn is_visible_byte(b: u8) -> bool {
    33 <= b <= 126
}

/// A non-empty run of visible ASCII bytes.
pub open spec fn is_token(s: Seq<u8>) -> bool {
    s.len() > 0 && forall|i: int| 0 <= i < s.len() ==> is_visible_byte(s[i])
}

/// The bytes of `HTTP/1.`, the fixed part of an HTTP/1.x version field.
pub open spec fn http_version_prefix() -> Seq<u8> {
    seq![72u8, 84u8, 84u8, 80u8, 47u8, 49u8, 46u8]
}

/// A well-formed HTTP/1.x version field: `HTTP/1.` and one digit.
pub open spec fn version_bytes_ok(v: Seq<u8>) -> bool {
    v.len() == 8 && v.subrange(0, 7) == http_version_prefix() && 48 <= v[7] <= 57
}

/// The method and target of a well-formed request line (without its CRLF):
/// method, space, target, space, HTTP/1.x version.
pub open spec fn parsed_request_line(line: Seq<u8>) -> Option<(Seq<u8>, Seq<u8>)> {
    match find_byte_from(line, 0, SP) {
        None => None,
        Some(sp1) => match find_byte_from(line, sp1 + 1, SP) {
            None => None,
            Some(sp2) => {
                let method = line.subrange(0, sp1);
                let target = line.subrange(sp1 + 1, sp2);
                let version = line.subrange(sp2 + 1, line.len() as int);
                if is_token(method) && is_token(target) && version_bytes_ok(version) {
                    Some((method, target))
                } else {
                    None
                }
            },
        },
    }
}

/// The header block starting at `p` is well formed: at most
/// `MAX_HTTP_HEADERS - count` further CRLF-ended lines, then an empty line.
/// Bytes after the empty line are ignored.
pub open spec fn headers_ok_from(s: Seq<u8>, p: int, count: int) -> bool
    decreases MAX_HTTP_HEADERS - count,
{
    match find_crlf_from(s, p) {
        None => false,
        Some(e) => if e == p {
            true
        } else if count >= MAX_HTTP_HEADERS {
            false
        } else {
            headers_ok_from(s, e + 2, count + 1)
        },
    }
}

/// The method and target of a well-formed request: a request line followed
/// by a well-formed header block.
pub open spec fn parsed_request(s: Seq<u8>) -> Option<(Seq<u8>, Seq<u8>)> {
    match find_crlf_from(s, 0) {
        None => None,
        Some(line_end) => match parsed_request_line(s.subrange(0, line_end)) {
            None => None,
            Some(mt) => if headers_ok_from(s, line_end + 2, 0) {
                Some(mt)
            } else {
                None
            },
        },
    }
}

/// The bytes of the `CONNECT` method.
pub open spec fn connect_method() -> Seq<u8> {
    seq![67u8, 79u8, 78u8, 78u8, 69u8, 67u8, 84u8]
}

/// The target of a well-formed request whose method is `CONNECT`.
pub open spec fn connect_target(s: Seq<u8>) -> Option<Seq<u8>> {
    match parsed_request(s) {
        None => None,
        Some((method, target)) => if method == connect_method() {
            Some(target)
        } else {
            None
        },
    }
}

/// The four bytes that end a header block.
pub open spec fn header_terminator() -> Seq<u8> {
    seq![13u8, 10u8, 13u8, 10u8]
}

/// `s` ends with the CRLF CRLF that closes a header block.
pub open spec fn ends_with_terminator(s: Seq<u8>) -> bool {
    s.len() >= 4 && s.subrange(s.len() - 4, s.len() as int) == header_terminator()
}

/// Whether the bytes read so far form a complete header block, judged as the
/// reader does: the buffer ends with CRLF CRLF.
pub fn buffer_terminated(buf: &[u8]) -> (r: bool)
    ensures
        r == ends_with_terminator(buf@),
{
    let n = buf.len();
    if n < 4 {
        return false;
    }
    let r = buf[n - 4] == CR && buf[n - 3] == LF && buf[n - 2] == CR && buf[n - 1] == LF;
    proof {
        if r {
            assert(buf@.subrange(n - 4, n as int) =~= header_terminator());
        } else {
            assert(buf@.subrange(n - 4, n as int) != header_terminator()) by {
                if buf@.subrange(n - 4, n as int) == header_terminator() {
                    assert(buf@[n - 4] == 13 && buf@[n - 3] == 10 && buf@[n - 2] == 13
                        && buf@[n - 1] == 10);
                }
            }
        }
    }
    r
}

/// The first CRLF at or after `from`, as the spec function names it.
fn find_crlf(s: &[u8], from: usize) -> (r: Option<usize>)
    requires
        from <= s@.len(),
    ensures
        match r {
            Some(e) => find_crlf_from(s@, from as int) == Some(e as int) && from <= e && e + 2
                <= s@.len() && crlf_at(s@, e as int),
            None => find_crlf_from(s@, from as int) is None,
        },
{
    let n = s.len();
    let mut i = from;
    while n - i >= 2
        invariant
            from <= i <= n == s@.len(),
            find_crlf_from(s@, from as int) == find_crlf_from(s@, i as int),
        decreases n - i,
    {
        if s[i] == CR && s[i + 1] == LF {
            return Some(i);
        }
        assert(find_crlf_from(s@, i as int) == find_crlf_from(s@, i + 1 as int));
        i = i + 1;
    }
    None
}

/// The first `b` at or after `from`, as the spec function names it.
fn find_byte(s: &[u8], from: usize, b: u8) -> (r: Option<usize>)
    requires
        from <= s@.len(),
    ensures
        match r {
            Some(e) => find_byte_from(s@, from as int, b) == Some(e as int) && from <= e && e
                < s@.len() && s@[e as int] == b,
            None => find_byte_from(s@, from as int, b) is None,
        },
{
    let n = s.len();
    let mut i = from;
    while i < n
        invariant
            from <= i <= n == s@.len(),
            find_byte_from(s@, from as int, b) == find_byte_from(s@, i as int, b),
        decreases n - i,
    {
        if s[i] == b {
            return Some(i);
        }
        assert(find_byte_from(s@, i as int, b) == find_byte_from(s@, i + 1 as int, b));
        i = i + 1;
    }
    None
}

/// Whether every byte of `s` is visible ASCII and `s` is non-empty.
fn check_token(s: &[u8]) -> (r: bool)
    ensures
        r == is_token(s@),
{
    let n = s.len();
    if n == 0 {
        return false;
    }
    let mut i: usize = 0;
    while i < n
        invariant
            i <= n == s@.len(),
            forall|j: int| 0 <= j < i ==> is_visible_byte(s@[j]),
        decreases n - i,
    {
        let b = s[i];
        if b < 33 || b > 126 {
            return false;
        }
        i = i + 1;
    }
    true
}

/// Whether `v` is a well-formed HTTP/1.x version field.
fn check_version(v: &[u8]) -> (r: bool)
    ensures
        r == version_bytes_ok(v@),
{
    if v.len() != 8 {
        return false;
    }
    let r = v[0] == 72 && v[1] == 84 && v[2] == 84 && v[3] == 80 && v[4] == 47 && v[5] == 49
        && v[6] == 46 && 48 <= v[7] && v[7] <= 57;
    proof {
        if r {
            assert(v@.subrange(0, 7) =~= http_version_prefix());
        } else {
            if v@.subrange(0, 7) == http_version_prefix() {
                assert(v@[0] == 72 && v@[1] == 84 && v@[2] == 84 && v@[3] == 80 && v@[4] == 47
                    && v@[5] == 49 && v@[6] == 46);
            }
        }
    }
    r
}

/// Whether `m` is exactly the `CONNECT` method.
fn check_connect(m: &[u8]) -> (r: bool)
    ensures
        r == (m@ == connect_method()),
{
    if m.len() != 7 {
        return false;
    }
    let r = m[0] == 67 && m[1] == 79 && m[2] == 78 && m[3] == 78 && m[4] == 69 && m[5] == 67
        && m[6] == 84;
    proof {
        if r {
            assert(m@ =~= connect_method());
        } else {
            if m@ == connect_method() {
                assert(m@[0] == 67 && m@[1] == 79 && m@[2] == 78 && m@[3] == 78 && m@[4] == 69
                    && m@[5] == 67 && m@[6] == 84);
            }
        }
    }
    r
}

/// Relies on `String::push` from std: it appends exactly the given character
/// to the end of the string.
pub assume_specification[ String::push ](s: &mut String, ch: char)
    ensures
        final(s)@ == old(s)@.push(ch),
;

/// A string holding one char per input byte, the char of the byte's code
/// point.
fn bytes_to_string(bytes: &[u8]) -> (r: String)
    ensures
        r@ == ascii_chars(bytes@),
{
    let n = bytes.len();
    let mut out = String::new();
    let mut i: usize = 0;
    while i < n
        invariant
            i <= n == bytes@.len(),
            out@ == ascii_chars(bytes@.take(i as int)),
        decreases n - i,
    {
        let b = bytes[i];
        out.push(b as char);
        proof {
            assert(out@ =~= ascii_chars(bytes@.take(i + 1 as int)));
        }
        i = i + 1;
    }
    proof {
        assert(bytes@.take(n as int) =~= bytes@);
    }
    out
}

/// Parse a CONNECT request and return its target authority verbatim.
///
/// Succeeds exactly on a well-formed request whose method is `CONNECT`;
/// a well-formed request with another method fails with `NotConnect`, and
/// anything else fails with `Malformed`. No part of the target is validated
/// here; an unusable authority surfaces later, when it is dialed.
pub fn parse_http_connect(request_buf: &[u8]) -> (r: Result<String, ParseError>)
    ensures
        match r {
            Ok(target) => connect_target(request_buf@) matches Some(t) && target@ == ascii_chars(
                t,
            ),
            Err(e) => connect_target(request_buf@) is None && (e is NotConnect <==> (
            parsed_request(request_buf@) matches Some((m, _)) && m != connect_method())),
        },
{
    let ghost s = request_buf@;
    let total = request_buf.len();
    // The request line runs to the first CRLF.
    let line_end = match find_crlf(request_buf, 0) {
        None => {
            return Err(ParseError::Malformed);
        },
        Some(e) => e,
    };
    let line: &[u8] = &request_buf[0..line_end];
    assert(line@ == s.subrange(0, line_end as int));
    // Split the line at its two spaces.
    let sp1 = match find_byte(line, 0, SP) {
        None => {
            assert(parsed_request(s) is None);
            return Err(ParseError::Malformed);
        },
        Some(e) => e,
    };
    let sp2 = match find_byte(line, sp1 + 1, SP) {
        None => {
            assert(parsed_request(s) is None);
            return Err(ParseError::Malformed);
        },
        Some(e) => e,
    };
    let method: &[u8] = &line[0..sp1];
    let target: &[u8] = &line[sp1 + 1..sp2];
    let version: &[u8] = &line[sp2 + 1..line.len()];
    assert(method@ == line@.subrange(0, sp1 as int));
    assert(target@ == line@.subrange(sp1 + 1 as int, sp2 as int));
    assert(version@ == line@.subrange(sp2 + 1 as int, line@.len() as int));
    if !check_token(method) || !check_token(target) || !check_version(version) {
        assert(parsed_request_line(line@) is None);
        assert(parsed_request(s) is None);
        return Err(ParseError::Malformed);
    }
    assert(parsed_request_line(line@) == Some((method@, target@)));
    let ghost gm = method@;
    let ghost gt = target@;
    // Walk the header lines to the empty line that closes the block.
    let ghost first_hdr = line_end + 2;
    let mut p: usize = line_end + 2;
    let mut count: usize = 0;
    loop
        invariant
            line_end + 2 <= p <= total == request_buf@.len(),
            count <= MAX_HTTP_HEADERS,
            request_buf@ == s,
            first_hdr == line_end + 2,
            find_crlf_from(s, 0) == Some(line_end as int),
            parsed_request_line(s.subrange(0, line_end as int)) == Some((gm, gt)),
            headers_ok_from(s, first_hdr, 0) == headers_ok_from(s, p as int, count as int),
        ensures
            headers_ok_from(s, first_hdr, 0),
        decreases MAX_HTTP_HEADERS - count,
    {
        match find_crlf(request_buf, p) {
            None => {
                assert(!headers_ok_from(s, p as int, count as int));
                proof {
                    parsed_request_reveal(s, line_end as int, gm, gt);
                    assert(parsed_request(s) is None);
                    assert(connect_target(s) is None);
                }
                return Err(ParseError::Malformed);
            },
            Some(e) => {
                if e == p {
                    assert(headers_ok_from(s, p as int, count as int));
                    break ;
                }
                if count == MAX_HTTP_HEADERS {
                    assert(!headers_ok_from(s, p as int, count as int));
                    proof {
                        parsed_request_reveal(s, line_end as int, gm, gt);
                        assert(parsed_request(s) is None);
                        assert(connect_target(s) is None);
                    }
                    return Err(ParseError::Malformed);
                }
                assert(headers_ok_from(s, p as int, count as int) == headers_ok_from(
                    s,
                    e + 2 as int,
                    count + 1 as int,
                ));
                p = e + 2;
                count = count + 1;
            },
        }
    }
    assert(parsed_request(s) == Some((method@, target@)));
    // Only a CONNECT request names a target to tunnel to.
    if !check_connect(method) {
        return Err(ParseError::NotConnect);
    }
    assert(connect_target(s) == Some(target@));
    Ok(bytes_to_string(target))
}

/// From a found request line and a parsed line, the whole parse is fixed by
/// the header check.
proof fn parsed_request_reveal(s: Seq<u8>, line_end: int, method: Seq<u8>, target: Seq<u8>)
    requires
        find_crlf_from(s, 0) == Some(line_end),
        parsed_request_line(s.subrange(0, line_end)) == Some((method, target)),
    ensures
        parsed_request(s) == (if headers_ok_from(s, line_end + 2, 0) {
            Some((method, target))
        } else {
            Option::<(Seq<u8>, Seq<u8>)>::None
        }),
{
}

} // verus!
