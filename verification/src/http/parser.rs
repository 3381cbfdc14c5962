//! The grammar of HTTP/1.1 message heads, and parsers that read whole
//! messages from a byte buffer in as many calls as it takes.
//!
//! Every parser reads from a place in the input and says one of three
//! things: the piece is there, and where it ends; the input ends before the
//! piece does; or what stands there is not the piece.

use vstd::prelude::*;
use crate::buffer::{ascii_text, bytes_mut_bytes, peek, split_front};
use vstd::utf8::encode_utf8;
use crate::http::{
    content_length_of, decimal, parse_decimal, spells_word, Chunk, Error, LineView, Version,
};

verus! {

/// What a parser makes of the input from some place on.
pub enum Parse<T> {
    /// The piece is there: it ends before this index, and this is its value.
    Done(int, T),
    /// The input ends before the piece does.
    Incomplete,
    /// What stands there is not the piece.
    Error,
}

/// What a parser hands back: as [`Parse`], with the index as a machine
/// integer.
#[derive(Debug)]
pub enum Step<T> {
    /// The piece is there: it ends before this index, and this is its value.
    Done(usize, T),
    /// The input ends before the piece does.
    Incomplete,
    /// What stands there is not the piece.
    Error,
}

/// The kinds of bytes that the grammar tells apart.
#[derive(Clone, Copy, Debug, PartialEq, Eq)]
pub enum Class {
    /// A byte of a token: a letter, a digit, or one of ``!#$%&'*+-.^_`|~``.
    Token,
    /// A byte of a reason phrase: a token byte, a space or a tab.
    StatusToken,
    /// A visible character.
    Vchar,
    /// A byte of a header value: a visible character or a space.
    HeaderValue,
    /// A hexadecimal digit.
    HexDigit,
    /// A space or a tab.
    Lws,
}

/// Whether `b` is an ASCII letter or digit.
pub open spec fn alphanumeric(b: u8) -> bool {
    (48 <= b <= 57) || (65 <= b <= 90) || (97 <= b <= 122)
}

/// Whether `b` is one of ``!#$%&'*+-.^_`|~``.
pub open spec fn token_mark(b: u8) -> bool {
    b == 33 || b == 35 || b == 36 || b == 37 || b == 38 || b == 39 || b == 42 || b == 43 || b == 45
        || b == 46 || b == 94 || b == 95 || b == 96 || b == 124 || b == 126
}

/// Whether `b` belongs to `class`.
pub open spec fn in_class(class: Class, b: u8) -> bool {
    match class {
        Class::Token => alphanumeric(b) || token_mark(b),
        Class::StatusToken => alphanumeric(b) || token_mark(b) || b == 32 || b == 9,
        Class::Vchar => 32 < b <= 126,
        Class::HeaderValue => 32 <= b <= 126,
        Class::HexDigit => (48 <= b <= 57) || (65 <= b <= 70) || (97 <= b <= 102),
        Class::Lws => b == 32 || b == 9,
    }
}

fn is_alphanumeric(i: u8) -> (r: bool)
    ensures
        r == alphanumeric(i),
{
    (48 <= i && i <= 57) || (65 <= i && i <= 90) || (97 <= i && i <= 122)
}

fn is_token_mark(i: u8) -> (r: bool)
    ensures
        r == token_mark(i),
{
    i == 33 || i == 35 || i == 36 || i == 37 || i == 38 || i == 39 || i == 42 || i == 43 || i == 45
        || i == 46 || i == 94 || i == 95 || i == 96 || i == 124 || i == 126
}

/// Whether `i` is a byte of a token.
pub fn is_token_char(i: u8) -> (r: bool)
    ensures
        r == in_class(Class::Token, i),
{
    is_alphanumeric(i) || is_token_mark(i)
}

/// Whether `i` is a byte of a reason phrase.
pub fn is_status_token_char(i: u8) -> (r: bool)
    ensures
        r == in_class(Class::StatusToken, i),
{
    is_alphanumeric(i) || is_token_mark(i) || i == 32 || i == 9
}

/// Whether `i` is a visible character.
pub fn is_vchar(i: u8) -> (r: bool)
    ensures
        r == in_class(Class::Vchar, i),
{
    i > 32 && i <= 126
}

/// Whether `i` is a byte of a header value.
pub fn is_header_value_char(i: u8) -> (r: bool)
    ensures
        r == in_class(Class::HeaderValue, i),
{
    i >= 32 && i <= 126
}

/// Whether `chr` is a hexadecimal digit.
pub fn is_hex_digit(chr: u8) -> (r: bool)
    ensures
        r == in_class(Class::HexDigit, chr),
{
    (chr >= 0x30 && chr <= 0x39) || (chr >= 0x41 && chr <= 0x46) || (chr >= 0x61 && chr <= 0x66)
}

fn is_in(class: Class, b: u8) -> (r: bool)
    ensures
        r == in_class(class, b),
{
    match class {
        Class::Token => is_token_char(b),
        Class::StatusToken => is_status_token_char(b),
        Class::Vchar => is_vchar(b),
        Class::HeaderValue => is_header_value_char(b),
        Class::HexDigit => is_hex_digit(b),
        Class::Lws => b == 32 || b == 9,
    }
}

/// Where the run of bytes of `class` that starts at `at` ends: the first
/// index from `at` on that holds no byte of the class, or the end of the
/// input.
pub open spec fn run_end(s: Seq<u8>, at: int, class: Class) -> int
    decreases s.len() - at,
{
    if 0 <= at < s.len() && in_class(class, s[at]) {
        run_end(s, at + 1, class)
    } else {
        at
    }
}

/// A run ends at or after its start, inside the input, and holds bytes of
/// its class only.
pub proof fn lemma_run_end(s: Seq<u8>, at: int, class: Class)
    requires
        0 <= at <= s.len(),
    ensures
        at <= run_end(s, at, class) <= s.len(),
        forall|i: int| at <= i < run_end(s, at, class) ==> in_class(class, #[trigger] s[i]),
        run_end(s, at, class) < s.len() ==> !in_class(class, s[run_end(s, at, class)]),
    decreases s.len() - at,
{
    if at < s.len() && in_class(class, s[at]) {
        lemma_run_end(s, at + 1, class);
    }
}

/// Finds the end of the run of bytes of `class` that starts at `at`.
fn scan(buf: &[u8], at: usize, class: Class) -> (end: usize)
    requires
        at <= buf@.len(),
    ensures
        end == run_end(buf@, at as int, class),
        at <= end <= buf@.len(),
        forall|i: int| at <= i < end ==> in_class(class, #[trigger] buf@[i]),
{
    let mut i: usize = at;
    while i < buf.len() && is_in(class, buf[i])
        invariant
            at <= i <= buf@.len(),
            run_end(buf@, at as int, class) == run_end(buf@, i as int, class),
            forall|k: int| at <= k < i ==> in_class(class, #[trigger] buf@[k]),
        decreases buf@.len() - i,
    {
        i = i + 1;
    }
    i
}

/// How much of `word` the input has room for from `at` on.
pub open spec fn room(s: Seq<u8>, at: int, word: Seq<char>) -> int {
    if s.len() - at < word.len() {
        s.len() - at
    } else {
        word.len() as int
    }
}

/// The ASCII word `word` at `at`: there if the input goes on with it, cut
/// off if the input ends inside it, else not there.
pub open spec fn tag(s: Seq<u8>, at: int, word: Seq<char>) -> Parse<()> {
    if exists|i: int| 0 <= i < room(s, at, word) && s[at + i] != word[i] as u8 {
        Parse::Error
    } else if room(s, at, word) < word.len() {
        Parse::Incomplete
    } else {
        Parse::Done(at + word.len(), ())
    }
}

/// Whether `r` is what the grammar says of a piece without a value.
pub open spec fn agrees(r: Step<()>, p: Parse<()>) -> bool {
    match r {
        Step::Done(end, _) => p == Parse::Done(end as int, ()),
        Step::Incomplete => p is Incomplete,
        Step::Error => p is Error,
    }
}

/// Reads the ASCII word `word` at `at`.
fn read_tag(buf: &[u8], at: usize, word: &str) -> (r: Step<()>)
    requires
        at <= buf@.len(),
        word.is_ascii(),
    ensures
        agrees(r, tag(buf@, at as int, word@)),
        r matches Step::Done(end, _) ==> at <= end <= buf@.len(),
{
    broadcast use vstd::string::is_ascii_spec_bytes;

    let w = word.as_bytes();
    assert(w@ =~= Seq::new(word@.len(), |i: int| word@[i] as u8));
    let left = buf.len() - at;
    let m = if left < w.len() {
        left
    } else {
        w.len()
    };
    let mut i: usize = 0;
    while i < m
        invariant
            i <= m,
            m == room(buf@, at as int, word@),
            at + m <= buf@.len() <= usize::MAX,
            m <= w@.len(),
            w@ == Seq::new(word@.len(), |i: int| word@[i] as u8),
            forall|k: int| 0 <= k < i ==> buf@[at + k] == word@[k] as u8,
        decreases m - i,
    {
        if buf[at + i] != w[i] {
            return Step::Error;
        }
        i = i + 1;
    }
    if m < w.len() {
        Step::Incomplete
    } else {
        Step::Done(at + m, ())
    }
}

/// The protocol version at `at`: `HTTP/` and one of `0.9`, `1.0` and `1.1`.
pub open spec fn version_at(s: Seq<u8>, at: int) -> Parse<Version> {
    match tag(s, at, "HTTP/"@) {
        Parse::Done(p, _) => match tag(s, p, "0.9"@) {
            Parse::Done(q, _) => Parse::Done(q, Version::Http09),
            Parse::Incomplete => Parse::Incomplete,
            Parse::Error => match tag(s, p, "1.0"@) {
                Parse::Done(q, _) => Parse::Done(q, Version::Http10),
                Parse::Incomplete => Parse::Incomplete,
                Parse::Error => match tag(s, p, "1.1"@) {
                    Parse::Done(q, _) => Parse::Done(q, Version::Http11),
                    Parse::Incomplete => Parse::Incomplete,
                    Parse::Error => Parse::Error,
                },
            },
        },
        Parse::Incomplete => Parse::Incomplete,
        Parse::Error => Parse::Error,
    }
}

/// Whether `r` is what the grammar says of a piece whose value is plain.
pub open spec fn agrees_plain<T>(r: Step<T>, p: Parse<T>) -> bool {
    match r {
        Step::Done(end, v) => p == Parse::Done(end as int, v),
        Step::Incomplete => p is Incomplete,
        Step::Error => p is Error,
    }
}

/// Reads the protocol version at `at`.
fn read_version(buf: &[u8], at: usize) -> (r: Step<Version>)
    requires
        at <= buf@.len(),
    ensures
        agrees_plain(r, version_at(buf@, at as int)),
        r matches Step::Done(end, _) ==> at <= end <= buf@.len(),
{
    proof {
        reveal_strlit("HTTP/");
        reveal_strlit("0.9");
        reveal_strlit("1.0");
        reveal_strlit("1.1");
    }
    let p = match read_tag(buf, at, "HTTP/") {
        Step::Done(p, _) => p,
        Step::Incomplete => {
            return Step::Incomplete;
        },
        Step::Error => {
            return Step::Error;
        },
    };
    match read_tag(buf, p, "0.9") {
        Step::Done(q, _) => {
            return Step::Done(q, Version::Http09);
        },
        Step::Incomplete => {
            return Step::Incomplete;
        },
        Step::Error => {},
    }
    match read_tag(buf, p, "1.0") {
        Step::Done(q, _) => {
            return Step::Done(q, Version::Http10);
        },
        Step::Incomplete => {
            return Step::Incomplete;
        },
        Step::Error => {},
    }
    match read_tag(buf, p, "1.1") {
        Step::Done(q, _) => Step::Done(q, Version::Http11),
        Step::Incomplete => Step::Incomplete,
        Step::Error => Step::Error,
    }
}


impl<T> Parse<T> {
    /// Where the piece ends.
    pub open spec fn end(self) -> int {
        self->Done_0
    }

    /// The value of the piece.
    pub open spec fn value(self) -> T {
        self->Done_1
    }

    /// What a parser says of a larger piece when a part of it is not there:
    /// the same, whatever the values are.
    pub open spec fn stop<U>(self) -> Parse<U> {
        if self is Incomplete {
            Parse::Incomplete
        } else {
            Parse::Error
        }
    }
}

/// The bytes from `from` up to `to` as text, one character for each byte.
pub open spec fn text(s: Seq<u8>, from: int, to: int) -> Seq<char> {
    s.subrange(from, to).map_values(|b: u8| b as char)
}

/// A space at `at`.
pub open spec fn space(s: Seq<u8>, at: int) -> Parse<()> {
    if at >= s.len() {
        Parse::Incomplete
    } else if s[at] == 32 {
        Parse::Done(at + 1, ())
    } else {
        Parse::Error
    }
}

/// A line end at `at`.
pub open spec fn crlf(s: Seq<u8>, at: int) -> Parse<()> {
    tag(s, at, "\r\n"@)
}

fn read_space(buf: &[u8], at: usize) -> (r: Step<()>)
    requires
        at <= buf@.len(),
    ensures
        agrees(r, space(buf@, at as int)),
        r matches Step::Done(end, _) ==> at <= end <= buf@.len(),
{
    if at >= buf.len() {
        Step::Incomplete
    } else if buf[at] == 32 {
        Step::Done(at + 1, ())
    } else {
        Step::Error
    }
}

fn read_crlf(buf: &[u8], at: usize) -> (r: Step<()>)
    requires
        at <= buf@.len(),
    ensures
        agrees(r, crlf(buf@, at as int)),
        r matches Step::Done(end, _) ==> at <= end <= buf@.len(),
{
    proof {
        reveal_strlit("\r\n");
    }
    read_tag(buf, at, "\r\n")
}

/// The text of the bytes from `from` up to `to`, which are all ASCII.
fn read_text(buf: &[u8], from: usize, to: usize) -> (t: String)
    requires
        from <= to <= buf@.len(),
        forall|i: int| from <= i < to ==> #[trigger] buf@[i] < 128,
    ensures
        t@ == text(buf@, from as int, to as int),
{
    ascii_text(vstd::slice::slice_subrange(buf, from, to))
}

/// What a [`Header`] stands for in contracts.
pub struct HeaderView {
    /// The name.
    pub name: Seq<char>,
    /// The value.
    pub value: Seq<char>,
}

/// A header line.
#[derive(Debug, PartialEq, Eq)]
pub struct Header {
    /// The name.
    pub name: String,
    /// The value, without the white space in front of it.
    pub value: String,
}

impl View for Header {
    type V = HeaderView;

    open spec fn view(&self) -> HeaderView {
        HeaderView { name: self.name@, value: self.value@ }
    }
}

/// What a list of headers stands for in contracts.
pub open spec fn header_views(headers: Seq<Header>) -> Seq<HeaderView> {
    headers.map_values(|h: Header| h@)
}

/// What a [`RequestHead`] stands for in contracts.
pub struct RequestHeadView {
    /// The method.
    pub method: Seq<char>,
    /// The request target.
    pub uri: Seq<char>,
    /// The protocol version.
    pub version: Version,
    /// The headers, in order.
    pub headers: Seq<HeaderView>,
}

/// The head of a request.
#[derive(Debug, PartialEq, Eq)]
pub struct RequestHead {
    /// The method.
    pub method: String,
    /// The request target.
    pub uri: String,
    /// The protocol version.
    pub version: Version,
    /// The headers, in order.
    pub headers: Vec<Header>,
}

impl View for RequestHead {
    type V = RequestHeadView;

    open spec fn view(&self) -> RequestHeadView {
        RequestHeadView {
            method: self.method@,
            uri: self.uri@,
            version: self.version,
            headers: header_views(self.headers@),
        }
    }
}

/// What a [`ResponseHead`] stands for in contracts.
pub struct ResponseHeadView {
    /// The protocol version.
    pub version: Version,
    /// The status code.
    pub status: u16,
    /// The reason phrase.
    pub reason: Seq<char>,
    /// The headers, in order.
    pub headers: Seq<HeaderView>,
}

/// The head of a response.
#[derive(Debug, PartialEq, Eq)]
pub struct ResponseHead {
    /// The protocol version.
    pub version: Version,
    /// The status code.
    pub status: u16,
    /// The reason phrase.
    pub reason: String,
    /// The headers, in order.
    pub headers: Vec<Header>,
}

impl View for ResponseHead {
    type V = ResponseHeadView;

    open spec fn view(&self) -> ResponseHeadView {
        ResponseHeadView {
            version: self.version,
            status: self.status,
            reason: self.reason@,
            headers: header_views(self.headers@),
        }
    }
}

/// The request line at `at`: a token, a space, a run of visible characters,
/// a space, the version and a line end. The head that it makes has no
/// headers yet.
pub open spec fn request_line(s: Seq<u8>, at: int) -> Parse<RequestHeadView> {
    let m = run_end(s, at, Class::Token);
    let a = space(s, m);
    if !(a is Done) {
        a.stop()
    } else {
        let u = run_end(s, a.end(), Class::Vchar);
        let b = space(s, u);
        if !(b is Done) {
            b.stop()
        } else {
            let v = version_at(s, b.end());
            if !(v is Done) {
                v.stop()
            } else {
                let c = crlf(s, v.end());
                if !(c is Done) {
                    c.stop()
                } else {
                    Parse::Done(
                        c.end(),
                        RequestHeadView {
                            method: text(s, at, m),
                            uri: text(s, a.end(), u),
                            version: v.value(),
                            headers: Seq::empty(),
                        },
                    )
                }
            }
        }
    }
}

/// Whether `r` is what the grammar says of a piece, values taken by their
/// view.
pub open spec fn agrees_view<T: View>(r: Step<T>, p: Parse<T::V>) -> bool {
    match r {
        Step::Done(end, v) => p == Parse::Done(end as int, v@),
        Step::Incomplete => p is Incomplete,
        Step::Error => p is Error,
    }
}

/// Reads the request line at `at`.
fn read_request_line(buf: &[u8], at: usize) -> (r: Step<RequestHead>)
    requires
        at <= buf@.len(),
    ensures
        agrees_view(r, request_line(buf@, at as int)),
        r matches Step::Done(end, _) ==> at <= end <= buf@.len(),
{
    let m = scan(buf, at, Class::Token);
    let a = match read_space(buf, m) {
        Step::Done(a, _) => a,
        Step::Incomplete => {
            return Step::Incomplete;
        },
        Step::Error => {
            return Step::Error;
        },
    };
    let u = scan(buf, a, Class::Vchar);
    let b = match read_space(buf, u) {
        Step::Done(b, _) => b,
        Step::Incomplete => {
            return Step::Incomplete;
        },
        Step::Error => {
            return Step::Error;
        },
    };
    let (c, version) = match read_version(buf, b) {
        Step::Done(c, v) => (c, v),
        Step::Incomplete => {
            return Step::Incomplete;
        },
        Step::Error => {
            return Step::Error;
        },
    };
    let d = match read_crlf(buf, c) {
        Step::Done(d, _) => d,
        Step::Incomplete => {
            return Step::Incomplete;
        },
        Step::Error => {
            return Step::Error;
        },
    };
    let method = read_text(buf, at, m);
    let uri = read_text(buf, a, u);
    let head = RequestHead { method, uri, version, headers: Vec::new() };
    assert(header_views(head.headers@) =~= Seq::empty());
    Step::Done(d, head)
}

/// The status line at `at`: the version, a space, three bytes that write
/// the status code, a space, the reason phrase and a line end. The head that
/// it makes has no headers yet.
pub open spec fn status_line(s: Seq<u8>, at: int) -> Parse<ResponseHeadView> {
    let v = version_at(s, at);
    if !(v is Done) {
        v.stop()
    } else {
        let a = space(s, v.end());
        if !(a is Done) {
            a.stop()
        } else if a.end() + 3 > s.len() {
            Parse::Incomplete
        } else {
            let code = decimal(s.subrange(a.end(), a.end() + 3));
            if code is None {
                Parse::Error
            } else {
                let b = space(s, a.end() + 3);
                if !(b is Done) {
                    b.stop()
                } else {
                    let r = run_end(s, b.end(), Class::StatusToken);
                    let c = crlf(s, r);
                    if !(c is Done) {
                        c.stop()
                    } else {
                        Parse::Done(
                            c.end(),
                            ResponseHeadView {
                                version: v.value(),
                                status: code->0 as u16,
                                reason: text(s, b.end(), r),
                                headers: Seq::empty(),
                            },
                        )
                    }
                }
            }
        }
    }
}

/// Three bytes write no number above 999.
proof fn lemma_three_digits(s: Seq<u8>)
    requires
        s.len() == 3,
        decimal(s) is Some,
    ensures
        decimal(s)->0 <= 999,
{
    let digits = if s[0] == 43 {
        s.skip(1)
    } else {
        s
    };
    reveal_with_fuel(crate::http::digits_value, 4);
    if s[0] == 43 {
        assert(digits.drop_last().drop_last() =~= Seq::empty());
    } else {
        assert(digits.drop_last().drop_last().drop_last() =~= Seq::empty());
    }
}

/// Reads the status line at `at`.
fn read_status_line(buf: &[u8], at: usize) -> (r: Step<ResponseHead>)
    requires
        at <= buf@.len(),
    ensures
        agrees_view(r, status_line(buf@, at as int)),
        r matches Step::Done(end, _) ==> at <= end <= buf@.len(),
{
    let (p, version) = match read_version(buf, at) {
        Step::Done(p, v) => (p, v),
        Step::Incomplete => {
            return Step::Incomplete;
        },
        Step::Error => {
            return Step::Error;
        },
    };
    let a = match read_space(buf, p) {
        Step::Done(a, _) => a,
        Step::Incomplete => {
            return Step::Incomplete;
        },
        Step::Error => {
            return Step::Error;
        },
    };
    if buf.len() - a < 3 {
        return Step::Incomplete;
    }
    let code = match parse_decimal(vstd::slice::slice_subrange(buf, a, a + 3)) {
        Some(code) => code,
        None => {
            return Step::Error;
        },
    };
    proof {
        lemma_three_digits(buf@.subrange(a as int, a + 3));
    }
    let b = match read_space(buf, a + 3) {
        Step::Done(b, _) => b,
        Step::Incomplete => {
            return Step::Incomplete;
        },
        Step::Error => {
            return Step::Error;
        },
    };
    let e = scan(buf, b, Class::StatusToken);
    let d = match read_crlf(buf, e) {
        Step::Done(d, _) => d,
        Step::Incomplete => {
            return Step::Incomplete;
        },
        Step::Error => {
            return Step::Error;
        },
    };
    let reason = read_text(buf, b, e);
    let head = ResponseHead { version, status: code as u16, reason, headers: Vec::new() };
    assert(header_views(head.headers@) =~= Seq::empty());
    Step::Done(d, head)
}

/// The header line at `at`: a token, a colon, any spaces and tabs, the
/// value as a run of visible characters and spaces, and a line end.
pub open spec fn header_line(s: Seq<u8>, at: int) -> Parse<HeaderView> {
    let n = run_end(s, at, Class::Token);
    let a = tag(s, n, ":"@);
    if !(a is Done) {
        a.stop()
    } else {
        let w = run_end(s, a.end(), Class::Lws);
        let v = run_end(s, w, Class::HeaderValue);
        let c = crlf(s, v);
        if !(c is Done) {
            c.stop()
        } else {
            Parse::Done(c.end(), HeaderView { name: text(s, at, n), value: text(s, w, v) })
        }
    }
}

/// Reads the header line at `at`.
fn read_header_line(buf: &[u8], at: usize) -> (r: Step<Header>)
    requires
        at <= buf@.len(),
    ensures
        agrees_view(r, header_line(buf@, at as int)),
        r matches Step::Done(end, _) ==> at < end <= buf@.len(),
{
    proof {
        reveal_strlit(":");
    }
    let n = scan(buf, at, Class::Token);
    let a = match read_tag(buf, n, ":") {
        Step::Done(a, _) => a,
        Step::Incomplete => {
            return Step::Incomplete;
        },
        Step::Error => {
            return Step::Error;
        },
    };
    let w = scan(buf, a, Class::Lws);
    let v = scan(buf, w, Class::HeaderValue);
    let c = match read_crlf(buf, v) {
        Step::Done(c, _) => c,
        Step::Incomplete => {
            return Step::Incomplete;
        },
        Step::Error => {
            return Step::Error;
        },
    };
    let name = read_text(buf, at, n);
    let value = read_text(buf, w, v);
    Step::Done(c, Header { name, value })
}

/// The result of a parser with `first` in front of its list.
pub open spec fn behind(first: Seq<HeaderView>, rest: Parse<Seq<HeaderView>>) -> Parse<
    Seq<HeaderView>,
> {
    match rest {
        Parse::Done(end, list) => Parse::Done(end, first + list),
        Parse::Incomplete => Parse::Incomplete,
        Parse::Error => Parse::Error,
    }
}

/// The header block at `at`: header lines for as long as there are any,
/// and a line end. A header line that is cut off cuts the block off.
pub open spec fn header_block(s: Seq<u8>, at: int) -> Parse<Seq<HeaderView>>
    decreases s.len() - at,
{
    match header_line(s, at) {
        Parse::Done(end, h) => if at < end <= s.len() {
            behind(seq![h], header_block(s, end))
        } else {
            Parse::Error
        },
        Parse::Incomplete => Parse::Incomplete,
        Parse::Error => match crlf(s, at) {
            Parse::Done(end, _) => Parse::Done(end, Seq::empty()),
            Parse::Incomplete => Parse::Incomplete,
            Parse::Error => Parse::Error,
        },
    }
}

/// What a parsed list of headers stands for in contracts.
pub open spec fn agrees_list(r: Step<Vec<Header>>, p: Parse<Seq<HeaderView>>) -> bool {
    match r {
        Step::Done(end, v) => p == Parse::Done(end as int, header_views(v@)),
        Step::Incomplete => p is Incomplete,
        Step::Error => p is Error,
    }
}

/// Reads the header block at `at`.
fn read_header_block(buf: &[u8], at: usize) -> (r: Step<Vec<Header>>)
    requires
        at <= buf@.len(),
    ensures
        agrees_list(r, header_block(buf@, at as int)),
        r matches Step::Done(end, _) ==> at <= end <= buf@.len(),
{
    let mut headers: Vec<Header> = Vec::new();
    let mut cur: usize = at;
    assert(header_views(headers@) + Seq::<HeaderView>::empty() =~= Seq::empty());
    loop
        invariant
            at <= cur <= buf@.len(),
            header_block(buf@, at as int) == behind(
                header_views(headers@),
                header_block(buf@, cur as int),
            ),
        decreases buf@.len() - cur,
    {
        match read_header_line(buf, cur) {
            Step::Done(end, h) => {
                proof {
                    let before = header_views(headers@);
                    let rest = header_block(buf@, end as int);
                    assert(header_views(headers@.push(h)) =~= before + seq![h@]);
                    if rest is Done {
                        assert(before + (seq![h@] + rest.value()) =~= (before + seq![h@])
                            + rest.value());
                    }
                }
                headers.push(h);
                cur = end;
            },
            Step::Incomplete => {
                return Step::Incomplete;
            },
            Step::Error => {
                return match read_crlf(buf, cur) {
                    Step::Done(end, _) => {
                        assert(header_views(headers@) + Seq::<HeaderView>::empty()
                            =~= header_views(headers@));
                        Step::Done(end, headers)
                    },
                    Step::Incomplete => Step::Incomplete,
                    Step::Error => Step::Error,
                };
            },
        }
    }
}


/// The value of a hexadecimal digit.
pub open spec fn hex_digit_value(b: u8) -> nat {
    if 48 <= b <= 57 {
        (b - 48) as nat
    } else if 65 <= b <= 70 {
        (b - 55) as nat
    } else {
        (b - 87) as nat
    }
}

/// The number that a run of hexadecimal digits writes.
pub open spec fn hex_value(s: Seq<u8>) -> nat
    decreases s.len(),
{
    if s.len() == 0 {
        0
    } else {
        hex_value(s.drop_last()) * 16 + hex_digit_value(s.last())
    }
}

/// A longer run of hexadecimal digits writes no smaller number.
proof fn lemma_hex_grows(s: Seq<u8>, n: int)
    requires
        0 <= n <= s.len(),
    ensures
        hex_value(s.take(n)) <= hex_value(s),
    decreases s.len() - n,
{
    if n < s.len() {
        lemma_hex_grows(s, n + 1);
        assert(s.take(n + 1).drop_last() =~= s.take(n));
    } else {
        assert(s.take(n) =~= s);
    }
}

/// The size of a chunk at `at`: a run of hexadecimal digits that does not
/// reach the end of the input, is not empty and writes a number that fits
/// `usize`.
pub open spec fn chunk_size_at(s: Seq<u8>, at: int) -> Parse<usize> {
    let e = run_end(s, at, Class::HexDigit);
    if e >= s.len() {
        Parse::Incomplete
    } else if e == at || hex_value(s.subrange(at, e)) > usize::MAX {
        Parse::Error
    } else {
        Parse::Done(e, hex_value(s.subrange(at, e)) as usize)
    }
}

/// The size line of a chunk at `at`: the size and a line end.
pub open spec fn chunk_header_at(s: Seq<u8>, at: int) -> Parse<usize> {
    let size = chunk_size_at(s, at);
    if !(size is Done) {
        size
    } else {
        let c = crlf(s, size.end());
        if !(c is Done) {
            c.stop()
        } else {
            Parse::Done(c.end(), size.value())
        }
    }
}

fn read_chunk_size(buf: &[u8], at: usize) -> (r: Step<usize>)
    requires
        at <= buf@.len(),
    ensures
        agrees_plain(r, chunk_size_at(buf@, at as int)),
        r matches Step::Done(end, _) ==> at <= end <= buf@.len(),
{
    let e = scan(buf, at, Class::HexDigit);
    if e >= buf.len() {
        return Step::Incomplete;
    }
    if e == at {
        return Step::Error;
    }
    let ghost digits = buf@.subrange(at as int, e as int);
    let mut value: usize = 0;
    let mut i: usize = at;
    assert(digits.take(0) =~= Seq::empty());
    while i < e
        invariant
            at <= i <= e < buf@.len(),
            at < e,
            e == run_end(buf@, at as int, Class::HexDigit),
            digits == buf@.subrange(at as int, e as int),
            forall|k: int| at <= k < e ==> in_class(Class::HexDigit, #[trigger] buf@[k]),
            value == hex_value(digits.take(i - at)),
        decreases e - i,
    {
        let b = buf[i];
        assert(in_class(Class::HexDigit, buf@[i as int]));
        let d: usize = if b <= 57 {
            (b - 48) as usize
        } else if b <= 70 {
            (b - 55) as usize
        } else {
            (b - 87) as usize
        };
        proof {
            assert(digits[i - at] == b);
            assert(digits.take(i - at + 1).drop_last() =~= digits.take(i - at));
            lemma_hex_grows(digits, i - at + 1);
        }
        assert(d == hex_digit_value(b));
        assert(hex_value(digits.take(i - at + 1)) == value * 16 + d);
        if value > (usize::MAX - d) / 16 {
            assert(hex_value(digits.take(i - at + 1)) > usize::MAX);
            return Step::Error;
        }
        value = value * 16 + d;
        i = i + 1;
    }
    assert(digits.take(i - at) =~= digits);
    Step::Done(e, value)
}

/// Reads the size of a chunk at the start of `input`: the run of
/// hexadecimal digits there, which something must follow.
pub fn chunk_size(input: &[u8]) -> (r: Step<usize>)
    ensures
        agrees_plain(r, chunk_size_at(input@, 0)),
        r matches Step::Done(end, _) ==> end <= input@.len(),
{
    read_chunk_size(input, 0)
}

fn read_chunk_header(buf: &[u8], at: usize) -> (r: Step<usize>)
    requires
        at <= buf@.len(),
    ensures
        agrees_plain(r, chunk_header_at(buf@, at as int)),
        r matches Step::Done(end, _) ==> at <= end <= buf@.len(),
{
    match read_chunk_size(buf, at) {
        Step::Done(e, size) => match read_crlf(buf, e) {
            Step::Done(end, _) => Step::Done(end, size),
            Step::Incomplete => Step::Incomplete,
            Step::Error => Step::Error,
        },
        Step::Incomplete => Step::Incomplete,
        Step::Error => Step::Error,
    }
}

/// A header list as lines of bytes.
pub open spec fn as_lines(headers: Seq<HeaderView>) -> Seq<LineView> {
    headers.map_values(
        |h: HeaderView| LineView { name: encode_utf8(h.name), value: encode_utf8(h.value) },
    )
}

/// The length that a list of headers announces: what the last
/// `Content-Length` header says, if there is one and it says a length.
fn announced_length(headers: &Vec<Header>) -> (r: Option<usize>)
    ensures
        r == content_length_of(as_lines(header_views(headers@))),
{
    proof {
        reveal_strlit("content-length");
    }
    let ghost all = as_lines(header_views(headers@));
    let mut i: usize = headers.len();
    assert(all.take(i as int) =~= all);
    while i > 0
        invariant
            i <= headers.len(),
            all == as_lines(header_views(headers@)),
            content_length_of(all) == content_length_of(all.take(i as int)),
            "content-length".is_ascii(),
        decreases i,
    {
        i = i - 1;
        let h = &headers[i];
        proof {
            assert(all.take(i + 1).last() == (LineView {
                name: encode_utf8(h.name@),
                value: encode_utf8(h.value@),
            }));
            assert(all.take(i + 1).drop_last() =~= all.take(i as int));
        }
        if spells_word(h.name.as_str().as_bytes(), "content-length") {
            return parse_decimal(h.value.as_str().as_bytes());
        }
    }
    None
}

impl RequestHead {
    /// The announced length of the body. Of several `Content-Length`
    /// headers the last one counts.
    pub fn content_length(&self) -> (r: Option<usize>)
        ensures
            r == content_length_of(as_lines(self@.headers)),
    {
        announced_length(&self.headers)
    }
}

impl ResponseHead {
    /// The announced length of the body. Of several `Content-Length`
    /// headers the last one counts.
    pub fn content_length(&self) -> (r: Option<usize>)
        ensures
            r == content_length_of(as_lines(self@.headers)),
    {
        announced_length(&self.headers)
    }
}

/// The head of the request at the start of `buf`: the request line and the
/// header block. Anything else, a head that is cut off too, is no head.
pub open spec fn request_head(buf: Seq<u8>) -> Option<RequestHeadView> {
    match request_line(buf, 0) {
        Parse::Done(end, head) => if 0 <= end <= buf.len() {
            match header_block(buf, end) {
                Parse::Done(_, list) => Some(RequestHeadView { headers: list, ..head }),
                _ => None,
            }
        } else {
            None
        },
        _ => None,
    }
}

/// Reads the head of the request at the start of `buf`.
pub fn parse_request_head(buf: &[u8]) -> (r: Result<RequestHead, Error>)
    ensures
        match request_head(buf@) {
            Some(head) => r matches Ok(h) && h@ == head,
            None => r == Err::<RequestHead, Error>(Error::Invalid),
        },
{
    match read_request_line(buf, 0) {
        Step::Done(end, head) => match read_header_block(buf, end) {
            Step::Done(_, list) => Ok(
                RequestHead {
                    method: head.method,
                    uri: head.uri,
                    version: head.version,
                    headers: list,
                },
            ),
            _ => Err(Error::Invalid),
        },
        _ => Err(Error::Invalid),
    }
}


/// What a list of chunks stands for in contracts.
pub open spec fn chunk_views(chunks: Seq<Chunk>) -> Seq<Seq<u8>> {
    chunks.map_values(|c: Chunk| c.0@)
}

/// What a [`Request`] stands for in contracts.
pub struct RequestView {
    /// The head.
    pub head: RequestHeadView,
    /// The pieces of the body.
    pub body: Seq<Seq<u8>>,
}

/// A request: its head and the pieces of its body.
#[derive(Debug, PartialEq, Eq)]
pub struct Request {
    /// The head.
    pub head: RequestHead,
    /// The pieces of the body.
    pub body: Vec<Chunk>,
}

impl View for Request {
    type V = RequestView;

    open spec fn view(&self) -> RequestView {
        RequestView { head: self.head@, body: chunk_views(self.body@) }
    }
}

/// What a [`Response`] stands for in contracts.
pub struct ResponseView {
    /// The head.
    pub head: ResponseHeadView,
    /// The pieces of the body.
    pub body: Seq<Seq<u8>>,
}

/// A response: its head and the pieces of its body.
#[derive(Debug, PartialEq, Eq)]
pub struct Response {
    /// The head.
    pub head: ResponseHead,
    /// The pieces of the body.
    pub body: Vec<Chunk>,
}

impl View for Response {
    type V = ResponseView;

    open spec fn view(&self) -> ResponseView {
        ResponseView { head: self.head@, body: chunk_views(self.body@) }
    }
}

/// What a call of a parser comes to: the parser's state after the call, how
/// many bytes it took from the front of the buffer, and what it hands back.
pub struct Outcome<S, M> {
    /// The parser's state.
    pub state: S,
    /// How many bytes were taken from the front of the buffer.
    pub consumed: nat,
    /// The message, nothing yet, or an error.
    pub result: Result<Option<M>, Error>,
}

impl<S, M> Outcome<S, M> {
    /// Nothing taken, nothing to hand back yet.
    pub open spec fn wait(state: S) -> Outcome<S, M> {
        Outcome { state, consumed: 0, result: Ok(None) }
    }

    /// Nothing taken, stopped by `error`.
    pub open spec fn fail(state: S, error: Error) -> Outcome<S, M> {
        Outcome { state, consumed: 0, result: Err(error) }
    }

    /// The same outcome after `n` bytes that were taken before.
    pub open spec fn after(self, n: int) -> Outcome<S, M> {
        Outcome { consumed: (self.consumed + n) as nat, ..self }
    }
}

/// Where a [`RequestParser`] stands.
pub enum RequestProgress {
    /// The request line is to come.
    RequestLine,
    /// The request line was read; the headers are to come.
    Headers(RequestHeadView),
    /// The head was read; a body of this many bytes is to come.
    Body(RequestHeadView, usize),
    /// The request was handed back.
    Complete,
}

enum RequestState {
    RequestLine,
    Headers(RequestHead),
    Body(RequestHead, usize),
    Complete,
}

impl View for RequestState {
    type V = RequestProgress;

    closed spec fn view(&self) -> RequestProgress {
        match self {
            RequestState::RequestLine => RequestProgress::RequestLine,
            RequestState::Headers(head) => RequestProgress::Headers(head@),
            RequestState::Body(head, n) => RequestProgress::Body(head@, *n),
            RequestState::Complete => RequestProgress::Complete,
        }
    }
}

/// The order in which the states of a request follow each other.
pub open spec fn request_rank(state: RequestProgress) -> nat {
    match state {
        RequestProgress::RequestLine => 3,
        RequestProgress::Headers(_) => 2,
        RequestProgress::Body(_, _) => 1,
        RequestProgress::Complete => 0,
    }
}

/// What a call of [`RequestParser::parse_request`] does in `state` with
/// `buf` in the buffer. The request line is read, then the header block,
/// then the body, each as soon as the buffer holds all of it; a piece that is
/// not all there yet ends the call with nothing, and the state keeps what was
/// read. A request whose head announces no length has no body. A parser that
/// has handed its request back has nothing left to parse.
pub open spec fn request_run(state: RequestProgress, buf: Seq<u8>) -> Outcome<
    RequestProgress,
    RequestView,
>
    decreases request_rank(state),
{
    match state {
        RequestProgress::RequestLine => match request_line(buf, 0) {
            Parse::Done(end, head) => if 0 <= end <= buf.len() {
                request_run(RequestProgress::Headers(head), buf.skip(end)).after(end)
            } else {
                Outcome::wait(state)
            },
            Parse::Incomplete => Outcome::wait(state),
            Parse::Error => Outcome::fail(state, Error::Invalid),
        },
        RequestProgress::Headers(head) => match header_block(buf, 0) {
            Parse::Done(end, list) => if 0 <= end <= buf.len() {
                let full = RequestHeadView { headers: head.headers + list, ..head };
                match content_length_of(as_lines(full.headers)) {
                    Some(n) => request_run(RequestProgress::Body(full, n), buf.skip(end)).after(
                        end,
                    ),
                    None => Outcome {
                        state: RequestProgress::Complete,
                        consumed: end as nat,
                        result: Ok(Some(RequestView { head: full, body: Seq::empty() })),
                    },
                }
            } else {
                Outcome::wait(state)
            },
            Parse::Incomplete => Outcome::wait(state),
            Parse::Error => Outcome::fail(state, Error::Invalid),
        },
        RequestProgress::Body(head, n) => if buf.len() < n {
            Outcome::wait(state)
        } else {
            Outcome {
                state: RequestProgress::Complete,
                consumed: n as nat,
                result: Ok(Some(RequestView { head, body: seq![buf.take(n as int)] })),
            }
        },
        RequestProgress::Complete => Outcome::fail(state, Error::Complete),
    }
}

/// What an optional request stands for in contracts.
pub open spec fn request_result(r: Result<Option<Request>, Error>) -> Result<
    Option<RequestView>,
    Error,
> {
    match r {
        Ok(Some(m)) => Ok(Some(m@)),
        Ok(None) => Ok(None),
        Err(e) => Err(e),
    }
}

/// A parser that reads one request from a buffer, in as many calls as it
/// takes for the request to arrive.
pub struct RequestParser {
    state: RequestState,
}

impl View for RequestParser {
    type V = RequestProgress;

    closed spec fn view(&self) -> RequestProgress {
        self.state@
    }
}

impl RequestParser {
    /// A parser at the start of a request.
    pub fn new() -> (p: RequestParser)
        ensures
            p@ is RequestLine,
    {
        RequestParser { state: RequestState::RequestLine }
    }

    /// Reads on from the front of `buf`. The bytes of every piece that was
    /// read leave the buffer.
    pub fn parse_request(&mut self, buf: &mut bytes::BytesMut) -> (r: Result<
        Option<Request>,
        Error,
    >)
        ensures
            ({
                let before = bytes_mut_bytes(*old(buf));
                let run = request_run(old(self)@, before);
                &&& final(self)@ == run.state
                &&& run.consumed <= before.len()
                &&& bytes_mut_bytes(*final(buf)) == before.skip(run.consumed as int)
                &&& request_result(r) == run.result
            }),
    {
        let ghost before = bytes_mut_bytes(*buf);
        let ghost goal = request_run(self.state@, before);
        let ghost mut taken: int = 0;
        let mut state = RequestState::Complete;
        std::mem::swap(&mut self.state, &mut state);
        assert(before.skip(0) =~= before);
        loop
            invariant
                0 <= taken <= before.len(),
                bytes_mut_bytes(*buf) == before.skip(taken),
                goal == request_run(state@, bytes_mut_bytes(*buf)).after(taken),
                goal == request_run(old(self)@, before),
                before == bytes_mut_bytes(*old(buf)),
            decreases request_rank(state@),
        {
            let ghost here = bytes_mut_bytes(*buf);
            let (next, done) = request_step(state, buf);
            proof {
                let n = here.len() - bytes_mut_bytes(*buf).len();
                assert(here.skip(n) =~= before.skip(taken + n));
                taken = taken + n;
            }
            match done {
                Some(r) => {
                    self.state = next;
                    return r;
                },
                None => {
                    state = next;
                },
            }
        }
    }
}

/// One piece of a request: the parser reads what its state expects from
/// the front of `buf`. It hands back the state to go on from, and the result
/// of the call where the call ends here.
fn request_step(state: RequestState, buf: &mut bytes::BytesMut) -> (r: (
    RequestState,
    Option<Result<Option<Request>, Error>>,
))
    ensures
        ({
            let before = bytes_mut_bytes(*old(buf));
            let after = bytes_mut_bytes(*final(buf));
            let n = before.len() - after.len();
            &&& 0 <= n <= before.len()
            &&& after == before.skip(n)
            &&& match r.1 {
                Some(result) => request_run(state@, before) == (Outcome {
                    state: r.0@,
                    consumed: n as nat,
                    result: request_result(result),
                }),
                None => request_rank(r.0@) < request_rank(state@) && request_run(state@, before)
                    == request_run(r.0@, after).after(n),
            }
        }),
{
    let ghost before = bytes_mut_bytes(*buf);
    assert(before.skip(0) =~= before);
    match state {
        RequestState::RequestLine => {
            match read_request_line(peek(buf), 0) {
                Step::Done(end, head) => {
                    let _ = split_front(buf, end);
                    (RequestState::Headers(head), None)
                },
                Step::Incomplete => (RequestState::RequestLine, Some(Ok(None))),
                Step::Error => (RequestState::RequestLine, Some(Err(Error::Invalid))),
            }
        },
        RequestState::Headers(head) => {
            match read_header_block(peek(buf), 0) {
                Step::Done(end, list) => {
                    let mut list = list;
                    let mut head = head;
                    let ghost first = header_views(head.headers@);
                    let ghost more = header_views(list@);
                    head.headers.append(&mut list);
                    assert(header_views(head.headers@) =~= first + more);
                    let _ = split_front(buf, end);
                    match head.content_length() {
                        Some(n) => (RequestState::Body(head, n), None),
                        None => {
                            let request = Request { head, body: Vec::new() };
                            assert(chunk_views(request.body@) =~= Seq::empty());
                            (RequestState::Complete, Some(Ok(Some(request))))
                        },
                    }
                },
                Step::Incomplete => (RequestState::Headers(head), Some(Ok(None))),
                Step::Error => (RequestState::Headers(head), Some(Err(Error::Invalid))),
            }
        },
        RequestState::Body(head, n) => {
            if buf.len() < n {
                return (RequestState::Body(head, n), Some(Ok(None)));
            }
            let body = split_front(buf, n);
            let mut chunks: Vec<Chunk> = Vec::new();
            chunks.push(Chunk(body));
            assert(chunk_views(chunks@) =~= seq![before.take(n as int)]);
            (RequestState::Complete, Some(Ok(Some(Request { head, body: chunks }))))
        },
        RequestState::Complete => (RequestState::Complete, Some(Err(Error::Complete))),
    }
}

/// A parser that cuts a body of a known length out of a buffer, piece by
/// piece.
pub struct BodyParser {
    /// Number of remaining bytes to parse.
    remaining: usize,
}

impl BodyParser {
    /// How many bytes of the body are still to come.
    pub closed spec fn left(&self) -> nat {
        self.remaining as nat
    }

    /// What a call of [`BodyParser::parse`] does with `left` bytes to come
    /// and `buf` in the buffer: nothing where the body is complete, an error
    /// where the buffer is empty before it is, else as many body bytes as are
    /// there are taken.
    pub open spec fn run(left: nat, buf: Seq<u8>) -> Outcome<nat, Seq<u8>> {
        if left == 0 {
            Outcome::wait(left)
        } else if buf.len() == 0 {
            Outcome::fail(left, Error::Invalid)
        } else {
            let n = if buf.len() < left {
                buf.len()
            } else {
                left
            };
            Outcome { state: (left - n) as nat, consumed: n, result: Ok(Some(buf.take(n as int))) }
        }
    }

    /// A parser for a body of `remaining` bytes.
    pub fn new(remaining: usize) -> (p: BodyParser)
        ensures
            p.left() == remaining,
    {
        BodyParser { remaining: remaining }
    }

    /// Takes the next piece of the body from the front of `buf`. `None`
    /// says that the body is complete.
    pub fn parse(&mut self, buf: &mut bytes::BytesMut) -> (r: Result<Option<Chunk>, Error>)
        ensures
            ({
                let before = bytes_mut_bytes(*old(buf));
                let run = BodyParser::run(old(self).left(), before);
                &&& final(self).left() == run.state
                &&& run.consumed <= before.len()
                &&& bytes_mut_bytes(*final(buf)) == before.skip(run.consumed as int)
                &&& match r {
                    Ok(Some(chunk)) => run.result == Ok::<Option<Seq<u8>>, Error>(Some(chunk.0@)),
                    Ok(None) => run.result == Ok::<Option<Seq<u8>>, Error>(None),
                    Err(e) => run.result == Err::<Option<Seq<u8>>, Error>(e),
                }
            }),
    {
        assert(bytes_mut_bytes(*buf).skip(0) =~= bytes_mut_bytes(*buf));
        if self.remaining == 0 {
            return Ok(None);
        }
        if buf.len() == 0 {
            return Err(Error::Invalid);
        }
        let length = if buf.len() < self.remaining {
            buf.len()
        } else {
            self.remaining
        };
        let body = split_front(buf, length);
        self.remaining = self.remaining - length;
        Ok(Some(Chunk(body)))
    }
}


/// Where a [`ResponseParser`] stands.
pub enum ResponseProgress {
    /// The status line is to come.
    StatusLine,
    /// The status line was read; the headers are to come.
    Headers(ResponseHeadView),
    /// The head was read; a body of this many bytes is to come.
    Body(ResponseHeadView, usize),
    /// The head was read and these chunks of the body; more chunks are to
    /// come.
    ChunkedBody(ResponseView),
    /// The response was handed back.
    Complete,
}

enum ResponseState {
    StatusLine,
    Headers(ResponseHead),
    Body(ResponseHead, usize),
    ChunkedBody(Response),
    Complete,
}

impl View for ResponseState {
    type V = ResponseProgress;

    closed spec fn view(&self) -> ResponseProgress {
        match self {
            ResponseState::StatusLine => ResponseProgress::StatusLine,
            ResponseState::Headers(head) => ResponseProgress::Headers(head@),
            ResponseState::Body(head, n) => ResponseProgress::Body(head@, *n),
            ResponseState::ChunkedBody(response) => ResponseProgress::ChunkedBody(response@),
            ResponseState::Complete => ResponseProgress::Complete,
        }
    }
}

/// The order in which the states of a response follow each other.
pub open spec fn response_rank(state: ResponseProgress) -> nat {
    match state {
        ResponseProgress::StatusLine => 3,
        ResponseProgress::Headers(_) => 2,
        ResponseProgress::Body(_, _) => 1,
        ResponseProgress::ChunkedBody(_) => 1,
        ResponseProgress::Complete => 0,
    }
}

/// What the buffer holds where a chunk is expected.
pub enum ChunkAt {
    /// The last chunk, of size zero, with the trailer behind it: a header
    /// block, which may be empty. It ends before this index, and these are
    /// the headers of the trailer.
    Last(int, Seq<HeaderView>),
    /// A chunk with its size line and the line end behind it: it ends before
    /// this index, and its bytes are these.
    Piece(int, Seq<u8>),
    /// The start of a chunk.
    Incomplete,
    /// No chunk.
    Error,
}

/// The chunk at the start of `buf`: a size line, as many bytes as it says,
/// and a line end; or, for the size zero, a size line and a trailer. A chunk
/// is only there when all of it is.
pub open spec fn chunk_at(buf: Seq<u8>) -> ChunkAt {
    match chunk_header_at(buf, 0) {
        Parse::Done(p, size) => if 0 <= p <= buf.len() {
            if size == 0 {
                match header_block(buf, p) {
                    Parse::Done(q, trailer) => ChunkAt::Last(q, trailer),
                    Parse::Incomplete => ChunkAt::Incomplete,
                    Parse::Error => ChunkAt::Error,
                }
            } else if buf.len() - p < size {
                ChunkAt::Incomplete
            } else {
                match crlf(buf, p + size) {
                    Parse::Done(q, _) => ChunkAt::Piece(q, buf.subrange(p, p + size)),
                    Parse::Incomplete => ChunkAt::Incomplete,
                    Parse::Error => ChunkAt::Error,
                }
            }
        } else {
            ChunkAt::Incomplete
        },
        Parse::Incomplete => ChunkAt::Incomplete,
        Parse::Error => ChunkAt::Error,
    }
}

/// What a call of [`ResponseParser::parse_response`] does in `state` with
/// `buf` in the buffer. The status line is read, then the header block, then
/// the body, each piece as soon as the buffer holds all of it; a piece that
/// is not all there yet ends the call with nothing, and the state keeps what
/// was read. With an announced length the body is that many bytes, in one
/// piece. Without one the body is chunked: every chunk is a piece of the
/// body, and the chunk of size zero ends it; the headers of the trailer
/// behind it join the headers of the response. A parser that has handed its
/// response back has nothing left to parse.
pub open spec fn response_run(state: ResponseProgress, buf: Seq<u8>) -> Outcome<
    ResponseProgress,
    ResponseView,
>
    decreases response_rank(state), buf.len(),
{
    match state {
        ResponseProgress::StatusLine => match status_line(buf, 0) {
            Parse::Done(end, head) => if 0 <= end <= buf.len() {
                response_run(ResponseProgress::Headers(head), buf.skip(end)).after(end)
            } else {
                Outcome::wait(state)
            },
            Parse::Incomplete => Outcome::wait(state),
            Parse::Error => Outcome::fail(state, Error::Invalid),
        },
        ResponseProgress::Headers(head) => match header_block(buf, 0) {
            Parse::Done(end, list) => if 0 <= end <= buf.len() {
                let full = ResponseHeadView { headers: head.headers + list, ..head };
                let next = match content_length_of(as_lines(full.headers)) {
                    Some(n) => ResponseProgress::Body(full, n),
                    None => ResponseProgress::ChunkedBody(
                        ResponseView { head: full, body: Seq::empty() },
                    ),
                };
                response_run(next, buf.skip(end)).after(end)
            } else {
                Outcome::wait(state)
            },
            Parse::Incomplete => Outcome::wait(state),
            Parse::Error => Outcome::fail(state, Error::Invalid),
        },
        ResponseProgress::Body(head, n) => if buf.len() < n {
            Outcome::wait(state)
        } else {
            Outcome {
                state: ResponseProgress::Complete,
                consumed: n as nat,
                result: Ok(Some(ResponseView { head, body: seq![buf.take(n as int)] })),
            }
        },
        ResponseProgress::ChunkedBody(response) => match chunk_at(buf) {
            ChunkAt::Last(end, trailer) => Outcome {
                state: ResponseProgress::Complete,
                consumed: end as nat,
                result: Ok(
                    Some(
                        ResponseView {
                            head: ResponseHeadView {
                                headers: response.head.headers + trailer,
                                ..response.head
                            },
                            ..response
                        },
                    ),
                ),
            },
            ChunkAt::Piece(end, bytes) => if 0 < end <= buf.len() {
                response_run(
                    ResponseProgress::ChunkedBody(
                        ResponseView { body: response.body.push(bytes), ..response },
                    ),
                    buf.skip(end),
                ).after(end)
            } else {
                Outcome::wait(state)
            },
            ChunkAt::Incomplete => Outcome::wait(state),
            ChunkAt::Error => Outcome::fail(state, Error::Invalid),
        },
        ResponseProgress::Complete => Outcome::fail(state, Error::Complete),
    }
}

/// What an optional response stands for in contracts.
pub open spec fn response_result(r: Result<Option<Response>, Error>) -> Result<
    Option<ResponseView>,
    Error,
> {
    match r {
        Ok(Some(m)) => Ok(Some(m@)),
        Ok(None) => Ok(None),
        Err(e) => Err(e),
    }
}

/// What the parser reads where a chunk is expected.
enum ChunkRead {
    Last(usize, Vec<Header>),
    Piece(usize, Vec<u8>),
    Incomplete,
    Error,
}

/// Reads the chunk at the start of `buf`.
fn read_chunk(buf: &[u8]) -> (r: ChunkRead)
    ensures
        match r {
            ChunkRead::Last(end, trailer) => chunk_at(buf@) == ChunkAt::Last(
                end as int,
                header_views(trailer@),
            ) && end <= buf@.len(),
            ChunkRead::Piece(end, bytes) => chunk_at(buf@) == ChunkAt::Piece(end as int, bytes@)
                && 0 < end <= buf@.len(),
            ChunkRead::Incomplete => chunk_at(buf@) is Incomplete,
            ChunkRead::Error => chunk_at(buf@) is Error,
        },
{
    match read_chunk_header(buf, 0) {
        Step::Done(p, size) => {
            if size == 0 {
                return match read_header_block(buf, p) {
                    Step::Done(q, trailer) => ChunkRead::Last(q, trailer),
                    Step::Incomplete => ChunkRead::Incomplete,
                    Step::Error => ChunkRead::Error,
                };
            }
            if buf.len() - p < size {
                return ChunkRead::Incomplete;
            }
            match read_crlf(buf, p + size) {
                Step::Done(q, _) => {
                    let bytes = vstd::slice::slice_to_vec(
                        vstd::slice::slice_subrange(buf, p, p + size),
                    );
                    proof {
                        reveal_strlit("\r\n");
                    }
                    ChunkRead::Piece(q, bytes)
                },
                Step::Incomplete => ChunkRead::Incomplete,
                Step::Error => ChunkRead::Error,
            }
        },
        Step::Incomplete => ChunkRead::Incomplete,
        Step::Error => ChunkRead::Error,
    }
}

/// Whether a step from `state` that left `after` of `before` in the buffer
/// and came to `next`, with the result `done` where the call ends with it,
/// is a step of [`response_run`].
spec fn response_stepped(
    state: ResponseProgress,
    before: Seq<u8>,
    after: Seq<u8>,
    next: ResponseProgress,
    done: Option<Result<Option<Response>, Error>>,
) -> bool {
    let n = before.len() - after.len();
    &&& 0 <= n <= before.len()
    &&& after == before.skip(n)
    &&& match done {
        Some(result) => response_run(state, before) == (Outcome {
            state: next,
            consumed: n as nat,
            result: response_result(result),
        }),
        None => {
            &&& response_rank(next) < response_rank(state) || (response_rank(next)
                == response_rank(state) && after.len() < before.len())
            &&& response_run(state, before) == response_run(next, after).after(n)
        },
    }
}

fn step_status_line(buf: &mut bytes::BytesMut) -> (r: (
    ResponseState,
    Option<Result<Option<Response>, Error>>,
))
    ensures
        response_stepped(
            ResponseProgress::StatusLine,
            bytes_mut_bytes(*old(buf)),
            bytes_mut_bytes(*final(buf)),
            r.0@,
            r.1,
        ),
{
    let ghost before = bytes_mut_bytes(*buf);
    assert(before.skip(0) =~= before);
    match read_status_line(peek(buf), 0) {
        Step::Done(end, head) => {
            let _ = split_front(buf, end);
            (ResponseState::Headers(head), None)
        },
        Step::Incomplete => (ResponseState::StatusLine, Some(Ok(None))),
        Step::Error => (ResponseState::StatusLine, Some(Err(Error::Invalid))),
    }
}

fn step_headers(head: ResponseHead, buf: &mut bytes::BytesMut) -> (r: (
    ResponseState,
    Option<Result<Option<Response>, Error>>,
))
    ensures
        response_stepped(
            ResponseProgress::Headers(head@),
            bytes_mut_bytes(*old(buf)),
            bytes_mut_bytes(*final(buf)),
            r.0@,
            r.1,
        ),
{
    let ghost before = bytes_mut_bytes(*buf);
    assert(before.skip(0) =~= before);
    match read_header_block(peek(buf), 0) {
        Step::Done(end, list) => {
            let mut list = list;
            let mut head = head;
            let ghost first = header_views(head.headers@);
            let ghost more = header_views(list@);
            head.headers.append(&mut list);
            assert(header_views(head.headers@) =~= first + more);
            let _ = split_front(buf, end);
            match head.content_length() {
                Some(n) => (ResponseState::Body(head, n), None),
                None => {
                    let response = Response { head, body: Vec::new() };
                    assert(chunk_views(response.body@) =~= Seq::empty());
                    (ResponseState::ChunkedBody(response), None)
                },
            }
        },
        Step::Incomplete => (ResponseState::Headers(head), Some(Ok(None))),
        Step::Error => (ResponseState::Headers(head), Some(Err(Error::Invalid))),
    }
}

fn step_body(head: ResponseHead, n: usize, buf: &mut bytes::BytesMut) -> (r: (
    ResponseState,
    Option<Result<Option<Response>, Error>>,
))
    ensures
        response_stepped(
            ResponseProgress::Body(head@, n),
            bytes_mut_bytes(*old(buf)),
            bytes_mut_bytes(*final(buf)),
            r.0@,
            r.1,
        ),
{
    let ghost before = bytes_mut_bytes(*buf);
    assert(before.skip(0) =~= before);
    if buf.len() < n {
        return (ResponseState::Body(head, n), Some(Ok(None)));
    }
    let body = split_front(buf, n);
    let mut chunks: Vec<Chunk> = Vec::new();
    chunks.push(Chunk(body));
    assert(chunk_views(chunks@) =~= seq![before.take(n as int)]);
    (ResponseState::Complete, Some(Ok(Some(Response { head, body: chunks }))))
}

fn step_chunk(response: Response, buf: &mut bytes::BytesMut) -> (r: (
    ResponseState,
    Option<Result<Option<Response>, Error>>,
))
    ensures
        response_stepped(
            ResponseProgress::ChunkedBody(response@),
            bytes_mut_bytes(*old(buf)),
            bytes_mut_bytes(*final(buf)),
            r.0@,
            r.1,
        ),
{
    let ghost before = bytes_mut_bytes(*buf);
    assert(before.skip(0) =~= before);
    match read_chunk(peek(buf)) {
        ChunkRead::Last(end, trailer) => {
            let mut trailer = trailer;
            let mut response = response;
            let ghost first = header_views(response.head.headers@);
            let ghost more = header_views(trailer@);
            response.head.headers.append(&mut trailer);
            assert(header_views(response.head.headers@) =~= first + more);
            let _ = split_front(buf, end);
            (ResponseState::Complete, Some(Ok(Some(response))))
        },
        ChunkRead::Piece(end, bytes) => {
            let mut response = response;
            let ghost chunks = chunk_views(response.body@);
            response.body.push(Chunk(bytes));
            assert(chunk_views(response.body@) =~= chunks.push(bytes@));
            let _ = split_front(buf, end);
            (ResponseState::ChunkedBody(response), None)
        },
        ChunkRead::Incomplete => (ResponseState::ChunkedBody(response), Some(Ok(None))),
        ChunkRead::Error => (ResponseState::ChunkedBody(response), Some(Err(Error::Invalid))),
    }
}

/// One piece of a response: the parser reads what its state expects from
/// the front of `buf`. It hands back the state to go on from, and the result
/// of the call where the call ends here.
fn response_step(state: ResponseState, buf: &mut bytes::BytesMut) -> (r: (
    ResponseState,
    Option<Result<Option<Response>, Error>>,
))
    ensures
        response_stepped(
            state@,
            bytes_mut_bytes(*old(buf)),
            bytes_mut_bytes(*final(buf)),
            r.0@,
            r.1,
        ),
{
    match state {
        ResponseState::StatusLine => step_status_line(buf),
        ResponseState::Headers(head) => step_headers(head, buf),
        ResponseState::Body(head, n) => step_body(head, n, buf),
        ResponseState::ChunkedBody(response) => step_chunk(response, buf),
        ResponseState::Complete => {
            assert(bytes_mut_bytes(*buf).skip(0) =~= bytes_mut_bytes(*buf));
            (ResponseState::Complete, Some(Err(Error::Complete)))
        },
    }
}

/// A parser that reads one response from a buffer, in as many calls as it
/// takes for the response to arrive.
pub struct ResponseParser {
    state: ResponseState,
}

impl View for ResponseParser {
    type V = ResponseProgress;

    closed spec fn view(&self) -> ResponseProgress {
        self.state@
    }
}

impl ResponseParser {
    /// A parser at the start of a response.
    pub fn new() -> (p: ResponseParser)
        ensures
            p@ is StatusLine,
    {
        ResponseParser { state: ResponseState::StatusLine }
    }

    /// Reads on from the front of `buf`. The bytes of every piece that was
    /// read leave the buffer.
    pub fn parse_response(&mut self, buf: &mut bytes::BytesMut) -> (r: Result<
        Option<Response>,
        Error,
    >)
        ensures
            ({
                let before = bytes_mut_bytes(*old(buf));
                let run = response_run(old(self)@, before);
                &&& final(self)@ == run.state
                &&& run.consumed <= before.len()
                &&& bytes_mut_bytes(*final(buf)) == before.skip(run.consumed as int)
                &&& response_result(r) == run.result
            }),
    {
        let ghost before = bytes_mut_bytes(*buf);
        let ghost goal = response_run(self.state@, before);
        let ghost mut taken: int = 0;
        let mut state = ResponseState::Complete;
        std::mem::swap(&mut self.state, &mut state);
        assert(before.skip(0) =~= before);
        loop
            invariant
                0 <= taken <= before.len(),
                bytes_mut_bytes(*buf) == before.skip(taken),
                goal == response_run(state@, bytes_mut_bytes(*buf)).after(taken),
                goal == response_run(old(self)@, before),
                before == bytes_mut_bytes(*old(buf)),
            decreases response_rank(state@), bytes_mut_bytes(*buf).len(),
        {
            let ghost here = bytes_mut_bytes(*buf);
            let (next, done) = response_step(state, buf);
            proof {
                let n = here.len() - bytes_mut_bytes(*buf).len();
                assert(here.skip(n) =~= before.skip(taken + n));
                taken = taken + n;
            }
            match done {
                Some(r) => {
                    self.state = next;
                    return r;
                },
                None => {
                    state = next;
                },
            }
        }
    }
}


/// Reads the protocol version at the start of `input`.
pub fn http_version(input: &[u8]) -> (r: Step<Version>)
    ensures
        agrees_plain(r, version_at(input@, 0)),
        r matches Step::Done(end, _) ==> end <= input@.len(),
{
    read_version(input, 0)
}

/// Reads the size line of a chunk at the start of `input`.
pub fn chunk_header(input: &[u8]) -> (r: Step<usize>)
    ensures
        agrees_plain(r, chunk_header_at(input@, 0)),
        r matches Step::Done(end, _) ==> end <= input@.len(),
{
    read_chunk_header(input, 0)
}

} // verus!
