//! HTTP/1.1 messages as bytes: heads, header lookup and body framing.

pub mod body;
pub mod parser;
pub mod request;
pub mod response;

use vstd::prelude::*;

verus! {

/// What a codec hands on: the head of a message, a piece of its body, or an
/// error.
pub enum Frame<M> {
    /// The head of a message, and whether body frames follow.
    Message {
        /// The message.
        message: M,
        /// Whether the body goes on in frames of its own.
        body: bool,
    },
    /// A piece of a body, or with `None` the end of the body.
    Body {
        /// The piece.
        chunk: Option<Chunk>,
    },
    /// An error in place of a message.
    Error {
        /// The error.
        error: Error,
    },
}

/// HTTP protocol version.
#[derive(Clone, Copy, Debug, Eq, PartialEq)]
pub enum Version {
    /// `HTTP/0.9`
    Http09,
    /// `HTTP/1.0`
    Http10,
    /// `HTTP/1.1`
    Http11,
    /// `HTTP/2`
    Http2,
}

/// A piece of a message body.
#[derive(Debug, Eq, PartialEq)]
pub struct Chunk(pub Vec<u8>);

/// Why a message could not be read.
#[derive(Clone, Copy, Debug, Eq, PartialEq)]
pub enum Error {
    /// The bytes are not a message of the expected form.
    Invalid,
    /// Body bytes arrived after the announced length was read.
    BodyComplete,
    /// The size line of a chunk is malformed.
    InvalidChunkSize,
    /// The trailer after the last chunk is malformed.
    InvalidTrailer,
    /// A request carries body bytes but announces neither a length nor the
    /// chunked coding.
    UnframedBody,
    /// The message was read whole before; there is nothing left to parse.
    Complete,
    /// The stream ended inside a frame.
    BytesRemaining,
    /// The transport took none of the bytes that were to be written.
    WriteZero,
}

/// A byte with an upper-case ASCII letter turned to lower case.
pub open spec fn lower(b: u8) -> u8 {
    if 65 <= b <= 90 {
        (b + 32) as u8
    } else {
        b
    }
}

/// Whether `bytes` spell `word` when the case of ASCII letters is set aside.
pub open spec fn spells(bytes: Seq<u8>, word: Seq<char>) -> bool {
    &&& bytes.len() == word.len()
    &&& forall|i: int| 0 <= i < bytes.len() ==> lower(#[trigger] bytes[i]) == lower(word[i] as u8)
}

/// Whether `bytes` spell the ASCII word `word`, letter case set aside.
pub fn spells_word(bytes: &[u8], word: &str) -> (b: bool)
    requires
        word.is_ascii(),
    ensures
        b == spells(bytes@, word@),
{
    broadcast use vstd::string::is_ascii_spec_bytes;

    let w = word.as_bytes();
    assert(w@ =~= Seq::new(word@.len(), |i: int| word@[i] as u8));
    if bytes.len() != w.len() {
        return false;
    }
    let mut i: usize = 0;
    while i < bytes.len()
        invariant
            i <= bytes.len(),
            bytes.len() == w.len(),
            w@ == Seq::new(word@.len(), |i: int| word@[i] as u8),
            forall|k: int| 0 <= k < i ==> lower(#[trigger] bytes@[k]) == lower(word@[k] as u8),
        decreases bytes.len() - i,
    {
        let a = bytes[i];
        let b = w[i];
        let la = if 65 <= a && a <= 90 {
            a + 32
        } else {
            a
        };
        let lb = if 65 <= b && b <= 90 {
            b + 32
        } else {
            b
        };
        if la != lb {
            assert(lower(bytes@[i as int]) != lower(word@[i as int] as u8));
            return false;
        }
        i = i + 1;
    }
    true
}

/// Whether every byte is an ASCII digit, and there is at least one.
pub open spec fn is_digits(s: Seq<u8>) -> bool {
    s.len() > 0 && forall|i: int| 0 <= i < s.len() ==> 48 <= #[trigger] s[i] <= 57
}

/// The number that a run of ASCII digits writes in base ten.
pub open spec fn digits_value(s: Seq<u8>) -> nat
    decreases s.len(),
{
    if s.len() == 0 {
        0
    } else {
        digits_value(s.drop_last()) * 10 + (s.last() - 48) as nat
    }
}

/// What a header value says as a length: base-ten digits after an optional
/// `+`, with a value that fits `usize`. Anything else is no length.
pub open spec fn decimal(s: Seq<u8>) -> Option<usize> {
    let digits = if s.len() > 0 && s[0] == 43 {
        s.skip(1)
    } else {
        s
    };
    if is_digits(digits) && digits_value(digits) <= usize::MAX {
        Some(digits_value(digits) as usize)
    } else {
        None
    }
}

/// A longer run of digits writes no smaller number.
proof fn lemma_digits_grow(s: Seq<u8>, n: int)
    requires
        0 <= n <= s.len(),
    ensures
        digits_value(s.take(n)) <= digits_value(s),
    decreases s.len() - n,
{
    if n < s.len() {
        lemma_digits_grow(s, n + 1);
        assert(s.take(n + 1).drop_last() =~= s.take(n));
    } else {
        assert(s.take(n) =~= s);
    }
}

/// Reads a length from a header value.
pub fn parse_decimal(bytes: &[u8]) -> (r: Option<usize>)
    ensures
        r == decimal(bytes@),
{
    let start: usize = if bytes.len() > 0 && bytes[0] == 43 {
        1
    } else {
        0
    };
    let ghost digits = if bytes@.len() > 0 && bytes@[0] == 43 {
        bytes@.skip(1)
    } else {
        bytes@
    };
    if start == bytes.len() {
        return None;
    }
    let mut value: usize = 0;
    let mut i: usize = start;
    while i < bytes.len()
        invariant
            start <= i <= bytes.len(),
            start < bytes.len(),
            digits.len() == bytes.len() - start,
            forall|k: int| 0 <= k < digits.len() ==> #[trigger] digits[k] == bytes@[k + start],
            decimal(bytes@) == if is_digits(digits) && digits_value(digits) <= usize::MAX {
                Some(digits_value(digits) as usize)
            } else {
                None
            },
            forall|k: int| 0 <= k < i - start ==> 48 <= #[trigger] digits[k] <= 57,
            value == digits_value(digits.take(i - start)),
        decreases bytes.len() - i,
    {
        let b = bytes[i];
        assert(digits[i - start] == b);
        if b < 48 || b > 57 {
            return None;
        }
        let d = (b - 48) as usize;
        proof {
            assert(digits.take(i - start + 1).drop_last() =~= digits.take(i - start));
            lemma_digits_grow(digits, i - start + 1);
        }
        if value > (usize::MAX - d) / 10 {
            assert(digits_value(digits.take(i - start + 1)) > usize::MAX);
            return None;
        }
        value = value * 10 + d;
        i = i + 1;
    }
    assert(digits.take(i - start) =~= digits);
    Some(value)
}


/// What a [`HeaderLine`] stands for in contracts.
pub struct LineView {
    /// The header's name.
    pub name: Seq<u8>,
    /// The header's value.
    pub value: Seq<u8>,
}

/// One header of a message head, as bytes.
#[derive(Debug, PartialEq, Eq)]
pub struct HeaderLine {
    /// The header's name.
    pub name: Vec<u8>,
    /// The header's value.
    pub value: Vec<u8>,
}

impl View for HeaderLine {
    type V = LineView;

    open spec fn view(&self) -> LineView {
        LineView { name: self.name@, value: self.value@ }
    }
}

impl Clone for HeaderLine {
    fn clone(&self) -> (copy: HeaderLine)
        ensures
            copy@ == self@,
    {
        HeaderLine {
            name: vstd::slice::slice_to_vec(self.name.as_slice()),
            value: vstd::slice::slice_to_vec(self.value.as_slice()),
        }
    }
}

/// What a list of header lines stands for in contracts.
pub open spec fn line_views(lines: Seq<HeaderLine>) -> Seq<LineView> {
    lines.map_values(|l: HeaderLine| l@)
}

/// The length that a head announces: what the last `Content-Length` header
/// says, if there is one and it says a length.
pub open spec fn content_length_of(lines: Seq<LineView>) -> Option<usize>
    decreases lines.len(),
{
    if lines.len() == 0 {
        None
    } else if spells(lines.last().name, "content-length"@) {
        decimal(lines.last().value)
    } else {
        content_length_of(lines.drop_last())
    }
}

/// Whether a head announces the chunked coding: whether the first
/// `Transfer-Encoding` header, if there is one, says `chunked`.
pub open spec fn chunked_of(lines: Seq<LineView>) -> bool
    decreases lines.len(),
{
    if lines.len() == 0 {
        false
    } else if spells(lines[0].name, "transfer-encoding"@) {
        spells(lines[0].value, "chunked"@)
    } else {
        chunked_of(lines.skip(1))
    }
}

/// The headers of a message head, to look things up in.
pub struct Headers<'r> {
    lines: &'r Vec<HeaderLine>,
}

impl<'r> Headers<'r> {
    /// The header lines, in the order of the head.
    pub closed spec fn lines(&self) -> Seq<LineView> {
        line_views(self.lines@)
    }

    /// The headers of a head with these lines.
    pub fn new(lines: &'r Vec<HeaderLine>) -> (h: Headers<'r>)
        ensures
            h.lines() == line_views(lines@),
    {
        Headers { lines }
    }

    /// The number of header lines.
    pub fn len(&self) -> (n: usize)
        ensures
            n == self.lines().len(),
    {
        self.lines.len()
    }

    /// The header line at `i`, counted from the start of the head, or
    /// `None` behind the last line.
    pub fn get(&self, i: usize) -> (line: Option<&'r HeaderLine>)
        ensures
            line is Some <==> i < self.lines().len(),
            line matches Some(l) ==> l@ == self.lines()[i as int],
    {
        if i < self.lines.len() {
            Some(&self.lines[i])
        } else {
            None
        }
    }

    /// The announced length of the body. Of several `Content-Length` headers
    /// the last one counts.
    pub fn content_length(self) -> (r: Option<usize>)
        ensures
            r == content_length_of(self.lines()),
    {
        proof {
            reveal_strlit("content-length");
        }
        let ghost all = line_views(self.lines@);
        let mut i: usize = self.lines.len();
        assert(all.take(i as int) =~= all);
        while i > 0
            invariant
                i <= self.lines.len(),
                all == line_views(self.lines@),
                content_length_of(all) == content_length_of(all.take(i as int)),
                "content-length".is_ascii(),
            decreases i,
        {
            i = i - 1;
            let line = &self.lines[i];
            proof {
                assert(all.take(i + 1).last() == line@);
                assert(all.take(i + 1).drop_last() =~= all.take(i as int));
            }
            if spells_word(line.name.as_slice(), "content-length") {
                return parse_decimal(line.value.as_slice());
            }
        }
        None
    }

    /// Whether the head announces the chunked coding. Of several
    /// `Transfer-Encoding` headers the first one counts.
    pub fn transfer_encoding_chunked(self) -> (r: bool)
        ensures
            r == chunked_of(self.lines()),
    {
        proof {
            reveal_strlit("transfer-encoding");
            reveal_strlit("chunked");
        }
        let ghost all = line_views(self.lines@);
        let mut i: usize = 0;
        assert(all.skip(0) =~= all);
        while i < self.lines.len()
            invariant
                i <= self.lines.len(),
                all == line_views(self.lines@),
                chunked_of(all) == chunked_of(all.skip(i as int)),
                "transfer-encoding".is_ascii(),
                "chunked".is_ascii(),
            decreases self.lines.len() - i,
        {
            let line = &self.lines[i];
            proof {
                assert(all.skip(i as int)[0] == line@);
                assert(all.skip(i as int).skip(1) =~= all.skip(i + 1));
            }
            if spells_word(line.name.as_slice(), "transfer-encoding") {
                return spells_word(line.value.as_slice(), "chunked");
            }
            i = i + 1;
        }
        false
    }
}


/// What a body decoder that a codec keeps between calls stands for in
/// contracts.
pub open spec fn framing_view(codec: Option<body::BodyCodec>) -> Option<body::Framing> {
    match codec {
        Some(c) => Some(c@),
        None => None,
    }
}

/// What a call of a codec does while a body is being read, with the framing
/// `framing` and `buf` in the buffer. After the end of the body the call
/// hands on the end of the body and is ready for the next head. Else the
/// body decoder takes what it can.
pub open spec fn body_step(framing: body::Framing, buf: Seq<u8>) -> body::Progress<
    Option<body::Framing>,
> {
    if !framing.unfinished() {
        body::Progress::stay(None)
    } else {
        let p = framing.run(buf);
        body::Progress { state: Some(p.state), consumed: p.consumed, error: p.error }
    }
}

/// Whether `r` is what a codec hands on for a call while a body is being
/// read.
pub open spec fn body_frame<M>(
    framing: body::Framing,
    buf: Seq<u8>,
    r: Result<Option<Frame<M>>, Error>,
) -> bool {
    if !framing.unfinished() {
        r matches Ok(Some(Frame::Body { chunk: None }))
    } else {
        let p = framing.run(buf);
        match p.error {
            Some(e) => r == Err::<Option<Frame<M>>, Error>(e),
            None => if p.consumed == 0 {
                r matches Ok(None)
            } else {
                r matches Ok(Some(Frame::Body { chunk: Some(c) })) && c.0@ == buf.take(
                    p.consumed as int,
                )
            },
        }
    }
}

/// One call of a codec while a body is being read.
pub(crate) fn decode_body<M>(codec: &mut Option<body::BodyCodec>, buf: &mut tokio_core::io::EasyBuf) -> (r:
    Result<Option<Frame<M>>, Error>)
    requires
        *old(codec) is Some,
    ensures
        ({
            let before = crate::buffer::easybuf_bytes(*old(buf));
            let step = body_step((*old(codec))->0@, before);
            &&& framing_view(*final(codec)) == step.state
            &&& step.consumed <= before.len()
            &&& crate::buffer::easybuf_bytes(*final(buf)) == before.skip(step.consumed as int)
            &&& body_frame((*old(codec))->0@, before, r)
        }),
{
    let ghost before = crate::buffer::easybuf_bytes(*buf);
    assert(before.skip(0) =~= before);
    let mut inner = codec.take().unwrap();
    if !inner.remaining() {
        return Ok(Some(Frame::Body { chunk: None }));
    }
    let decoded = inner.decode(buf);
    *codec = Some(inner);
    match decoded {
        Err(e) => Err(e),
        Ok(None) => Ok(None),
        Ok(Some(chunk)) => Ok(Some(Frame::Body { chunk: Some(chunk) })),
    }
}

/// Appends a piece of a body to the bytes to write.
pub(crate) fn encode_body(chunk: Option<Chunk>, buf: &mut Vec<u8>)
    ensures
        final(buf)@ == old(buf)@ + match chunk {
            Some(c) => c.0@,
            None => Seq::<u8>::empty(),
        },
{
    match chunk {
        Some(c) => {
            let mut bytes = c.0;
            buf.append(&mut bytes);
        },
        None => {
            assert(buf@ + Seq::<u8>::empty() =~= buf@);
        },
    }
}

} // verus!
