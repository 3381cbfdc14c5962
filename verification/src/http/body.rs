//! Body framing: how the bytes of a message body are cut out of the read
//! buffer.
//!
//! A body is framed in one of three ways. With an announced length, exactly
//! that many bytes are the body. With the chunked coding, the body is a run
//! of chunks, each behind a size line, closed by a chunk of size zero and an
//! optional trailer; the decoder hands the coded bytes on as they are and
//! only keeps track of where the body ends. With neither, the body lasts
//! until the connection closes.

#![allow(deprecated)]

use vstd::prelude::*;
use tokio_core::io::EasyBuf;
use crate::buffer::{easybuf_bytes, take_front};
use crate::http::{Chunk, Error};

verus! {

/// A carriage return.
pub const CR: u8 = 13;

/// A line feed.
pub const LF: u8 = 10;

/// What a buffer holds where the size line of a chunk is expected.
#[derive(Clone, Copy, Debug, PartialEq, Eq)]
pub enum ChunkLine {
    /// A whole size line: its length in bytes, line end included, and the
    /// size that it announces.
    Complete(usize, u64),
    /// The start of a size line.
    Partial,
    /// No size line.
    Invalid,
}

/// What a buffer holds where a trailer is expected.
#[derive(Clone, Copy, Debug, PartialEq, Eq)]
pub enum TrailerBlock {
    /// A whole header block: its length in bytes, the closing empty line
    /// included.
    Complete(usize),
    /// The start of a header block.
    Partial,
    /// No header block, or one with more header lines than were allowed.
    Invalid,
}

/// How `httparse::parse_chunk_size` reads a buffer.
pub uninterp spec fn chunk_size_line(buf: Seq<u8>) -> ChunkLine;

/// How `httparse::parse_headers` reads a buffer when it has room for
/// `max_headers` header lines.
pub uninterp spec fn trailer_block(buf: Seq<u8>, max_headers: usize) -> TrailerBlock;

/// Reads a chunk's size line with `httparse::parse_chunk_size`. A complete
/// line ends inside the buffer: the parser counts the bytes that it has read.
#[verifier::external_body]
fn read_chunk_line(buf: &[u8]) -> (line: ChunkLine)
    ensures
        line == chunk_size_line(buf@),
        line matches ChunkLine::Complete(i, _) ==> i <= buf@.len(),
{
    match httparse::parse_chunk_size(buf) {
        Ok(httparse::Status::Complete((i, size))) => ChunkLine::Complete(i, size),
        Ok(httparse::Status::Partial) => ChunkLine::Partial,
        Err(_) => ChunkLine::Invalid,
    }
}

/// Reads a header block with `httparse::parse_headers`, with room for
/// `max_headers` lines. A complete block ends inside the buffer: the parser
/// counts the bytes that it has read.
#[verifier::external_body]
fn read_trailer(buf: &[u8], max_headers: usize) -> (block: TrailerBlock)
    ensures
        block == trailer_block(buf@, max_headers),
        block matches TrailerBlock::Complete(i) ==> i <= buf@.len(),
{
    let mut headers = vec![httparse::EMPTY_HEADER; max_headers];
    match httparse::parse_headers(buf, &mut headers) {
        Ok(httparse::Status::Complete((i, _))) => TrailerBlock::Complete(i),
        Ok(httparse::Status::Partial) => TrailerBlock::Partial,
        Err(_) => TrailerBlock::Invalid,
    }
}

/// The most header lines that a trailer may have.
pub const MAX_TRAILER_HEADERS: usize = 16;

/// Where a decoder stands after a call, seen from the buffer it was given.
pub struct Progress<S> {
    /// The decoder's state.
    pub state: S,
    /// How many bytes were taken from the front of the buffer.
    pub consumed: nat,
    /// The error that stopped the decoder, if one did.
    pub error: Option<Error>,
}

impl<S> Progress<S> {
    /// No byte taken, no error.
    pub open spec fn stay(state: S) -> Progress<S> {
        Progress { state, consumed: 0, error: None }
    }

    /// No byte taken, stopped by `error`.
    pub open spec fn fail(state: S, error: Error) -> Progress<S> {
        Progress { state, consumed: 0, error: Some(error) }
    }

    /// The same progress after `n` bytes that were taken before.
    pub open spec fn after(self, n: nat) -> Progress<S> {
        Progress { consumed: self.consumed + n, ..self }
    }
}

/// What a call of a decoder owes, given the progress that its rule asks
/// for: the bytes taken are the front of the buffer and are what is handed
/// back; nothing is handed back where nothing was taken; an error is
/// reported as it is.
pub open spec fn delivers<S>(
    progress: Progress<S>,
    before: Seq<u8>,
    after: Seq<u8>,
    result: Result<Option<Chunk>, Error>,
) -> bool {
    &&& progress.consumed <= before.len()
    &&& after == before.skip(progress.consumed as int)
    &&& match progress.error {
        Some(e) => result == Err::<Option<Chunk>, Error>(e),
        None => match result {
            Ok(Some(chunk)) => progress.consumed > 0 && chunk.0@ == before.take(
                progress.consumed as int,
            ),
            Ok(None) => progress.consumed == 0,
            Err(_) => false,
        },
    }
}

/// Body decoding by an announced length.
#[derive(Debug)]
pub struct Length {
    length: usize,
    remaining: usize,
}

impl Length {
    /// The announced length.
    pub closed spec fn announced(&self) -> nat {
        self.length as nat
    }

    /// How many body bytes are still to come.
    pub closed spec fn left(&self) -> nat {
        self.remaining as nat
    }

    /// What a call of [`Length::decode`] does with `left` bytes to come and
    /// `buf` in the buffer: it takes as many body bytes as are there, and
    /// fails where bytes arrive after the body is complete.
    pub open spec fn run(left: nat, buf: Seq<u8>) -> Progress<nat> {
        if buf.len() == 0 {
            Progress::stay(left)
        } else if left == 0 {
            Progress::fail(left, Error::BodyComplete)
        } else if buf.len() <= left {
            Progress { state: (left - buf.len()) as nat, consumed: buf.len(), error: None }
        } else {
            Progress { state: 0, consumed: left, error: None }
        }
    }

    /// A decoder for a body of `length` bytes.
    pub fn new(length: usize) -> (l: Length)
        ensures
            l.announced() == length,
            l.left() == length,
    {
        Length { length: length, remaining: length }
    }

    /// Whether body bytes are still to come.
    pub fn remaining(&self) -> (b: bool)
        ensures
            b == (self.left() > 0),
    {
        self.remaining > 0
    }

    /// The number of body bytes that are still to come.
    pub fn bytes_remaining(&self) -> (n: usize)
        ensures
            n == self.left(),
    {
        self.remaining
    }

    /// Takes body bytes from the front of `buf`.
    pub fn decode(&mut self, buf: &mut EasyBuf) -> (r: Result<Option<Chunk>, Error>)
        ensures
            final(self).announced() == old(self).announced(),
            final(self).left() == Length::run(old(self).left(), easybuf_bytes(*old(buf))).state,
            delivers(
                Length::run(old(self).left(), easybuf_bytes(*old(buf))),
                easybuf_bytes(*old(buf)),
                easybuf_bytes(*final(buf)),
                r,
            ),
    {
        if buf.len() == 0 {
            assert(easybuf_bytes(*buf).skip(0) =~= easybuf_bytes(*buf));
            return Ok(None);
        }
        if self.remaining == 0 {
            assert(easybuf_bytes(*buf).skip(0) =~= easybuf_bytes(*buf));
            return Err(Error::BodyComplete);
        }
        let len = if buf.len() <= self.remaining {
            buf.len()
        } else {
            self.remaining
        };
        self.remaining = self.remaining - len;
        let body = take_front(buf, len);
        Ok(Some(Chunk(body)))
    }
}

/// Where the chunked decoder stands.
#[derive(Clone, Copy, Eq, PartialEq, Debug)]
pub enum ChunkedState {
    /// A size line is expected.
    Header,
    /// This many bytes of the current chunk are to come, and after them the
    /// line end that closes the chunk.
    Body(u64),
    /// The last chunk was read; a trailer is expected.
    Trailer,
    /// The body has ended.
    End,
}

/// Whether `buf` starts with a line end.
pub open spec fn starts_with_crlf(buf: Seq<u8>) -> bool {
    buf.len() >= 2 && buf[0] == CR && buf[1] == LF
}

/// Chunked transfer coding.
#[derive(Debug)]
pub struct Chunked {
    state: ChunkedState,
}

impl Chunked {
    /// The decoder's state.
    pub closed spec fn view_state(&self) -> ChunkedState {
        self.state
    }

    /// The order in which the states follow each other without a byte read.
    pub open spec fn rank(state: ChunkedState) -> nat {
        match state {
            ChunkedState::Header => 3,
            ChunkedState::Body(_) => 2,
            ChunkedState::Trailer => 1,
            ChunkedState::End => 0,
        }
    }

    /// What a call of [`Chunked::decode`] does in `state` with `buf` in the
    /// buffer. It goes on for as long as the buffer holds whole pieces:
    ///
    /// - a size line is taken; a size above zero is followed by the chunk, a
    ///   size of zero by the end of the body where a line end comes next,
    ///   else by a trailer;
    /// - a chunk is taken together with the two bytes that close it; of a
    ///   chunk that is not all there, the body bytes at hand are taken;
    /// - a trailer is taken whole, with the empty line that closes it, and
    ///   ends the body;
    /// - after the end nothing is taken: what follows belongs to the next
    ///   message.
    ///
    /// The call returns where a piece is not all there yet, and fails on a
    /// size line or a trailer that is malformed.
    pub open spec fn run(state: ChunkedState, buf: Seq<u8>) -> Progress<ChunkedState>
        decreases buf.len(), Chunked::rank(state),
    {
        match state {
            ChunkedState::Header => match chunk_size_line(buf) {
                ChunkLine::Complete(i, size) => if i <= buf.len() {
                    let rest = buf.skip(i as int);
                    let closing = Chunked::closing(size, rest);
                    Chunked::run(Chunked::after_size(size, rest), rest.skip(closing as int)).after(
                        (i + closing) as nat,
                    )
                } else {
                    Progress::stay(state)
                },
                ChunkLine::Partial => Progress::stay(state),
                ChunkLine::Invalid => Progress::fail(state, Error::InvalidChunkSize),
            },
            ChunkedState::Body(left) => if buf.len() == 0 {
                Progress::stay(state)
            } else if buf.len() >= left + 2 {
                Chunked::run(ChunkedState::Header, buf.skip(left + 2)).after((left + 2) as nat)
            } else {
                Progress {
                    state: Chunked::after_body(left, buf.len() as usize),
                    consumed: Chunked::body_take(left, buf.len() as usize),
                    error: None,
                }
            },
            ChunkedState::Trailer => match trailer_block(buf, MAX_TRAILER_HEADERS) {
                TrailerBlock::Complete(i) => if i <= buf.len() {
                    Chunked::run(ChunkedState::End, buf.skip(i as int)).after(i as nat)
                } else {
                    Progress::stay(state)
                },
                TrailerBlock::Partial => Progress::stay(state),
                TrailerBlock::Invalid => Progress::fail(state, Error::InvalidTrailer),
            },
            ChunkedState::End => Progress::stay(state),
        }
    }

    /// How many bytes behind a size line that announced `size` belong to
    /// it, with `rest` behind it in the buffer: the line end that closes a
    /// body without a trailer.
    pub open spec fn closing(size: u64, rest: Seq<u8>) -> nat {
        if size == 0 && starts_with_crlf(rest) {
            2
        } else {
            0
        }
    }

    /// The state after a size line that announced `size`, with `rest` behind
    /// it in the buffer.
    pub open spec fn after_size(size: u64, rest: Seq<u8>) -> ChunkedState {
        if size > 0 {
            ChunkedState::Body(size)
        } else if starts_with_crlf(rest) {
            ChunkedState::End
        } else {
            ChunkedState::Trailer
        }
    }

    /// How many bytes a call takes of a chunk of which `left` bytes are to
    /// come, with `have` bytes in the buffer: the rest of the chunk with the
    /// two bytes that close it, or else the body bytes at hand.
    pub open spec fn body_take(left: u64, have: usize) -> nat {
        if have >= left + 2 {
            (left + 2) as nat
        } else if have <= left {
            have as nat
        } else {
            left as nat
        }
    }

    /// The state after a call has taken what [`Chunked::body_take`] says.
    pub open spec fn after_body(left: u64, have: usize) -> ChunkedState {
        if have >= left + 2 {
            ChunkedState::Header
        } else if have <= left {
            ChunkedState::Body((left - have) as u64)
        } else {
            ChunkedState::Body(0)
        }
    }

    /// The state after a size line that announced `size`, with `rest` behind
    /// it in the buffer, and how many bytes of `rest` go with the size line.
    /// The chunk follows a size above zero. After the last chunk a line end
    /// that comes next closes the body and is taken with the size line; else a
    /// trailer is to come.
    pub fn next_after_size(size: u64, rest: &[u8]) -> (r: (ChunkedState, usize))
        ensures
            r.0 == Chunked::after_size(size, rest@),
            r.1 == Chunked::closing(size, rest@),
            r.1 <= rest@.len(),
    {
        if size > 0 {
            (ChunkedState::Body(size), 0)
        } else if rest.len() >= 2 && rest[0] == CR && rest[1] == LF {
            (ChunkedState::End, 2)
        } else {
            (ChunkedState::Trailer, 0)
        }
    }

    /// How a chunk is read of which `left` bytes are to come, with `have`
    /// bytes in the buffer: how many bytes to take, and the state after that.
    pub fn read_of_body(left: u64, have: usize) -> (r: (usize, ChunkedState))
        ensures
            r.0 == Chunked::body_take(left, have),
            r.0 <= have,
            r.1 == Chunked::after_body(left, have),
    {
        if left <= u64::MAX - 2 && have as u64 >= left + 2 {
            ((left + 2) as usize, ChunkedState::Header)
        } else if have as u64 <= left {
            (have, ChunkedState::Body(left - have as u64))
        } else {
            (left as usize, ChunkedState::Body(0))
        }
    }

    /// A decoder at the start of a chunked body.
    pub fn new() -> (c: Chunked)
        ensures
            c.view_state() == ChunkedState::Header,
    {
        Chunked { state: ChunkedState::Header }
    }

    /// Whether the body has not ended yet.
    pub fn remaining(&self) -> (b: bool)
        ensures
            b == !(self.view_state() is End),
    {
        match self.state {
            ChunkedState::End => false,
            _ => true,
        }
    }

    /// The decoder's state.
    pub fn state(&self) -> (s: ChunkedState)
        ensures
            s == self.view_state(),
    {
        self.state
    }

    /// Takes coded body bytes from the front of `buf`, as far as the buffer
    /// holds whole pieces, and hands them back as they are.
    pub fn decode(&mut self, buf: &mut EasyBuf) -> (r: Result<Option<Chunk>, Error>)
        ensures
            final(self).view_state() == Chunked::run(
                old(self).view_state(),
                easybuf_bytes(*old(buf)),
            ).state,
            delivers(
                Chunked::run(old(self).view_state(), easybuf_bytes(*old(buf))),
                easybuf_bytes(*old(buf)),
                easybuf_bytes(*final(buf)),
                r,
            ),
    {
        let ghost before = easybuf_bytes(*buf);
        let ghost goal = Chunked::run(self.state, before);
        let mut taken: Vec<u8> = Vec::new();
        let mut error: Option<Error> = None;
        let mut going = true;
        assert(before.skip(0) =~= before);
        assert(before.take(0) =~= taken@);
        while going
            invariant
                before == easybuf_bytes(*old(buf)),
                goal == Chunked::run(old(self).view_state(), before),
                taken@.len() <= before.len(),
                taken@ == before.take(taken@.len() as int),
                easybuf_bytes(*buf) == before.skip(taken@.len() as int),
                going ==> error is None && goal == Chunked::run(
                    self.state,
                    easybuf_bytes(*buf),
                ).after(taken@.len()),
                !going ==> goal == (Progress {
                    state: self.state,
                    consumed: taken@.len(),
                    error,
                }),
            decreases going as int, easybuf_bytes(*buf).len(), Chunked::rank(self.state),
        {
            let ghost here = easybuf_bytes(*buf);
            let ghost n = taken@.len() as int;
            match self.state {
                ChunkedState::Header => {
                    match read_chunk_line(buf.as_slice()) {
                        ChunkLine::Complete(i, size) => {
                            let mut line = take_front(buf, i);
                            taken.append(&mut line);
                            let (next, closing) = Chunked::next_after_size(size, buf.as_slice());
                            let mut end = take_front(buf, closing);
                            taken.append(&mut end);
                            self.state = next;
                            proof {
                                assert(taken@ =~= before.take(n + i + closing));
                                assert(here.skip(i as int).skip(closing as int) =~= before.skip(
                                    n + i + closing,
                                ));
                            }
                        },
                        ChunkLine::Partial => {
                            going = false;
                        },
                        ChunkLine::Invalid => {
                            error = Some(Error::InvalidChunkSize);
                            going = false;
                        },
                    }
                },
                ChunkedState::Body(left) => {
                    let have = buf.len();
                    if have == 0 {
                        going = false;
                    } else {
                        let (part, next) = Chunked::read_of_body(left, have);
                        let mut piece = take_front(buf, part);
                        taken.append(&mut piece);
                        self.state = next;
                        going = match next {
                            ChunkedState::Header => true,
                            _ => false,
                        };
                        proof {
                            assert(taken@ =~= before.take(n + part));
                            assert(here.skip(part as int) =~= before.skip(n + part));
                        }
                    }
                },
                ChunkedState::Trailer => {
                    match read_trailer(buf.as_slice(), MAX_TRAILER_HEADERS) {
                        TrailerBlock::Complete(i) => {
                            let mut block = take_front(buf, i);
                            taken.append(&mut block);
                            self.state = ChunkedState::End;
                            proof {
                                assert(taken@ =~= before.take(n + i));
                                assert(here.skip(i as int) =~= before.skip(n + i));
                            }
                        },
                        TrailerBlock::Partial => {
                            going = false;
                        },
                        TrailerBlock::Invalid => {
                            error = Some(Error::InvalidTrailer);
                            going = false;
                        },
                    }
                },
                ChunkedState::End => {
                    going = false;
                },
            }
        }
        match error {
            Some(e) => Err(e),
            None => if taken.len() == 0 {
                Ok(None)
            } else {
                Ok(Some(Chunk(taken)))
            },
        }
    }
}


/// A body that lasts until the connection closes.
#[derive(Debug)]
pub struct UntilClose {
    is_closed: bool,
}

impl UntilClose {
    /// Whether the end of the body was seen.
    pub closed spec fn closed(&self) -> bool {
        self.is_closed
    }

    /// What a call of [`UntilClose::decode`] does: everything in the buffer
    /// is body; an empty buffer is the end.
    pub open spec fn run(closed: bool, buf: Seq<u8>) -> Progress<bool> {
        if buf.len() == 0 {
            Progress::stay(true)
        } else {
            Progress { state: closed, consumed: buf.len(), error: None }
        }
    }

    /// A decoder for a body whose end was not seen yet.
    pub fn new() -> (u: UntilClose)
        ensures
            !u.closed(),
    {
        UntilClose { is_closed: false }
    }

    /// Whether the end of the body was not seen yet.
    pub fn remaining(&self) -> (b: bool)
        ensures
            b == !self.closed(),
    {
        self.is_closed == false
    }

    /// Takes all bytes of `buf` as body bytes.
    pub fn decode(&mut self, buf: &mut EasyBuf) -> (r: Result<Option<Chunk>, Error>)
        ensures
            final(self).closed() == UntilClose::run(
                old(self).closed(),
                easybuf_bytes(*old(buf)),
            ).state,
            delivers(
                UntilClose::run(old(self).closed(), easybuf_bytes(*old(buf))),
                easybuf_bytes(*old(buf)),
                easybuf_bytes(*final(buf)),
                r,
            ),
    {
        let len = buf.len();
        if len == 0 {
            self.is_closed = true;
            assert(easybuf_bytes(*buf).skip(0) =~= easybuf_bytes(*buf));
            return Ok(None);
        }
        let body = take_front(buf, len);
        Ok(Some(Chunk(body)))
    }
}

/// How a body is framed and how far it has been read: what a [`BodyCodec`]
/// stands for in contracts.
pub enum Framing {
    /// By an announced length, and of it this many bytes that are still to
    /// come.
    Length(nat, nat),
    /// By the chunked coding, in this state.
    Chunked(ChunkedState),
    /// By the close of the connection, which was or was not seen.
    UntilClose(bool),
}

impl Framing {
    /// Whether the body has not ended yet.
    pub open spec fn unfinished(self) -> bool {
        match self {
            Framing::Length(_, left) => left > 0,
            Framing::Chunked(state) => !(state is End),
            Framing::UntilClose(closed) => !closed,
        }
    }

    /// What a call of `decode` does with `buf` in the buffer: as the decoder
    /// of that framing says.
    pub open spec fn run(self, buf: Seq<u8>) -> Progress<Framing> {
        match self {
            Framing::Length(announced, left) => {
                let p = Length::run(left, buf);
                Progress {
                    state: Framing::Length(announced, p.state),
                    consumed: p.consumed,
                    error: p.error,
                }
            },
            Framing::Chunked(state) => {
                let p = Chunked::run(state, buf);
                Progress { state: Framing::Chunked(p.state), consumed: p.consumed, error: p.error }
            },
            Framing::UntilClose(closed) => {
                let p = UntilClose::run(closed, buf);
                Progress {
                    state: Framing::UntilClose(p.state),
                    consumed: p.consumed,
                    error: p.error,
                }
            },
        }
    }
}

/// The decoder of a body, by the way the body is framed.
#[derive(Debug)]
pub enum BodyCodec {
    /// By an announced length.
    Length(Length),
    /// By the chunked coding.
    Chunked(Chunked),
    /// By the close of the connection.
    UntilClose(UntilClose),
}

impl View for BodyCodec {
    type V = Framing;

    open spec fn view(&self) -> Framing {
        match *self {
            BodyCodec::Length(l) => Framing::Length(l.announced(), l.left()),
            BodyCodec::Chunked(c) => Framing::Chunked(c.view_state()),
            BodyCodec::UntilClose(u) => Framing::UntilClose(u.closed()),
        }
    }
}

impl BodyCodec {
    /// Whether the body has not ended yet.
    pub fn remaining(&self) -> (b: bool)
        ensures
            b == self@.unfinished(),
    {
        match self {
            BodyCodec::Length(l) => l.remaining(),
            BodyCodec::Chunked(c) => c.remaining(),
            BodyCodec::UntilClose(u) => u.remaining(),
        }
    }

    /// Takes body bytes from the front of `buf`.
    pub fn decode(&mut self, buf: &mut EasyBuf) -> (r: Result<Option<Chunk>, Error>)
        ensures
            final(self)@ == old(self)@.run(easybuf_bytes(*old(buf))).state,
            delivers(
                old(self)@.run(easybuf_bytes(*old(buf))),
                easybuf_bytes(*old(buf)),
                easybuf_bytes(*final(buf)),
                r,
            ),
    {
        match self {
            BodyCodec::Length(l) => l.decode(buf),
            BodyCodec::Chunked(c) => c.decode(buf),
            BodyCodec::UntilClose(u) => u.decode(buf),
        }
    }
}

} // verus!
