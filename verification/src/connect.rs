//! Framing of one connection's byte stream. A frame is one protocol
//! message, ended by a carriage return and a line feed.
//!
//! Nothing here touches a socket. The reader holds the bytes that have
//! arrived and are not yet framed, says when it needs more, and is handed
//! what each read of the socket gave. The writer is the handle by which a
//! connection is named when a frame is to be sent to it.

use vstd::prelude::*;
use vstd::string::*;
use vstd::utf8::*;

verus! {

/// The capacity of a connection's receive buffer, in bytes. A message
/// together with its boundary cannot be longer.
pub const BUFFER_SIZE: usize = 512;

/// Why no message could be read from, or written to, a connection.
#[derive(Debug, Clone, Copy, PartialEq, Eq, Hash, Structural)]
pub enum ConnectionError {
    /// The transport failed.
    ConnectionLost,
    /// The peer closed the connection.
    ConnectionClosed,
    /// The buffer filled up before a boundary arrived.
    MessageTooLong,
    /// The bytes of the message are not UTF-8.
    MessageInvalidUtf8,
}

impl ConnectionError {
    /// The name of the error.
    pub open spec fn name(self) -> Seq<char> {
        match self {
            ConnectionError::ConnectionLost => "ConnectionLost"@,
            ConnectionError::ConnectionClosed => "ConnectionClosed"@,
            ConnectionError::MessageTooLong => "MessageTooLong"@,
            ConnectionError::MessageInvalidUtf8 => "MessageInvalidUtf8"@,
        }
    }

    /// The error in words: its name.
    pub fn to_string(&self) -> (text: String)
        ensures
            text@ == self.name(),
    {
        match self {
            ConnectionError::ConnectionLost => "ConnectionLost".to_owned(),
            ConnectionError::ConnectionClosed => "ConnectionClosed".to_owned(),
            ConnectionError::MessageTooLong => "MessageTooLong".to_owned(),
            ConnectionError::MessageInvalidUtf8 => "MessageInvalidUtf8".to_owned(),
        }
    }
}

/// What one read of the socket gave.
#[derive(Debug)]
pub enum ReadOutcome {
    /// The bytes that were read; none at all once the peer has closed.
    Data(Vec<u8>),
    /// The read was interrupted before any byte arrived.
    Interrupted,
    /// The read failed for any other reason.
    Failed,
}

/// What the reader has decided.
#[derive(Debug)]
pub enum ReadStep {
    /// No message is complete yet: read up to this many bytes from the socket
    /// and hand them to [`ConnectionRead::receive`].
    Read(usize),
    /// The attempt to read a message has ended, with the message or in an error.
    Done(Result<String, ConnectionError>),
}

/// A [`ReadStep`] as a mathematical value.
pub ghost enum FrameStep {
    Read(nat),
    Done(Result<Seq<char>, ConnectionError>),
}

impl View for ReadStep {
    type V = FrameStep;

    open spec fn view(&self) -> FrameStep {
        match *self {
            ReadStep::Read(room) => FrameStep::Read(room as nat),
            ReadStep::Done(Ok(message)) => FrameStep::Done(Ok(message@)),
            ReadStep::Done(Err(error)) => FrameStep::Done(Err(error)),
        }
    }
}

/// Whether a boundary stands at index `i` of `bytes`.
pub open spec fn is_crlf_at(bytes: Seq<u8>, i: int) -> bool {
    0 <= i && i + 1 < bytes.len() && bytes[i] == 0x0D && bytes[i + 1] == 0x0A
}

/// Whether the first boundary in `bytes` stands at index `i`.
pub open spec fn is_first_crlf(bytes: Seq<u8>, i: int) -> bool {
    is_crlf_at(bytes, i) && forall|j: int| 0 <= j < i ==> !is_crlf_at(bytes, j)
}

/// The index of the first boundary in `bytes`, if there is one.
pub open spec fn first_crlf(bytes: Seq<u8>) -> Option<int> {
    if exists|i: int| is_first_crlf(bytes, i) {
        Some(choose|i: int| is_first_crlf(bytes, i))
    } else {
        None
    }
}

/// The text of a message whose bytes are `bytes`.
pub open spec fn decode_message(bytes: Seq<u8>) -> Result<Seq<char>, ConnectionError> {
    if valid_utf8(bytes) {
        Ok(decode_utf8(bytes))
    } else {
        Err(ConnectionError::MessageInvalidUtf8)
    }
}

/// What the reader decides when `pending` are the bytes it holds, and the
/// bytes it holds afterwards.
///
/// With a boundary among them, the bytes before the first boundary are the
/// message and the bytes after it stay. Without one, a full buffer is
/// discarded as a message that is too long, and a buffer with room left asks
/// for that many bytes.
pub open spec fn poll(pending: Seq<u8>) -> (FrameStep, Seq<u8>) {
    match first_crlf(pending) {
        Some(end) => (FrameStep::Done(decode_message(pending.take(end))), pending.skip(end + 2)),
        None => if pending.len() >= BUFFER_SIZE {
            (FrameStep::Done(Err(ConnectionError::MessageTooLong)), Seq::empty())
        } else {
            (FrameStep::Read((BUFFER_SIZE - pending.len()) as nat), pending)
        },
    }
}

/// What the reader decides when a read gave `data` while it held `pending`,
/// and the bytes it holds afterwards. A read that gave nothing means that
/// the peer has closed.
pub open spec fn absorb(pending: Seq<u8>, data: Seq<u8>) -> (FrameStep, Seq<u8>) {
    if data.len() == 0 {
        (FrameStep::Done(Err(ConnectionError::ConnectionClosed)), pending)
    } else {
        poll(pending + data)
    }
}

/// How an attempt to read a message goes on from what the reader has just
/// decided, `state`, when the socket's reads give `reads`, one after the
/// other: each read that the reader asks for is handed to it, until it has
/// a result. The outcome is that result, or `None` while the reader still
/// waits after the last of the reads, and the bytes that the reader holds
/// then.
pub open spec fn read_on(state: (FrameStep, Seq<u8>), reads: Seq<Seq<u8>>) -> (
    Option<Result<Seq<char>, ConnectionError>>,
    Seq<u8>,
)
    decreases reads.len(),
{
    match state.0 {
        FrameStep::Done(result) => (Some(result), state.1),
        FrameStep::Read(_) => if reads.len() == 0 {
            (None, state.1)
        } else {
            read_on(absorb(state.1, reads[0]), reads.drop_first())
        },
    }
}

/// How an attempt to read a message ends when the socket's reads give
/// `reads` to a reader that holds `pending`.
pub open spec fn read_through(pending: Seq<u8>, reads: Seq<Seq<u8>>) -> (
    Option<Result<Seq<char>, ConnectionError>>,
    Seq<u8>,
) {
    read_on(poll(pending), reads)
}

/// All the bytes of `reads`, in order.
pub open spec fn concat(reads: Seq<Seq<u8>>) -> Seq<u8>
    decreases reads.len(),
{
    if reads.len() == 0 {
        Seq::empty()
    } else {
        reads[0] + concat(reads.drop_first())
    }
}

/// `String::from_utf8` of std, with the error dropped: the bytes become a
/// string exactly when they are well-formed UTF-8, and the string then holds
/// the characters that they encode.
#[verifier::external_body]
fn string_from_utf8(bytes: Vec<u8>) -> (text: Option<String>)
    ensures
        text is Some <==> valid_utf8(bytes@),
        text matches Some(s) ==> s@ == decode_utf8(bytes@),
{
    String::from_utf8(bytes).ok()
}

/// The read side of a connection: the bytes that have arrived and belong to
/// no message yet.
#[derive(Debug)]
pub struct ConnectionRead {
    socket_addr: String,
    buffer: Vec<u8>,
}

impl ConnectionRead {
    #[verifier::type_invariant]
    spec fn within_capacity(self) -> bool {
        self.buffer@.len() <= BUFFER_SIZE
    }

    /// The bytes that the reader holds.
    pub closed spec fn pending(&self) -> Seq<u8> {
        self.buffer@
    }

    /// The text of the peer's socket address.
    pub closed spec fn addr(&self) -> Seq<char> {
        self.socket_addr@
    }

    /// A reader for the connection from `socket_addr`, holding no bytes.
    pub fn new(socket_addr: String) -> (reader: Self)
        ensures
            reader.pending() == Seq::<u8>::empty(),
            reader.addr() == socket_addr@,
    {
        ConnectionRead { socket_addr, buffer: Vec::new() }
    }

    /// The name under which the connection is known: its socket address.
    pub fn id(&self) -> (id: String)
        ensures
            id@ == self.addr(),
    {
        self.socket_addr.clone()
    }

    /// Finds the first boundary among the bytes held.
    pub fn buffer_crlf(&self) -> (at: Option<usize>)
        ensures
            match at {
                Some(i) => first_crlf(self.pending()) == Some(i as int),
                None => first_crlf(self.pending()) is None,
            },
    {
        let n: usize = self.buffer.len();
        if n < 2 {
            return None;
        }
        let mut i: usize = 0;
        while i < n - 1
            invariant
                2 <= n == self.buffer@.len(),
                i <= n - 1,
                forall|j: int| 0 <= j < i ==> !is_crlf_at(self.buffer@, j),
            decreases n - i,
        {
            if self.buffer[i] == 0x0D && self.buffer[i + 1] == 0x0A {
                assert(is_first_crlf(self.buffer@, i as int));
                return Some(i);
            }
            i += 1;
        }
        None
    }

    /// Begins, or goes on with, the reading of one message: decides from
    /// the bytes held alone.
    pub fn read_message(&mut self) -> (step: ReadStep)
        ensures
            (step@, final(self).pending()) == poll(old(self).pending()),
            final(self).pending().len() <= BUFFER_SIZE,
            final(self).addr() == old(self).addr(),
    {
        proof {
            use_type_invariant(&*self);
        }
        match self.buffer_crlf() {
            Some(end) => {
                let mut bytes: Vec<u8> = Vec::new();
                std::mem::swap(&mut self.buffer, &mut bytes);
                let ghost held = bytes@;
                let rest = bytes.split_off(end + 2);
                bytes.truncate(end);
                assert(bytes@ =~= held.take(end as int));
                self.buffer = rest;
                match string_from_utf8(bytes) {
                    Some(message) => ReadStep::Done(Ok(message)),
                    None => ReadStep::Done(Err(ConnectionError::MessageInvalidUtf8)),
                }
            },
            None => {
                if self.buffer.len() >= BUFFER_SIZE {
                    self.buffer = Vec::new();
                    ReadStep::Done(Err(ConnectionError::MessageTooLong))
                } else {
                    ReadStep::Read(BUFFER_SIZE - self.buffer.len())
                }
            },
        }
    }

    /// Takes what a read of the socket gave and decides how to go on.
    ///
    /// The bytes of a read are those that fit into the room that the last
    /// [`ReadStep::Read`] named.
    pub fn receive(&mut self, outcome: ReadOutcome) -> (step: ReadStep)
        requires
            outcome matches ReadOutcome::Data(data) ==> old(self).pending().len() + data@.len()
                <= BUFFER_SIZE,
        ensures
            (step@, final(self).pending()) == (match outcome {
                ReadOutcome::Data(data) => absorb(old(self).pending(), data@),
                ReadOutcome::Interrupted => poll(old(self).pending()),
                ReadOutcome::Failed => (
                    FrameStep::Done(Err(ConnectionError::ConnectionLost)),
                    old(self).pending(),
                ),
            }),
            final(self).pending().len() <= BUFFER_SIZE,
            final(self).addr() == old(self).addr(),
    {
        proof {
            use_type_invariant(&*self);
        }
        match outcome {
            ReadOutcome::Data(mut data) => {
                if data.len() == 0 {
                    ReadStep::Done(Err(ConnectionError::ConnectionClosed))
                } else {
                    let mut bytes: Vec<u8> = Vec::new();
                    std::mem::swap(&mut self.buffer, &mut bytes);
                    bytes.append(&mut data);
                    self.buffer = bytes;
                    self.read_message()
                }
            },
            ReadOutcome::Interrupted => self.read_message(),
            ReadOutcome::Failed => ReadStep::Done(Err(ConnectionError::ConnectionLost)),
        }
    }
}

/// The write side of a connection: the handle by which the connection is
/// named when a frame is to be written to it. Its view is the text of the
/// peer's socket address.
#[derive(Debug)]
pub struct ConnectionWrite {
    socket_addr: String,
}

impl View for ConnectionWrite {
    type V = Seq<char>;

    closed spec fn view(&self) -> Seq<char> {
        self.socket_addr@
    }
}

impl Clone for ConnectionWrite {
    fn clone(&self) -> (copy: Self)
        ensures
            copy@ == self@,
    {
        ConnectionWrite { socket_addr: self.socket_addr.clone() }
    }
}

/// A frame on its way to a connection.
#[derive(Debug)]
pub struct Outbound {
    /// The connection that the frame is for.
    pub to: ConnectionWrite,
    /// The text to write.
    pub message: String,
}

/// An [`Outbound`] as a mathematical value.
pub ghost struct OutboundView {
    pub to: Seq<char>,
    pub message: Seq<char>,
}

impl View for Outbound {
    type V = OutboundView;

    open spec fn view(&self) -> OutboundView {
        OutboundView { to: self.to@, message: self.message@ }
    }
}

impl DeepView for Outbound {
    type V = OutboundView;

    open spec fn deep_view(&self) -> OutboundView {
        self@
    }
}

impl ConnectionWrite {
    /// The handle of the connection from `socket_addr`.
    pub fn new(socket_addr: String) -> (writer: Self)
        ensures
            writer@ == socket_addr@,
    {
        ConnectionWrite { socket_addr }
    }

    /// The text of the peer's socket address.
    pub fn socket_addr(&self) -> (addr: &str)
        ensures
            addr@ == self@,
    {
        self.socket_addr.as_str()
    }

    /// The name under which the connection is known: its socket address.
    pub fn id(&self) -> (id: String)
        ensures
            id@ == self@,
    {
        self.socket_addr.clone()
    }

    /// Addresses `message` to this connection.
    pub fn write_message(&self, message: &str) -> (frame: Outbound)
        ensures
            frame@ == (OutboundView { to: self@, message: message@ }),
    {
        Outbound { to: self.clone(), message: message.to_owned() }
    }

    /// What the writing of a frame comes to: a write that failed means that
    /// the connection is closed.
    pub fn write_outcome(written: bool) -> (result: Result<(), ConnectionError>)
        ensures
            result == (if written {
                Ok::<(), ConnectionError>(())
            } else {
                Err::<(), ConnectionError>(ConnectionError::ConnectionClosed)
            }),
    {
        if written {
            Ok(())
        } else {
            Err(ConnectionError::ConnectionClosed)
        }
    }
}

/// Whether the reads in `reads` are such as a socket can give to a reader
/// that holds `pending`: each read that the reader comes to ask for brings
/// at least one byte and no more than the room that the reader has then.
pub open spec fn reads_fit(pending: Seq<u8>, reads: Seq<Seq<u8>>) -> bool
    decreases reads.len(),
{
    ||| first_crlf(pending) is Some
    ||| reads.len() == 0
    ||| (0 < reads[0].len() <= BUFFER_SIZE - pending.len() && reads_fit(
        pending + reads[0],
        reads.drop_first(),
    ))
}

/// The first boundary stands at one index only.
pub proof fn lemma_first_crlf_unique(bytes: Seq<u8>, i: int, k: int)
    requires
        is_first_crlf(bytes, i),
        is_first_crlf(bytes, k),
    ensures
        i == k,
        first_crlf(bytes) == Some(i),
{
}

/// The first boundary in some bytes is still the first when more bytes
/// follow them.
pub proof fn lemma_first_crlf_stays(bytes: Seq<u8>, more: Seq<u8>, i: int)
    requires
        is_first_crlf(bytes, i),
    ensures
        is_first_crlf(bytes + more, i),
{
    assert forall|j: int| 0 <= j < i implies !is_crlf_at(bytes + more, j) by {
        assert(!is_crlf_at(bytes, j));
    }
}

/// Reads that bring at least one byte each, and together no more than the
/// room that the reader has, fit.
pub proof fn lemma_short_reads_fit(pending: Seq<u8>, reads: Seq<Seq<u8>>)
    requires
        forall|k: int| 0 <= k < reads.len() ==> (#[trigger] reads[k]).len() > 0,
        pending.len() + concat(reads).len() <= BUFFER_SIZE,
    ensures
        reads_fit(pending, reads),
    decreases reads.len(),
{
    if reads.len() > 0 {
        let rest = reads.drop_first();
        assert(forall|k: int| 0 <= k < rest.len() ==> (#[trigger] rest[k]).len() > 0);
        lemma_short_reads_fit(pending + reads[0], rest);
    }
}

/// The message that the reader hands out does not depend on how the stream
/// was cut into reads: it is what stands before the first boundary of the
/// bytes held and the bytes read, put together. What the reader holds
/// afterwards is a leading part of what followed that boundary.
pub proof fn lemma_message_ignores_read_boundaries(
    pending: Seq<u8>,
    reads: Seq<Seq<u8>>,
    end: int,
)
    requires
        reads_fit(pending, reads),
        first_crlf(pending + concat(reads)) == Some(end),
    ensures
        read_through(pending, reads).0 == Some(
            decode_message((pending + concat(reads)).take(end)),
        ),
        read_through(pending, reads).1.is_prefix_of((pending + concat(reads)).skip(end + 2)),
    decreases reads.len(),
{
    let stream = pending + concat(reads);
    match first_crlf(pending) {
        Some(p) => {
            lemma_first_crlf_stays(pending, concat(reads), p);
            assert(stream.take(end) =~= pending.take(end));
        },
        None => {
            if reads.len() > 0 {
                assert((pending + reads[0]) + concat(reads.drop_first()) =~= stream);
                lemma_message_ignores_read_boundaries(
                    pending + reads[0],
                    reads.drop_first(),
                    end,
                );
            }
        },
    }
}

/// A message of at most 510 bytes is read as the same message however its
/// bytes and those of its boundary are cut into reads, and so as if one
/// read had brought them all. The reader holds nothing afterwards.
pub proof fn lemma_split_reads_same_message(message: Seq<u8>, reads: Seq<Seq<u8>>)
    requires
        message.len() + 2 <= BUFFER_SIZE,
        first_crlf(message + seq![0x0Du8, 0x0Au8]) == Some(message.len() as int),
        forall|k: int| 0 <= k < reads.len() ==> (#[trigger] reads[k]).len() > 0,
        concat(reads) == message + seq![0x0Du8, 0x0Au8],
    ensures
        read_through(Seq::empty(), reads) == (Some(decode_message(message)), Seq::<u8>::empty()),
        read_through(Seq::empty(), seq![message + seq![0x0Du8, 0x0Au8]]) == read_through(
            Seq::empty(),
            reads,
        ),
{
    let stream = message + seq![0x0Du8, 0x0Au8];
    let end = message.len() as int;
    let nothing = Seq::<u8>::empty();
    let once = seq![stream];
    assert(concat(once) =~= stream) by {
        assert(concat(once.drop_first()) =~= Seq::<u8>::empty());
    }
    assert(stream.take(end) =~= message);
    lemma_short_reads_fit(nothing, reads);
    lemma_message_ignores_read_boundaries(nothing, reads, end);
    lemma_short_reads_fit(nothing, once);
    lemma_message_ignores_read_boundaries(nothing, once, end);
}

/// A message that fills the buffer before any boundary has come is refused
/// as too long, and every byte held is dropped with it.
pub proof fn lemma_overlong_message_discarded(pending: Seq<u8>, reads: Seq<Seq<u8>>)
    requires
        forall|k: int| 0 <= k < reads.len() ==> (#[trigger] reads[k]).len() > 0,
        pending.len() + concat(reads).len() == BUFFER_SIZE,
        first_crlf(pending + concat(reads)) is None,
    ensures
        read_through(pending, reads) == (
            Some(Err::<Seq<char>, ConnectionError>(ConnectionError::MessageTooLong)),
            Seq::<u8>::empty(),
        ),
    decreases reads.len(),
{
    let stream = pending + concat(reads);
    if first_crlf(pending) is Some {
        let p = first_crlf(pending).unwrap();
        lemma_first_crlf_stays(pending, concat(reads), p);
    }
    if reads.len() > 0 {
        let rest = reads.drop_first();
        assert(forall|k: int| 0 <= k < rest.len() ==> (#[trigger] rest[k]).len() > 0);
        assert((pending + reads[0]) + concat(rest) =~= stream);
        lemma_overlong_message_discarded(pending + reads[0], rest);
    }
}

/// After a message was refused as too long the reader is as new: what
/// arrives next is read as if the bytes dropped had never come.
pub proof fn lemma_reader_fresh_after_overflow(pending: Seq<u8>, reads: Seq<Seq<u8>>)
    requires
        pending.len() >= BUFFER_SIZE,
        first_crlf(pending) is None,
    ensures
        poll(pending) == (
            FrameStep::Done(Err(ConnectionError::MessageTooLong)),
            Seq::<u8>::empty(),
        ),
        read_through(poll(pending).1, reads) == read_through(Seq::empty(), reads),
{
}

} // verus!
