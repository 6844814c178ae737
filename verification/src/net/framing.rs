//! Length-prefixed frames on the control stream.
//!
//! A frame is a four-byte big-endian length and that many payload bytes; the length does not count
//! itself. At most [`MAX_FRAME_LEN`] payload bytes are accepted in either direction: about four
//! times the largest message, and small enough that the length alone decides before any buffer is
//! made. A stream that ends between two frames was closed; one that ends inside a frame is broken.
//!
//! Reading is a state machine: [`FrameReader`] says how many bytes it wants and takes what arrives,
//! in pieces of any size. Whoever owns the stream does the waiting.
use crate::octets;
use crate::octets::{copy_range, push_be, push_bytes, read_be};
use crate::text;
use vstd::prelude::*;

verus! {

/// The most payload bytes in one frame: 256 KiB.
pub const MAX_FRAME_LEN: u32 = 262144;

/// Length of the length prefix.
pub const PREFIX_LEN: usize = 4;

/// What went wrong on a framed stream.
#[derive(Debug, Clone, PartialEq, Eq)]
pub enum FramingError {
    /// The stream itself failed, with its own message.
    Io(String),
    /// A frame is longer than [`MAX_FRAME_LEN`].
    FrameTooLarge { len: u32 },
    /// The stream ended inside a frame.
    Truncated,
}

impl FramingError {
    /// What the message says.
    pub open spec fn message(self) -> Seq<char> {
        match self {
            FramingError::Io(e) => "I/O error on the framed stream: "@ + e@,
            FramingError::FrameTooLarge { len } => "frame length "@ + text::decimal(len as nat)
                + " exceeds the "@ + text::decimal(MAX_FRAME_LEN as nat) + "-byte cap"@,
            FramingError::Truncated => "stream ended in the middle of a frame"@,
        }
    }

    /// The message of the error.
    pub fn to_string(&self) -> (message: String)
        ensures
            message@ == self.message(),
    {
        match self {
            FramingError::Io(e) => {
                let mut message = String::from_str("I/O error on the framed stream: ");
                message.append(e.as_str());
                message
            },
            FramingError::FrameTooLarge { len } => {
                let mut message = text::around("frame length ", *len as u64, " exceeds the ");
                text::push_decimal(&mut message, MAX_FRAME_LEN as u64);
                message.append("-byte cap");
                message
            },
            FramingError::Truncated => String::from_str("stream ended in the middle of a frame"),
        }
    }
}

/// The bytes of the frame around a payload.
pub open spec fn frame(payload: Seq<u8>) -> Seq<u8> {
    octets::be_bytes(payload.len(), PREFIX_LEN as nat) + payload
}

/// The bytes of several frames, one after the other.
pub open spec fn frames(payloads: Seq<Seq<u8>>) -> Seq<u8>
    decreases payloads.len(),
{
    if payloads.len() == 0 {
        Seq::empty()
    } else {
        frame(payloads[0]) + frames(payloads.drop_first())
    }
}

/// What comes of a step in reading a frame.
pub enum Reading {
    /// The frame is not complete yet.
    More,
    /// A complete frame with this payload.
    Frame(Seq<u8>),
    /// The stream ended between two frames.
    Closed,
    /// The length prefix claims this many bytes, which is too many.
    TooLarge(u32),
    /// The stream ended inside a frame.
    Truncated,
}

/// The length that the first bytes of a frame claim.
pub open spec fn claimed(bytes: Seq<u8>) -> nat {
    octets::be_value(bytes.take(PREFIX_LEN as int))
}

/// The bytes are the beginning of an acceptable frame, and not all of it.
pub open spec fn in_progress(got: Seq<u8>) -> bool {
    got.len() < PREFIX_LEN || (claimed(got) <= MAX_FRAME_LEN && got.len() < PREFIX_LEN + claimed(
        got,
    ))
}

/// What comes of the bytes `chunk`, none at the end of the stream, after the bytes `got`.
pub open spec fn step(got: Seq<u8>, chunk: Seq<u8>) -> Reading {
    let all = got + chunk;
    if chunk.len() == 0 {
        if got.len() == 0 {
            Reading::Closed
        } else {
            Reading::Truncated
        }
    } else if all.len() < PREFIX_LEN {
        Reading::More
    } else if claimed(all) > MAX_FRAME_LEN {
        Reading::TooLarge(claimed(all) as u32)
    } else if all.len() < PREFIX_LEN + claimed(all) {
        Reading::More
    } else {
        Reading::Frame(all.subrange(PREFIX_LEN as int, PREFIX_LEN + claimed(all)))
    }
}

/// What is read from a stream that holds `stream` and then ends.
pub open spec fn first_frame(stream: Seq<u8>) -> Reading {
    if stream.len() == 0 {
        Reading::Closed
    } else if stream.len() < PREFIX_LEN {
        Reading::Truncated
    } else if claimed(stream) > MAX_FRAME_LEN {
        Reading::TooLarge(claimed(stream) as u32)
    } else if stream.len() < PREFIX_LEN + claimed(stream) {
        Reading::Truncated
    } else {
        Reading::Frame(stream.subrange(PREFIX_LEN as int, PREFIX_LEN + claimed(stream)))
    }
}

/// How many bytes of the stream that reading takes. Of a frame that is too large, only the prefix.
pub open spec fn taken(stream: Seq<u8>) -> nat {
    match first_frame(stream) {
        Reading::Frame(payload) => PREFIX_LEN as nat + payload.len(),
        Reading::TooLarge(_) => PREFIX_LEN as nat,
        _ => stream.len(),
    }
}

/// How a result of [`read_frame`] is seen.
pub open spec fn outcome(r: Result<Option<Vec<u8>>, FramingError>) -> Reading {
    match r {
        Ok(Some(payload)) => Reading::Frame(payload@),
        Ok(None) => Reading::Closed,
        Err(FramingError::FrameTooLarge { len }) => Reading::TooLarge(len),
        Err(_) => Reading::Truncated,
    }
}

/// Appends the frame around `payload` to `out`, or leaves `out` as it is where the payload is too
/// long.
pub fn write_frame(out: &mut Vec<u8>, payload: &[u8]) -> (r: Result<(), FramingError>)
    ensures
        match r {
            Ok(_) => payload@.len() <= MAX_FRAME_LEN && final(out)@ == old(out)@ + frame(payload@),
            Err(e) => {
                &&& payload@.len() > MAX_FRAME_LEN
                &&& final(out)@ == old(out)@
                &&& e == FramingError::FrameTooLarge {
                    len: if payload@.len() > u32::MAX {
                        u32::MAX
                    } else {
                        payload@.len() as u32
                    },
                }
            },
        },
{
    let total: usize = payload.len();
    if total > u32::MAX as usize {
        return Err(FramingError::FrameTooLarge { len: u32::MAX });
    }
    let len: u32 = total as u32;
    if len > MAX_FRAME_LEN {
        return Err(FramingError::FrameTooLarge { len });
    }
    push_be(out, len as u64, 4);
    push_bytes(out, payload);
    assert(out@ =~= old(out)@ + frame(payload@));
    Ok(())
}

/// What to do after a piece of a frame has arrived.
#[derive(Debug, Clone, PartialEq, Eq)]
pub enum FrameStep {
    /// Read on.
    More,
    /// The payload of a complete frame. The reader is ready for the next one.
    Frame(Vec<u8>),
    /// The peer closed the stream.
    Closed,
}

/// The part of a frame that has arrived.
pub struct FrameReader {
    got: Vec<u8>,
}

impl View for FrameReader {
    type V = Seq<u8>;

    closed spec fn view(&self) -> Seq<u8> {
        self.got@
    }
}

impl FrameReader {
    /// What has arrived is less than a frame.
    pub open spec fn wf(self) -> bool {
        in_progress(self@)
    }

    /// A reader between two frames.
    pub fn new() -> (reader: FrameReader)
        ensures
            reader@ == Seq::<u8>::empty(),
            reader.wf(),
    {
        FrameReader { got: Vec::new() }
    }

    /// How many bytes to read next, at most. Between two frames it is one, so that the end of the
    /// stream there is told apart from its end inside a frame.
    pub fn wanted(&self) -> (n: usize)
        requires
            self.wf(),
        ensures
            n >= 1,
            n == if self@.len() == 0 {
                1
            } else if self@.len() < PREFIX_LEN {
                PREFIX_LEN - self@.len()
            } else {
                PREFIX_LEN + claimed(self@) - self@.len()
            },
    {
        let have: usize = self.got.len();
        if have == 0 {
            1
        } else if have < PREFIX_LEN {
            PREFIX_LEN - have
        } else {
            assert(self.got@.subrange(0, 4) =~= self.got@.take(4));
            let claim: u64 = read_be(self.got.as_slice(), 0, PREFIX_LEN);
            PREFIX_LEN + claim as usize - have
        }
    }

    /// Takes the bytes that a read gave, at most as many as were wanted; none at the end of the
    /// stream.
    pub fn advance(&mut self, chunk: &[u8]) -> (r: Result<FrameStep, FramingError>)
        requires
            old(self).wf(),
            old(self)@.len() < PREFIX_LEN ==> old(self)@.len() + chunk@.len() <= PREFIX_LEN,
            old(self)@.len() >= PREFIX_LEN ==> old(self)@.len() + chunk@.len() <= PREFIX_LEN
                + claimed(old(self)@),
        ensures
            match r {
                Ok(FrameStep::More) => {
                    &&& step(old(self)@, chunk@) is More
                    &&& final(self)@ == old(self)@ + chunk@
                    &&& final(self).wf()
                },
                Ok(FrameStep::Frame(payload)) => {
                    &&& step(old(self)@, chunk@) == Reading::Frame(payload@)
                    &&& old(self)@ + chunk@ == frame(payload@)
                    &&& final(self)@ == Seq::<u8>::empty()
                    &&& final(self).wf()
                },
                Ok(FrameStep::Closed) => {
                    &&& step(old(self)@, chunk@) is Closed
                    &&& final(self)@ == Seq::<u8>::empty()
                    &&& final(self).wf()
                },
                Err(FramingError::FrameTooLarge { len }) => step(old(self)@, chunk@)
                    == Reading::TooLarge(len),
                Err(FramingError::Truncated) => step(old(self)@, chunk@) is Truncated,
                Err(FramingError::Io(_)) => false,
            },
    {
        let before: usize = self.got.len();
        if chunk.len() == 0 {
            return if before == 0 {
                Ok(FrameStep::Closed)
            } else {
                Err(FramingError::Truncated)
            };
        }
        push_bytes(&mut self.got, chunk);
        let have: usize = self.got.len();
        if have < PREFIX_LEN {
            return Ok(FrameStep::More);
        }
        let ghost all = old(self)@ + chunk@;
        assert(self.got@ == all);
        assert(all.subrange(0, 4) =~= all.take(4));
        proof {
            octets::lemma_be_limits();
            if before >= PREFIX_LEN {
                assert(all.take(4) =~= old(self)@.take(4));
            }
        }
        let claim: u64 = read_be(self.got.as_slice(), 0, PREFIX_LEN);
        if claim > MAX_FRAME_LEN as u64 {
            return Err(FramingError::FrameTooLarge { len: claim as u32 });
        }
        let whole: usize = PREFIX_LEN + claim as usize;
        if have < whole {
            return Ok(FrameStep::More);
        }
        let payload = copy_range(self.got.as_slice(), PREFIX_LEN, whole);
        proof {
            octets::lemma_be_digits_round_trip(all.take(4));
            assert(all =~= all.take(4) + payload@);
        }
        self.got = Vec::new();
        Ok(FrameStep::Frame(payload))
    }
}

/// A stream whose bytes are all there and arrive at most so many at a time.
pub struct ByteStream {
    bytes: Vec<u8>,
    at: usize,
    per_read: usize,
}

impl View for ByteStream {
    type V = Seq<u8>;

    /// The bytes that have not been read.
    closed spec fn view(&self) -> Seq<u8> {
        self.bytes@.skip(self.at as int)
    }
}

impl ByteStream {
    /// Something arrives as long as something is left.
    pub closed spec fn wf(self) -> bool {
        self.at <= self.bytes@.len() && self.per_read >= 1
    }

    /// A stream of `bytes`, at most `per_read` at a time.
    pub fn new(bytes: Vec<u8>, per_read: usize) -> (stream: ByteStream)
        requires
            per_read >= 1,
        ensures
            stream@ == bytes@,
            stream.wf(),
    {
        let stream = ByteStream { bytes, at: 0, per_read };
        assert(stream@ =~= bytes@);
        stream
    }

    /// Reads between one and `want` bytes, or none at the end of the stream.
    pub fn read(&mut self, want: usize) -> (chunk: Vec<u8>)
        requires
            old(self).wf(),
            want >= 1,
        ensures
            final(self).wf(),
            chunk@ + final(self)@ == old(self)@,
            chunk@.len() <= want,
            chunk@.len() == 0 <==> old(self)@.len() == 0,
    {
        let left: usize = self.bytes.len() - self.at;
        let mut n: usize = want;
        if n > left {
            n = left;
        }
        if n > self.per_read {
            n = self.per_read;
        }
        let chunk = copy_range(self.bytes.as_slice(), self.at, self.at + n);
        self.at = self.at + n;
        assert(chunk@ + self@ =~= old(self)@);
        chunk
    }
}

/// Reads one frame: its payload, or `None` where the stream ends before it. How the bytes arrive
/// makes no difference.
pub fn read_frame(stream: &mut ByteStream) -> (r: Result<Option<Vec<u8>>, FramingError>)
    requires
        old(stream).wf(),
    ensures
        final(stream).wf(),
        outcome(r) == first_frame(old(stream)@),
        !(r matches Err(FramingError::Io(_))),
        final(stream)@ == old(stream)@.skip(taken(old(stream)@) as int),
{
    let ghost all = stream@;
    let mut reader = FrameReader::new();
    assert(reader@ + stream@ =~= all);
    loop
        invariant
            stream.wf(),
            reader.wf(),
            reader@ + stream@ == all,
            all == old(stream)@,
        decreases stream@.len(),
    {
        let ghost got = reader@;
        let want: usize = reader.wanted();
        let chunk = stream.read(want);
        let ghost now = got + chunk@;
        proof {
            assert(now + stream@ =~= all);
            assert(stream@ =~= all.skip(now.len() as int));
            if now.len() >= PREFIX_LEN {
                assert(now.take(4) =~= all.take(4));
            }
            if got.len() >= PREFIX_LEN {
                assert(got.take(4) =~= all.take(4));
            }
            octets::lemma_be_value_bound(all.take(4));
            octets::lemma_be_limits();
        }
        match reader.advance(chunk.as_slice()) {
            Ok(FrameStep::More) => {},
            Ok(FrameStep::Frame(payload)) => {
                assert(all.subrange(PREFIX_LEN as int, PREFIX_LEN + claimed(all)) =~= payload@);
                return Ok(Some(payload));
            },
            Ok(FrameStep::Closed) => {
                assert(all =~= Seq::<u8>::empty());
                return Ok(None);
            },
            Err(e) => {
                assert(chunk@.len() == 0 ==> now =~= all);
                return Err(e);
            },
        }
    }
}

/// A frame that was written is read back, whatever follows it on the stream.
pub proof fn law_frame_round_trip(payload: Seq<u8>, rest: Seq<u8>)
    requires
        payload.len() <= MAX_FRAME_LEN,
    ensures
        first_frame(frame(payload) + rest) == Reading::Frame(payload),
        (frame(payload) + rest).skip(taken(frame(payload) + rest) as int) == rest,
{
    octets::lemma_be_limits();
    octets::lemma_be_round_trip(payload.len(), PREFIX_LEN as nat);
    let stream = frame(payload) + rest;
    assert(stream.take(4) =~= octets::be_bytes(payload.len(), PREFIX_LEN as nat));
    assert(stream.subrange(4, 4 + payload.len() as int) =~= payload);
    assert(stream.skip(taken(stream) as int) =~= rest);
}

/// The payloads of the frames on a stream, up to the first that cannot be read.
pub open spec fn read_all(stream: Seq<u8>) -> Seq<Seq<u8>>
    decreases stream.len(),
{
    match first_frame(stream) {
        Reading::Frame(payload) => seq![payload] + read_all(stream.skip(taken(stream) as int)),
        _ => Seq::empty(),
    }
}

/// Frames that were written one after the other are read back in that order, and nothing else is.
pub proof fn law_frames_in_sequence(payloads: Seq<Seq<u8>>)
    requires
        forall|i: int| 0 <= i < payloads.len() ==> (#[trigger] payloads[i]).len() <= MAX_FRAME_LEN,
    ensures
        read_all(frames(payloads)) == payloads,
    decreases payloads.len(),
{
    if payloads.len() > 0 {
        let rest = payloads.drop_first();
        assert forall|i: int| 0 <= i < rest.len() implies (#[trigger] rest[i]).len()
            <= MAX_FRAME_LEN by {
            assert(payloads[i + 1].len() <= MAX_FRAME_LEN);
        }
        law_frames_in_sequence(rest);
        law_frame_round_trip(payloads[0], frames(rest));
        assert(seq![payloads[0]] + rest =~= payloads);
    } else {
        assert(payloads =~= Seq::empty());
    }
}

/// A stream that ends inside a frame is never taken for one that was closed.
pub proof fn law_truncation_is_seen(payload: Seq<u8>, cut: int)
    requires
        payload.len() <= MAX_FRAME_LEN,
        0 < cut < frame(payload).len(),
    ensures
        first_frame(frame(payload).take(cut)) is Truncated,
{
    octets::lemma_be_limits();
    octets::lemma_be_round_trip(payload.len(), PREFIX_LEN as nat);
    let whole = frame(payload);
    if cut >= PREFIX_LEN {
        assert(whole.take(cut).take(4) =~= octets::be_bytes(payload.len(), PREFIX_LEN as nat));
    }
}

/// A frame is four bytes of length, the most significant first, and then the payload.
pub proof fn law_frame_layout(payload: Seq<u8>)
    requires
        payload.len() <= u32::MAX,
    ensures
        frame(payload).len() == 4 + payload.len(),
        0x100_0000 * frame(payload)[0] + 0x1_0000 * frame(payload)[1] + 0x100 * frame(payload)[2]
            + frame(payload)[3] == payload.len(),
        frame(payload).skip(4) == payload,
{
    octets::law_most_significant_first(payload.len());
    assert(frame(payload).skip(4) =~= payload);
}

/// What is read first from a stream: nothing where it is empty, the payload of its first frame
/// where that is all there and holds no more than 256 KiB, and otherwise what is wrong with it. A
/// length that is too large is seen before the payload is.
pub proof fn law_what_is_read_first(stream: Seq<u8>)
    ensures
        match first_frame(stream) {
            Reading::Closed => stream.len() == 0,
            Reading::Truncated => 0 < stream.len() < 4 || (stream.len() >= 4 && stream.len() - 4
                < claimed(stream) <= 262144),
            Reading::TooLarge(len) => stream.len() >= 4 && claimed(stream) == len && len > 262144,
            Reading::Frame(payload) => payload.len() <= 262144 && frame(payload).is_prefix_of(
                stream,
            ),
            Reading::More => false,
        },
        stream.len() >= 4 ==> claimed(stream) == 0x100_0000 * stream[0] + 0x1_0000 * stream[1]
            + 0x100 * stream[2] + stream[3],
{
    if stream.len() >= 4 {
        let head = stream.take(4);
        reveal_with_fuel(octets::be_value, 5);
        octets::lemma_be_limits();
        octets::lemma_be_digits_round_trip(head);
        assert(octets::be_value(head) == 0x100_0000 * stream[0] + 0x1_0000 * stream[1] + 0x100
            * stream[2] + stream[3]);
        if let Reading::Frame(payload) = first_frame(stream) {
            assert(frame(payload) =~= stream.take(4 + payload.len() as int));
        }
    }
}

/// Every failure has a message of its own.
pub proof fn law_failures_are_named(e: FramingError)
    ensures
        e.message() == match e {
            FramingError::Io(e) => "I/O error on the framed stream: "@ + e@,
            FramingError::FrameTooLarge { len } => "frame length "@ + text::decimal(len as nat)
                + " exceeds the "@ + text::decimal(262144) + "-byte cap"@,
            FramingError::Truncated => "stream ended in the middle of a frame"@,
        },
{
}

/// How much of the stream is taken: the whole frame, of one that is too large the four bytes of its
/// length, and otherwise all there is.
pub proof fn law_what_is_taken(stream: Seq<u8>)
    ensures
        match first_frame(stream) {
            Reading::Frame(payload) => taken(stream) == 4 + payload.len(),
            Reading::TooLarge(_) => taken(stream) == 4,
            _ => taken(stream) == stream.len(),
        },
{
}

/// What comes of a piece is what would be read from a stream that holds what has arrived by then,
/// but that more may follow. Only the end of the stream, a piece of no bytes, tells a frame that
/// was cut off.
pub proof fn law_piece_by_piece(got: Seq<u8>, chunk: Seq<u8>)
    requires
        in_progress(got),
    ensures
        chunk.len() == 0 ==> step(got, chunk) == first_frame(got),
        chunk.len() > 0 && !(first_frame(got + chunk) is Truncated) ==> step(got, chunk)
            == first_frame(got + chunk),
        chunk.len() > 0 && first_frame(got + chunk) is Truncated ==> step(got, chunk) is More,
{
}

} // verus!
