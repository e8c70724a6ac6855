//! The UART transport: bytes that arrive one at a time are assembled into
//! control messages and console input, and outgoing control messages are
//! framed for sending.
//!
//! A frame is a type byte ([`CONTROL_MESSAGE_SLUG`] or [`CONSOLE_INPUT_SLUG`]),
//! then the length of the body as a protobuf length delimiter (LEB128), then
//! the body.

use vstd::prelude::*;
use crate::fifo::{Fifo, FIFO_CAPACITY};
use crate::varint::{
    decode_length_delimiter, decoded_length_delimiter, encode_length_delimiter, leb128, leb128_len,
    lemma_delimiter_rest, lemma_delimiter_round_trip, lemma_leb128_len, length_delimiter_len,
};

verus! {

/// Type byte of a frame that carries a control message.
pub const CONTROL_MESSAGE_SLUG: u8 = 0x80;

/// Type byte of a frame that carries console input.
pub const CONSOLE_INPUT_SLUG: u8 = 0xC0;

/// The largest outgoing frame, type byte excluded.
pub const TX_BUF_CAPACITY: usize = 256;

/// Frames an encoded control message for sending: the type byte, the length
/// delimiter, then the message.
pub fn frame_control_message(encoded: &[u8]) -> (r: Vec<u8>)
    requires
        encoded@.len() + leb128_len(encoded@.len()) <= TX_BUF_CAPACITY,
    ensures
        r@ == seq![CONTROL_MESSAGE_SLUG] + leb128(encoded@.len()) + encoded@,
{
    let m_len = encoded.len();
    let len_len = length_delimiter_len(m_len);
    let len = m_len + len_len;
    let delimiter = encode_length_delimiter(m_len);
    proof {
        lemma_leb128_len(m_len as nat);
    }
    let mut frame: Vec<u8> = Vec::new();
    frame.push(CONTROL_MESSAGE_SLUG);
    let mut i: usize = 0;
    while i < len
        invariant
            len == m_len + len_len,
            len_len == delimiter@.len(),
            m_len == encoded@.len(),
            0 <= i <= len,
            frame@ == seq![CONTROL_MESSAGE_SLUG] + (delimiter@ + encoded@).take(i as int),
        decreases len - i,
    {
        if i < len_len {
            frame.push(delimiter[i]);
        } else {
            frame.push(encoded[i - len_len]);
        }
        i += 1;
        assert(frame@ =~= seq![CONTROL_MESSAGE_SLUG] + (delimiter@ + encoded@).take(i as int));
    }
    assert(frame@ =~= seq![CONTROL_MESSAGE_SLUG] + leb128(encoded@.len()) + encoded@);
    frame
}


/// Where the receiver is in the frame it is assembling.
#[derive(Debug, Copy, Clone, PartialEq, Eq, Structural)]
pub enum RxState {
    WaitingForMessageType,
    ControlMessageLengthUnknown,
    ConsoleInputLengthUnknown,
    /// This many bytes of a control message are still to come.
    ReadingControlMessage(u16),
    /// This many bytes of console input are still to come.
    ReadingConsoleInput(u16),
}

/// What a received byte completed.
#[derive(Debug, Clone, PartialEq, Eq)]
pub enum RxEvent {
    /// The frame is not complete yet.
    Incomplete,
    /// The body of a control message.
    ControlMessage(Vec<u8>),
    /// The body of a console-input frame.
    ConsoleInput(Vec<u8>),
}

/// Why a receiver cannot take a byte.
#[derive(Debug, Copy, Clone, PartialEq, Eq, Structural)]
pub enum RxFault {
    /// A frame would start with a type byte that is neither slug.
    UnknownMessageType(u8),
    /// The receive buffer has no room for the byte.
    BufferFull,
    /// The announced body would be longer than the receive buffer.
    MessageTooLong(usize),
    /// A body of length zero was announced, and no byte can follow it.
    NoBodyExpected,
}

/// Whether frames in state `s` carry control messages (rather than console input).
pub open spec fn carries_control(s: RxState) -> bool {
    s == RxState::ControlMessageLengthUnknown || s is ReadingControlMessage
}

pub open spec fn is_length_unknown(s: RxState) -> bool {
    s == RxState::ControlMessageLengthUnknown || s == RxState::ConsoleInputLengthUnknown
}

/// Reading the body of a control message (or of console input) with `n` bytes to go.
pub open spec fn reading(control: bool, n: u16) -> RxState {
    if control {
        RxState::ReadingControlMessage(n)
    } else {
        RxState::ReadingConsoleInput(n)
    }
}

/// The kind (control message or not) and body of the frame that an event
/// completes, if any.
pub open spec fn completed_frame(e: RxEvent) -> Option<(bool, Seq<u8>)> {
    match e {
        RxEvent::Incomplete => None,
        RxEvent::ControlMessage(v) => Some((true, v@)),
        RxEvent::ConsoleInput(v) => Some((false, v@)),
    }
}

/// Why a receiver in state `s` holding `buf` cannot take `c`, if it cannot:
/// an unknown type byte, no room in the buffer, a length delimiter that
/// announces more than the buffer holds, or a byte after an announced empty
/// body.
pub open spec fn rx_fault(s: RxState, buf: Seq<u8>, c: u8) -> Option<RxFault> {
    match s {
        RxState::WaitingForMessageType => {
            if c == CONTROL_MESSAGE_SLUG || c == CONSOLE_INPUT_SLUG {
                None
            } else {
                Some(RxFault::UnknownMessageType(c))
            }
        },
        RxState::ControlMessageLengthUnknown | RxState::ConsoleInputLengthUnknown => {
            if buf.len() >= FIFO_CAPACITY {
                Some(RxFault::BufferFull)
            } else {
                match decoded_length_delimiter(buf.push(c)) {
                    Some((len, _)) => if len > FIFO_CAPACITY {
                        Some(RxFault::MessageTooLong(len))
                    } else {
                        None
                    },
                    None => None,
                }
            }
        },
        RxState::ReadingControlMessage(n) | RxState::ReadingConsoleInput(n) => {
            if n == 0 {
                Some(RxFault::NoBodyExpected)
            } else if buf.len() >= FIFO_CAPACITY {
                Some(RxFault::BufferFull)
            } else {
                None
            }
        },
    }
}

/// What one step of a receiver completes, its state afterwards and its
/// buffer afterwards.
pub type RxStep = (Option<(bool, Seq<u8>)>, RxState, Seq<u8>);

/// The step taken when a receiver in state `s`, whose length is still
/// unknown, holds `buf` and the decoder made `decoded` of it: without a
/// complete delimiter nothing changes; otherwise the delimiter's bytes leave
/// the buffer and that many body bytes are awaited.
pub open spec fn after_delimiter(s: RxState, buf: Seq<u8>, decoded: Option<(usize, usize)>) -> RxStep {
    match decoded {
        None => (None, s, buf),
        Some((len, rest)) => (None, reading(carries_control(s), len as u16), buf.skip(buf.len() - rest)),
    }
}

/// The step taken when a receiver in state `s` that holds `buf` takes `c`
/// (a byte that [`rx_fault`] does not refuse).
pub open spec fn rx_next(s: RxState, buf: Seq<u8>, c: u8) -> RxStep {
    match s {
        RxState::WaitingForMessageType => {
            if c == CONTROL_MESSAGE_SLUG {
                (None, RxState::ControlMessageLengthUnknown, buf)
            } else {
                (None, RxState::ConsoleInputLengthUnknown, buf)
            }
        },
        RxState::ControlMessageLengthUnknown | RxState::ConsoleInputLengthUnknown => {
            after_delimiter(s, buf.push(c), decoded_length_delimiter(buf.push(c)))
        },
        RxState::ReadingControlMessage(n) | RxState::ReadingConsoleInput(n) => {
            if n == 1 {
                (Some((carries_control(s), buf.push(c))), RxState::WaitingForMessageType, Seq::empty())
            } else {
                (None, reading(carries_control(s), (n - 1) as u16), buf.push(c))
            }
        },
    }
}

/// Feeding `bytes` one at a time to a receiver in state `s` holding `buf`:
/// what each byte completes, the state and buffer at the end, and whether
/// every byte was taken without a fault.
pub open spec fn rx_run(s: RxState, buf: Seq<u8>, bytes: Seq<u8>) -> (
    Seq<Option<(bool, Seq<u8>)>>,
    RxState,
    Seq<u8>,
    bool,
)
    decreases bytes.len(),
{
    if bytes.len() == 0 {
        (Seq::empty(), s, buf, true)
    } else {
        let step = rx_next(s, buf, bytes[0]);
        let rest = rx_run(step.1, step.2, bytes.drop_first());
        (
            seq![step.0] + rest.0,
            rest.1,
            rest.2,
            rx_fault(s, buf, bytes[0]) is None && rest.3,
        )
    }
}

/// `n` steps of which all but the last complete nothing and the last
/// completes a frame of the given kind (`true` for a control message) with
/// body `m`.
pub open spec fn received_results(n: nat, control: bool, m: Seq<u8>) -> Seq<Option<(bool, Seq<u8>)>> {
    Seq::new(
        n,
        |i: int|
            if i == n - 1 {
                Some((control, m))
            } else {
                None
            },
    )
}

/// `n` steps of which all but the last complete nothing and the last
/// completes the control message `m`.
pub open spec fn frame_results(n: nat, m: Seq<u8>) -> Seq<Option<(bool, Seq<u8>)>> {
    received_results(n, true, m)
}

/// The type byte of a frame of the given kind.
pub open spec fn slug(control: bool) -> u8 {
    if control {
        CONTROL_MESSAGE_SLUG
    } else {
        CONSOLE_INPUT_SLUG
    }
}

/// The state in which the length of a frame of the given kind is read.
pub open spec fn length_unknown(control: bool) -> RxState {
    if control {
        RxState::ControlMessageLengthUnknown
    } else {
        RxState::ConsoleInputLengthUnknown
    }
}

/// While a body is read, every byte is taken as long as the buffer has
/// room, whatever the kind of frame; only an announced empty body takes no
/// byte.
pub proof fn law_body_bytes_accepted(control: bool, n: u16, buf: Seq<u8>, c: u8)
    requires
        buf.len() < FIFO_CAPACITY,
    ensures
        (rx_fault(reading(control, n), buf, c) is None) <==> n >= 1,
        n >= 1 ==> rx_next(reading(control, n), buf, c).2 == (if n == 1 {
            Seq::<u8>::empty()
        } else {
            buf.push(c)
        }),
        n == 1 ==> rx_next(reading(control, n), buf, c).0 == Some((control, buf.push(c))),
        n > 1 ==> rx_next(reading(control, n), buf, c).0 is None && rx_next(
            reading(control, n),
            buf,
            c,
        ).1 == reading(control, (n - 1) as u16),
{
}

/// Reading the last `n` bytes of a body `m` of the given kind.
proof fn lemma_body_received(m: Seq<u8>, n: nat, control: bool)
    requires
        1 <= n <= m.len() < FIFO_CAPACITY,
    ensures
        rx_run(reading(control, n as u16), m.take(m.len() - n), m.skip(m.len() - n)) == (
            received_results(n, control, m),
            RxState::WaitingForMessageType,
            Seq::<u8>::empty(),
            true,
        ),
    decreases n,
{
    let len = m.len() as int;
    let bytes = m.skip(len - n);
    let buf = m.take(len - n);
    let s = reading(control, n as u16);
    assert(bytes[0] == m[len - n]);
    assert(buf.push(m[len - n]) =~= m.take(len - n + 1));
    assert(buf.len() < FIFO_CAPACITY);
    assert(carries_control(s) == control);
    assert(rx_fault(s, buf, bytes[0]) is None);
    let step = rx_next(s, buf, bytes[0]);
    let rest = rx_run(step.1, step.2, bytes.drop_first());
    assert(rx_run(s, buf, bytes) == (seq![step.0] + rest.0, rest.1, rest.2, rest.3));
    if n == 1 {
        assert(m.take(len - n + 1) =~= m);
        assert(bytes.drop_first() =~= Seq::<u8>::empty());
        assert(seq![Some((control, m))] + Seq::empty() =~= received_results(1, control, m));
    } else {
        assert(step == (
            None::<(bool, Seq<u8>)>,
            reading(control, (n - 1) as u16),
            m.take(len - (n - 1)),
        ));
        assert(bytes.drop_first() =~= m.skip(len - (n - 1)));
        lemma_body_received(m, (n - 1) as nat, control);
        assert(seq![None::<(bool, Seq<u8>)>] + received_results((n - 1) as nat, control, m)
            =~= received_results(n, control, m));
    }
}

/// Reading a frame of the given kind from its delimiter byte `j` on.
proof fn lemma_delimiter_received(m: Seq<u8>, j: nat, control: bool)
    requires
        1 <= m.len(),
        m.len() + leb128_len(m.len()) <= TX_BUF_CAPACITY,
        j < leb128_len(m.len()),
    ensures
        ({
            let d = leb128(m.len());
            rx_run(length_unknown(control), d.take(j as int), d.skip(j as int) + m) == (
                received_results((d.len() - j + m.len()) as nat, control, m),
                RxState::WaitingForMessageType,
                Seq::<u8>::empty(),
                true,
            )
        }),
    decreases leb128_len(m.len()) - j,
{
    let d = leb128(m.len());
    lemma_leb128_len(m.len());
    lemma_delimiter_round_trip(m.len() as usize);
    let k = d.len() as int;
    let bytes = d.skip(j as int) + m;
    let buf = d.take(j as int);
    let s = length_unknown(control);
    assert(carries_control(s) == control);
    assert(bytes[0] == d[j as int]);
    assert(buf.push(d[j as int]) =~= d.take(j + 1int));
    assert(buf.len() < FIFO_CAPACITY);
    let step = rx_next(s, buf, bytes[0]);
    let rest = rx_run(step.1, step.2, bytes.drop_first());
    assert(rx_run(s, buf, bytes) == (
        seq![step.0] + rest.0,
        rest.1,
        rest.2,
        rx_fault(s, buf, bytes[0]) is None && rest.3,
    ));
    if j + 1 < k {
        assert(decoded_length_delimiter(d.take(j + 1int)) is None);
        assert(step == (None::<(bool, Seq<u8>)>, s, d.take(j + 1int)));
        assert(bytes.drop_first() =~= d.skip(j + 1int) + m);
        lemma_delimiter_received(m, j + 1, control);
        assert(seq![None::<(bool, Seq<u8>)>] + received_results(
            (k - (j + 1) + m.len()) as nat,
            control,
            m,
        ) =~= received_results((k - j + m.len()) as nat, control, m));
    } else {
        assert(d.take(j + 1int) =~= d);
        assert(d.skip(k) =~= Seq::<u8>::empty());
        assert(bytes.drop_first() =~= m);
        assert(m.take(0) =~= Seq::<u8>::empty());
        assert(m.skip(0) =~= m);
        lemma_body_received(m, m.len(), control);
        assert(seq![None::<(bool, Seq<u8>)>] + received_results(m.len(), control, m)
            =~= received_results((m.len() + 1) as nat, control, m));
    }
}

/// A frame of either kind with a non-empty body, fed byte by byte to a
/// receiver that waits for a frame, is received whole: every byte is taken
/// without a fault, every byte but the last completes nothing, the last
/// completes a frame of that kind with that body, and the receiver then
/// waits for the next frame with an empty buffer.
pub proof fn law_frame_received(control: bool, m: Seq<u8>)
    requires
        1 <= m.len(),
        m.len() + leb128_len(m.len()) <= TX_BUF_CAPACITY,
    ensures
        ({
            let frame = seq![slug(control)] + leb128(m.len()) + m;
            rx_run(RxState::WaitingForMessageType, Seq::empty(), frame) == (
                received_results(frame.len(), control, m),
                RxState::WaitingForMessageType,
                Seq::<u8>::empty(),
                true,
            )
        }),
{
    let d = leb128(m.len());
    lemma_leb128_len(m.len());
    let frame = seq![slug(control)] + d + m;
    assert(frame[0] == slug(control));
    assert(frame.drop_first() =~= d.skip(0) + m);
    assert(d.take(0) =~= Seq::<u8>::empty());
    lemma_delimiter_received(m, 0, control);
    assert(seq![None::<(bool, Seq<u8>)>] + received_results((d.len() + m.len()) as nat, control, m)
        =~= received_results(frame.len(), control, m));
}

/// Console input framed as `[CONSOLE_INPUT_SLUG] + delimiter + body`, with a
/// non-empty body, is received whole: no byte is refused, and the last
/// completes console input with that body.
pub proof fn law_console_frame_received(m: Seq<u8>)
    requires
        1 <= m.len(),
        m.len() + leb128_len(m.len()) <= TX_BUF_CAPACITY,
    ensures
        ({
            let frame = seq![CONSOLE_INPUT_SLUG] + leb128(m.len()) + m;
            let run = rx_run(RxState::WaitingForMessageType, Seq::empty(), frame);
            &&& run.3
            &&& run.0.len() == frame.len()
            &&& run.0[frame.len() - 1] == Some((false, m))
            &&& forall|i: int| 0 <= i < frame.len() - 1 ==> run.0[i] is None
            &&& run.1 == RxState::WaitingForMessageType
        }),
{
    law_frame_received(false, m);
}

/// A control frame with a non-empty body, built by
/// [`frame_control_message`] and fed byte by byte to a receiver that waits
/// for a frame, is received whole: every byte is taken without a fault,
/// every byte but the last completes nothing, the last completes the message,
/// and the receiver then waits for the next frame with an empty buffer.
pub proof fn law_control_frame_received(m: Seq<u8>)
    requires
        1 <= m.len(),
        m.len() + leb128_len(m.len()) <= TX_BUF_CAPACITY,
    ensures
        ({
            let frame = seq![CONTROL_MESSAGE_SLUG] + leb128(m.len()) + m;
            rx_run(RxState::WaitingForMessageType, Seq::empty(), frame) == (
                frame_results(frame.len(), m),
                RxState::WaitingForMessageType,
                Seq::<u8>::empty(),
                true,
            )
        }),
{
    law_frame_received(true, m);
}

/// Assembles incoming frames byte by byte.
pub struct Receiver {
    state: RxState,
    buffer: Fifo<u8>,
}

impl Receiver {
    pub closed spec fn state_view(&self) -> RxState {
        self.state
    }

    /// The bytes held for the frame being assembled.
    pub closed spec fn buffered(&self) -> Seq<u8> {
        self.buffer@
    }

    pub closed spec fn wf(&self) -> bool {
        &&& self.buffer.wf()
        &&& self.state == RxState::WaitingForMessageType ==> self.buffer@.len() == 0
        &&& self.state matches RxState::ReadingControlMessage(n) ==> n <= FIFO_CAPACITY
        &&& self.state matches RxState::ReadingConsoleInput(n) ==> n <= FIFO_CAPACITY
    }

    /// A receiver waiting for the type byte of a frame.
    pub fn new() -> (r: Self)
        ensures
            r.wf(),
            r.state_view() == RxState::WaitingForMessageType,
            r.buffered() == Seq::<u8>::empty(),
    {
        Receiver { state: RxState::WaitingForMessageType, buffer: Fifo::new() }
    }

    pub fn state(&self) -> (r: RxState)
        ensures
            r == self.state_view(),
    {
        self.state
    }

    /// Removes and returns everything buffered.
    fn drain(&mut self) -> (r: Vec<u8>)
        requires
            old(self).buffer.wf(),
        ensures
            final(self).buffer.wf(),
            r@ == old(self).buffered(),
            final(self).buffered() == Seq::<u8>::empty(),
            final(self).state == old(self).state,
    {
        let body = self.buffer.to_vec();
        self.buffer = Fifo::new();
        body
    }

    /// Whether the receiver can take `c`, and if not, why.
    pub fn check(&self, c: u8) -> (r: Result<(), RxFault>)
        requires
            self.wf(),
        ensures
            r == match rx_fault(self.state_view(), self.buffered(), c) {
                Some(f) => Err::<(), RxFault>(f),
                None => Ok(()),
            },
    {
        proof {
            self.buffer.lemma_len_bounded();
        }
        match self.state {
            RxState::WaitingForMessageType => {
                if c == CONTROL_MESSAGE_SLUG || c == CONSOLE_INPUT_SLUG {
                    Ok(())
                } else {
                    Err(RxFault::UnknownMessageType(c))
                }
            },
            RxState::ControlMessageLengthUnknown | RxState::ConsoleInputLengthUnknown => {
                if self.buffer.is_full() {
                    return Err(RxFault::BufferFull);
                }
                let mut bytes = self.buffer.to_vec();
                bytes.push(c);
                match decode_length_delimiter(bytes.as_slice()) {
                    Some((len, _)) => if len > FIFO_CAPACITY {
                        Err(RxFault::MessageTooLong(len))
                    } else {
                        Ok(())
                    },
                    None => Ok(()),
                }
            },
            RxState::ReadingControlMessage(n) | RxState::ReadingConsoleInput(n) => {
                if n == 0 {
                    Err(RxFault::NoBodyExpected)
                } else if self.buffer.is_full() {
                    Err(RxFault::BufferFull)
                } else {
                    Ok(())
                }
            },
        }
    }

    /// Takes the result of decoding the buffered bytes as a length delimiter,
    /// while the length of a frame is still unknown. Without a complete
    /// delimiter nothing changes. Otherwise the delimiter's bytes leave the
    /// buffer and the announced number of body bytes is awaited.
    pub fn accept_length_delimiter(&mut self, decoded: Option<(usize, usize)>)
        requires
            old(self).wf(),
            is_length_unknown(old(self).state_view()),
            decoded matches Some((len, rest)) ==> rest <= old(self).buffered().len() && len
                <= FIFO_CAPACITY,
        ensures
            final(self).wf(),
            (None::<(bool, Seq<u8>)>, final(self).state_view(), final(self).buffered())
                == after_delimiter(old(self).state_view(), old(self).buffered(), decoded),
    {
        let control = match self.state {
            RxState::ControlMessageLengthUnknown => true,
            _ => false,
        };
        match decoded {
            None => {},
            Some((len, rest)) => {
                let ghost buf = self.buffer@;
                let consumed = self.buffer.length() - rest;
                let mut k: usize = 0;
                while k < consumed
                    invariant
                        self.buffer.wf(),
                        self.state == old(self).state,
                        consumed == buf.len() - rest,
                        0 <= k <= consumed,
                        self.buffer@ == buf.skip(k as int),
                    decreases consumed - k,
                {
                    let _ = self.buffer.pop();
                    k += 1;
                    assert(self.buffer@ =~= buf.skip(k as int));
                }
                let n = len as u16;
                self.state =
                    if control {
                        RxState::ReadingControlMessage(n)
                    } else {
                        RxState::ReadingConsoleInput(n)
                    };
            },
        }
    }

    /// Takes one received byte (one that [`Receiver::check`] accepts).
    ///
    /// Waiting for a frame, the byte is a slug and selects the kind of frame.
    /// While the length is unknown, the byte is buffered and the buffer is
    /// decoded as a length delimiter. While the body is read, the byte is
    /// buffered, and the last byte of the body completes the frame: its body
    /// is everything buffered, and the receiver waits for the next frame.
    pub fn receive(&mut self, c: u8) -> (r: RxEvent)
        requires
            old(self).wf(),
            rx_fault(old(self).state_view(), old(self).buffered(), c) is None,
        ensures
            final(self).wf(),
            (completed_frame(r), final(self).state_view(), final(self).buffered()) == rx_next(
                old(self).state_view(),
                old(self).buffered(),
                c,
            ),
    {
        proof {
            self.buffer.lemma_len_bounded();
        }
        match self.state {
            RxState::WaitingForMessageType => {
                if c == CONTROL_MESSAGE_SLUG {
                    self.state = RxState::ControlMessageLengthUnknown;
                } else {
                    self.state = RxState::ConsoleInputLengthUnknown;
                }
                RxEvent::Incomplete
            },
            RxState::ControlMessageLengthUnknown | RxState::ConsoleInputLengthUnknown => {
                let _ = self.buffer.push(c);
                let bytes = self.buffer.to_vec();
                let decoded = decode_length_delimiter(bytes.as_slice());
                proof {
                    lemma_delimiter_rest(bytes@);
                }
                self.accept_length_delimiter(decoded);
                RxEvent::Incomplete
            },
            RxState::ReadingControlMessage(n) | RxState::ReadingConsoleInput(n) => {
                let control = match self.state {
                    RxState::ReadingControlMessage(_) => true,
                    _ => false,
                };
                let _ = self.buffer.push(c);
                if n == 1 {
                    let body = self.drain();
                    self.state = RxState::WaitingForMessageType;
                    if control {
                        RxEvent::ControlMessage(body)
                    } else {
                        RxEvent::ConsoleInput(body)
                    }
                } else {
                    self.state =
                        if control {
                            RxState::ReadingControlMessage(n - 1)
                        } else {
                            RxState::ReadingConsoleInput(n - 1)
                        };
                    RxEvent::Incomplete
                }
            },
        }
    }
}

/// The one-slot hand-over of received control messages to the main loop,
/// with its arrival flag.
pub struct ControlMailbox<M> {
    pending: Option<M>,
    flag: bool,
}

impl<M> ControlMailbox<M> {
    /// The waiting message, if any.
    pub closed spec fn pending_view(&self) -> Option<M> {
        self.pending
    }

    /// Whether the arrival flag is raised.
    pub closed spec fn flag_view(&self) -> bool {
        self.flag
    }

    /// An empty mailbox with the flag lowered.
    pub fn new() -> (r: Self)
        ensures
            r.pending_view() == None::<M>,
            !r.flag_view(),
    {
        ControlMailbox { pending: None, flag: false }
    }

    /// Whether a message is waiting.
    pub fn has_pending(&self) -> (r: bool)
        ensures
            r == self.pending_view() is Some,
    {
        self.pending.is_some()
    }

    /// Whether the arrival flag is raised.
    pub fn flag_raised(&self) -> (r: bool)
        ensures
            r == self.flag_view(),
    {
        self.flag
    }

    /// Stores `message` and raises the flag, while no message is waiting and
    /// the flag is lowered.
    pub fn deliver(&mut self, message: M)
        requires
            old(self).pending_view() is None,
            !old(self).flag_view(),
        ensures
            final(self).pending_view() == Some(message),
            final(self).flag_view(),
    {
        self.pending = Some(message);
        self.flag = true;
    }

    /// Once the flag has been raised, takes the waiting message (if any) and
    /// lowers the flag, so that the next message can be delivered; while the
    /// flag is lowered, returns nothing and changes nothing.
    pub fn get_message(&mut self) -> (r: Option<M>)
        ensures
            old(self).flag_view() ==> r == old(self).pending_view() && final(self).pending_view()
                == None::<M> && !final(self).flag_view(),
            !old(self).flag_view() ==> r == None::<M> && final(self).pending_view() == old(
                self,
            ).pending_view() && !final(self).flag_view(),
    {
        if self.flag {
            self.flag = false;
            self.pending.take()
        } else {
            None
        }
    }
}

} // verus!
