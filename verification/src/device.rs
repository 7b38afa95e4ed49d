//! The device slot: the one connection to the sensor, if any, and the state
//! of the background reader that consumes its byte stream.

use crate::error::SessionError;
use crate::framing::{lemma_lines_of_concat, lines_of, rest_of, unterminated, LineBuffer};
use crate::text::{
    all_text, is_text, keep_text, lemma_text_prefix_concat, lemma_text_run, text_prefix,
};
use vstd::prelude::*;
use vstd::utf8::valid_utf8;

verus! {

/// Where the background reader stands.
#[derive(Debug, Clone, Copy, PartialEq, Eq)]
pub enum ReaderPhase {
    /// No reader exists yet: no connection was ever installed.
    NotStarted,
    /// The reader exists and waits for a connection.
    Idle,
    /// The reader consumes the stream of the installed connection.
    Reading,
    /// The reader has ended. It is not started again.
    Terminated,
}

impl ReaderPhase {
    /// True when one operation can take a reader from this phase to `next`.
    /// A reader is started by the first connection, alternates between
    /// reading and idling as connections come and go, and ends for good.
    pub open spec fn may_become(self, next: ReaderPhase) -> bool {
        match self {
            ReaderPhase::NotStarted => next is NotStarted || next is Reading,
            ReaderPhase::Idle => next is Idle || next is Reading,
            ReaderPhase::Reading => next is Reading || next is Idle || next is Terminated,
            ReaderPhase::Terminated => next is Terminated,
        }
    }
}

/// What one attempt to read from the connection gave.
#[derive(Debug, PartialEq, Eq)]
pub enum ReadEvent {
    /// These bytes arrived.
    Data(Vec<u8>),
    /// The stream has ended.
    EndOfStream,
    /// The read was interrupted before anything arrived; it can be repeated.
    Interrupted,
    /// The read failed: the device is gone, the timeout passed, or the
    /// transport reported a fault.
    Failed,
}

/// What the reader takes from one read: the lines to deliver, in order, and
/// the failure that ended the reading, if one did.
#[derive(Debug, PartialEq, Eq)]
pub struct Intake {
    /// The decoded lines, each without its terminator.
    pub lines: Vec<Vec<u8>>,
    /// `Some` where this read ended the reader with a failure.
    pub error: Option<SessionError>,
}

/// The installed connection, as contracts see it.
pub struct ConnectionState<P> {
    /// The transport handle.
    pub handle: P,
    /// The port identifier that the connection was opened with.
    pub port: Seq<char>,
    /// The bytes that arrived and are not yet part of a complete line.
    pub pending: Seq<u8>,
}

/// The device slot, as contracts see it.
pub struct DeviceState<P> {
    /// The installed connection, if there is one.
    pub connection: Option<ConnectionState<P>>,
    /// Where the reader stands.
    pub reader: ReaderPhase,
}

impl<P> DeviceState<P> {
    /// The state before anything happened: no connection, no reader.
    pub open spec fn fresh() -> Self {
        DeviceState { connection: None, reader: ReaderPhase::NotStarted }
    }

    /// The state after a connection with this handle and port was installed.
    /// It takes the place of the one before it. The reader reads from it,
    /// unless it has ended.
    pub open spec fn installed(self, handle: P, port: Seq<char>) -> Self {
        DeviceState {
            connection: Some(ConnectionState { handle, port, pending: Seq::empty() }),
            reader: if self.reader is Terminated {
                ReaderPhase::Terminated
            } else {
                ReaderPhase::Reading
            },
        }
    }

    /// True when installing a connection in this state starts the reader.
    pub open spec fn starts_reader(self) -> bool {
        self.reader is NotStarted
    }

    /// The state after the connection was cleared. A reader that was reading
    /// goes idle.
    pub open spec fn closed(self) -> Self {
        DeviceState {
            connection: None,
            reader: if self.reader is Reading {
                ReaderPhase::Idle
            } else {
                self.reader
            },
        }
    }

    /// True when the reader phase fits the connection and nothing pending
    /// holds a line feed. Every state that a slot can reach is consistent.
    pub open spec fn consistent(self) -> bool {
        &&& self.reader is Reading ==> self.connection is Some
        &&& self.reader is NotStarted || self.reader is Idle ==> self.connection is None
        &&& self.connection matches Some(c) ==> unterminated(c.pending)
    }

    /// True when the reader consumes what is read in this state.
    pub open spec fn reading(self) -> bool {
        self.reader is Reading && self.connection is Some
    }

    /// The lines that the reader decodes from `event` in this state.
    pub open spec fn decoded(self, event: ReadEvent) -> Seq<Seq<u8>> {
        if self.reading() {
            let pending = self.connection->0.pending;
            match event {
                ReadEvent::Data(chunk) => text_prefix(lines_of(pending + chunk@)),
                ReadEvent::EndOfStream => if pending.len() > 0 && valid_utf8(pending) {
                    seq![pending]
                } else {
                    seq![]
                },
                ReadEvent::Interrupted => seq![],
                ReadEvent::Failed => seq![],
            }
        } else {
            seq![]
        }
    }

    /// True when `event` in this state brings bytes that are not text.
    pub open spec fn damaged(self, event: ReadEvent) -> bool {
        let pending = self.connection->0.pending;
        match event {
            ReadEvent::Data(chunk) => !all_text(lines_of(pending + chunk@)),
            ReadEvent::EndOfStream => !valid_utf8(pending),
            _ => false,
        }
    }

    /// The failure with which `event` ends the reader in this state, if it
    /// does.
    pub open spec fn failure(self, event: ReadEvent) -> Option<SessionError> {
        if self.reading() && (event is Failed || self.damaged(event)) {
            Some(SessionError::ReadFailure)
        } else {
            None
        }
    }

    /// True when `event` ends the reader in this state.
    pub open spec fn ends_reader(self, event: ReadEvent) -> bool {
        self.reading() && (event is Failed || event is EndOfStream || self.damaged(event))
    }

    /// The state after the reader has taken `event`.
    pub open spec fn received(self, event: ReadEvent) -> Self {
        if self.ends_reader(event) {
            DeviceState {
                connection: Some(
                    ConnectionState { pending: Seq::empty(), ..self.connection->0 },
                ),
                reader: ReaderPhase::Terminated,
            }
        } else if self.reading() && event is Data {
            DeviceState {
                connection: Some(
                    ConnectionState {
                        pending: rest_of(self.connection->0.pending + event->Data_0@),
                        ..self.connection->0
                    },
                ),
                reader: self.reader,
            }
        } else {
            self
        }
    }
}

/// How a stream is cut into reads does not matter: taking two chunks one
/// after the other decodes the same lines, leaves the same state and fails
/// in the same cases as taking both as one chunk.
pub proof fn law_splitting_a_chunk_changes_nothing<P>(
    state: DeviceState<P>,
    first: Vec<u8>,
    second: Vec<u8>,
    joined: Vec<u8>,
)
    requires
        joined@ == first@ + second@,
    ensures
        state.received(ReadEvent::Data(first)).received(ReadEvent::Data(second)) == state.received(
            ReadEvent::Data(joined),
        ),
        state.decoded(ReadEvent::Data(first)) + state.received(ReadEvent::Data(first)).decoded(
            ReadEvent::Data(second),
        ) == state.decoded(ReadEvent::Data(joined)),
        state.failure(ReadEvent::Data(joined)) is Some <==> state.failure(ReadEvent::Data(first))
            is Some || state.received(ReadEvent::Data(first)).failure(ReadEvent::Data(second))
            is Some,
{
    let one = ReadEvent::Data(first);
    let two = ReadEvent::Data(second);
    let middle = state.received(one);
    if state.reading() {
        let pending = state.connection->0.pending;
        assert(pending + joined@ =~= (pending + first@) + second@);
        lemma_lines_of_concat(pending + first@, second@);
        lemma_text_prefix_concat(
            lines_of(pending + first@),
            lines_of(rest_of(pending + first@) + second@),
        );
        if state.damaged(one) {
            assert(state.decoded(one) + middle.decoded(two) =~= state.decoded(one));
        } else {
            lemma_text_run(lines_of(pending + first@));
            assert(state.decoded(one) =~= lines_of(pending + first@));
        }
    } else {
        assert(state.decoded(one) + middle.decoded(two) =~= Seq::<Seq<u8>>::empty());
    }
}

struct Connection<P> {
    handle: P,
    port: String,
    buffer: LineBuffer,
}

/// Holds the connection to the sensor, if one is installed, and the state of
/// the reader. At most one connection exists in it at any time.
pub struct DeviceSlot<P> {
    connection: Option<Connection<P>>,
    reader: ReaderPhase,
}

impl<P> View for DeviceSlot<P> {
    type V = DeviceState<P>;

    closed spec fn view(&self) -> DeviceState<P> {
        DeviceState {
            connection: match self.connection {
                Some(c) => Some(
                    ConnectionState { handle: c.handle, port: c.port@, pending: c.buffer@ },
                ),
                None => None,
            },
            reader: self.reader,
        }
    }
}

impl<P> DeviceSlot<P> {
    /// A slot with no connection and no reader.
    pub fn new() -> (slot: Self)
        ensures
            slot@ == DeviceState::<P>::fresh(),
    {
        DeviceSlot { connection: None, reader: ReaderPhase::NotStarted }
    }

    /// Installs a connection in place of the one before it, which is dropped.
    /// Returns true when the reader has to be started: on the first
    /// connection that this slot ever gets.
    pub(crate) fn install(&mut self, handle: P, port: String) -> (start: bool)
        ensures
            final(self)@ == old(self)@.installed(handle, port@),
            start == old(self)@.starts_reader(),
    {
        let start = match self.reader {
            ReaderPhase::NotStarted => true,
            _ => false,
        };
        let reader = match self.reader {
            ReaderPhase::Terminated => ReaderPhase::Terminated,
            _ => ReaderPhase::Reading,
        };
        self.connection = Some(Connection { handle, port, buffer: LineBuffer::new() });
        self.reader = reader;
        start
    }

    /// Drops the connection, if there is one.
    pub(crate) fn clear(&mut self)
        ensures
            final(self)@ == old(self)@.closed(),
    {
        let reader = match self.reader {
            ReaderPhase::Reading => ReaderPhase::Idle,
            other => other,
        };
        self.connection = None;
        self.reader = reader;
    }

    /// Where the reader stands.
    pub fn phase(&self) -> (phase: ReaderPhase)
        ensures
            phase == self@.reader,
    {
        self.reader
    }

    /// Tells whether a connection is installed.
    pub fn is_connected(&self) -> (yes: bool)
        ensures
            yes == self@.connection is Some,
    {
        self.connection.is_some()
    }

    /// The port identifier of the installed connection.
    pub fn port(&self) -> (port: Option<&str>)
        ensures
            self@.connection is None ==> port is None,
            self@.connection matches Some(c) ==> (port matches Some(name) && name@ == c.port),
    {
        match &self.connection {
            Some(c) => Some(c.port.as_str()),
            None => None,
        }
    }

    /// The transport handle of the installed connection, to read from. The
    /// slot is otherwise left as it is.
    pub fn handle_mut(&mut self) -> (handle: Option<&mut P>)
        ensures
            old(self)@.connection is None ==> handle is None && final(self)@ == old(self)@,
            old(self)@.connection matches Some(c) ==> (handle matches Some(h) && *h == c.handle
                && final(self)@ == (DeviceState {
                connection: Some(ConnectionState { handle: *final(h), ..c }),
                ..old(self)@
            })),
    {
        match &mut self.connection {
            Some(c) => Some(&mut c.handle),
            None => None,
        }
    }

    /// Takes what one read gave. While the reader is reading, bytes are
    /// framed into lines and the lines that are text are handed out, in
    /// order; a failed read, the end of the stream or a line that is not text
    /// ends the reader. In every other phase the event is ignored.
    pub fn receive(&mut self, event: ReadEvent) -> (intake: Intake)
        ensures
            final(self)@ == old(self)@.received(event),
            intake.lines.deep_view() == old(self)@.decoded(event),
            intake.error == old(self)@.failure(event),
    {
        let mut lines: Vec<Vec<u8>> = Vec::new();
        let mut error: Option<SessionError> = None;
        let mut ended = false;
        let reading = match self.reader {
            ReaderPhase::Reading => true,
            _ => false,
        };
        if reading {
            match &mut self.connection {
                Some(c) => {
                    match &event {
                        ReadEvent::Data(chunk) => {
                            lines = c.buffer.push(chunk.as_slice());
                            if !keep_text(&mut lines) {
                                let _ = c.buffer.take();
                                error = Some(SessionError::ReadFailure);
                                ended = true;
                            }
                        },
                        ReadEvent::EndOfStream => {
                            let rest = c.buffer.take();
                            if rest.len() > 0 {
                                if is_text(rest.as_slice()) {
                                    assert(rest.deep_view() =~= rest@);
                                    lines.push(rest);
                                    assert(lines.deep_view() =~= seq![rest@]);
                                } else {
                                    error = Some(SessionError::ReadFailure);
                                }
                            }
                            ended = true;
                        },
                        ReadEvent::Interrupted => {},
                        ReadEvent::Failed => {
                            let _ = c.buffer.take();
                            error = Some(SessionError::ReadFailure);
                            ended = true;
                        },
                    }
                },
                None => {},
            }
        }
        if ended {
            self.reader = ReaderPhase::Terminated;
        }
        assert(lines.deep_view() =~= old(self)@.decoded(event));
        Intake { lines, error }
    }
}

} // verus!
